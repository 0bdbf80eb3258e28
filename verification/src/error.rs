//! How an operation can fail.

use crate::text::joined;
use vstd::prelude::*;

verus! {

/// Why an operation gave no result.
#[derive(Debug, PartialEq, Eq)]
pub enum ChaserError {
    /// The page could not be loaded.
    NavigationFailed(String),
    /// The cookies could not be read.
    CookieExtractionFailed(String),
    /// No token came.
    CaptchaFailed(String),
    /// The operation took longer than the given number of milliseconds.
    Timeout(u64),
    /// The browser refused something else.
    Internal(String),
}

/// What a `ChaserError` says.
pub enum ErrorModel {
    NavigationFailed(Seq<char>),
    CookieExtractionFailed(Seq<char>),
    CaptchaFailed(Seq<char>),
    Timeout(u64),
    Internal(Seq<char>),
}

impl View for ChaserError {
    type V = ErrorModel;

    open spec fn view(&self) -> ErrorModel {
        match self {
            ChaserError::NavigationFailed(m) => ErrorModel::NavigationFailed(m@),
            ChaserError::CookieExtractionFailed(m) => ErrorModel::CookieExtractionFailed(m@),
            ChaserError::CaptchaFailed(m) => ErrorModel::CaptchaFailed(m@),
            ChaserError::Timeout(ms) => ErrorModel::Timeout(*ms),
            ChaserError::Internal(m) => ErrorModel::Internal(m@),
        }
    }
}

/// An internal error that names what was being done.
pub fn internal_while(doing: &str, message: &str) -> (error: ChaserError)
    ensures
        error@ == ErrorModel::Internal(doing@ + message@),
{
    ChaserError::Internal(joined(doing, message))
}

} // verus!

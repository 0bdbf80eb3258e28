//! Lengths of time, as a clock reports them.

use vstd::prelude::*;

verus! {

/// A length of time: whole seconds, and the nanoseconds beyond them.
#[derive(Debug, Clone, Copy, PartialEq, Eq, Structural)]
pub struct Elapsed {
    pub secs: u64,
    pub subsec_nanos: u32,
}

impl Elapsed {
    /// The length in nanoseconds.
    pub open spec fn total_nanos(self) -> int {
        self.secs * 1_000_000_000 + self.subsec_nanos
    }

    /// The length in nanoseconds.
    pub fn as_nanos(&self) -> (n: u128)
        ensures
            n == self.total_nanos(),
            n == self.secs * 1_000_000_000 + self.subsec_nanos,
    {
        self.secs as u128 * 1_000_000_000 + self.subsec_nanos as u128
    }
}

/// The whole milliseconds in `nanos` nanoseconds, reduced to 64 bits.
pub open spec fn short_millis(nanos: int) -> int {
    (nanos / 1_000_000) % 0x1_0000_0000_0000_0000
}

/// The whole milliseconds in `nanos` nanoseconds, reduced to 64 bits.
pub fn millis(nanos: u128) -> (ms: u64)
    ensures
        ms == short_millis(nanos as int),
        ms == (nanos / 1_000_000) as int % 0x1_0000_0000_0000_0000,
        nanos < 1_000_000 * 0x1_0000_0000_0000_0000 ==> ms * 1_000_000 <= nanos < (ms + 1)
            * 1_000_000,
{
    let whole: u128 = nanos / 1_000_000;
    assert(whole as u64 == whole % 0x1_0000_0000_0000_0000u128) by (bit_vector);
    #[verifier::truncate]
    (whole as u64)
}

/// The nanoseconds from `from` to `to`, and none where `to` is not later.
pub open spec fn nanos_between(from: int, to: int) -> int {
    if to >= from {
        to - from
    } else {
        0
    }
}

/// Reduced milliseconds never exceed the milliseconds themselves.
pub proof fn lemma_short_millis_bound(nanos: int)
    requires
        nanos >= 0,
    ensures
        0 <= short_millis(nanos) <= nanos / 1_000_000,
{
    vstd::arithmetic::div_mod::lemma_mod_decreases(
        (nanos / 1_000_000) as nat,
        0x1_0000_0000_0000_0000,
    );
}

} // verus!

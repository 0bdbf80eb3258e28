//! Decision logic of a browser-driven Cloudflare challenge client: which
//! element of a page to act on, what to ask of the browser after each of its
//! replies, and what an operation finally returns.

pub mod clearance;
pub mod click;
pub mod click_laws;
pub mod dom;
pub mod dom_laws;
pub mod error;
pub mod intercept;
pub mod model_laws;
pub mod models;
pub mod request_laws;
pub mod solver;
pub mod solver_laws;
pub mod text;
pub mod time;
pub mod token;
pub mod wait_laws;

pub use error::ChaserError;
pub use models::{Cookie, ProxyConfig, WafSession, WafSessionOptions};

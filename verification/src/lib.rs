//! Authentication, session, and response-envelope core of a small
//! club-membership backend.
//!
//! The library holds the logic that carries the system's guarantees: the
//! deterministic credential digest, the time-bounded session token with its
//! exact wire encoding, the request-boundary session extractor, and the JSON
//! response envelope that every endpoint's output must satisfy. Transport,
//! persistence, and process bootstrap live outside the library and hand it
//! plain values.

use vstd::prelude::*;

pub mod auth;
pub mod digest;
pub mod games;
pub mod model;
pub mod response;
pub mod users;
pub mod wire;

pub use response::ApiError;
pub use response::ApiResponse;

verus! {

/// Number of seconds a freshly issued session stays valid: thirty days.
pub const SESSION_LIFETIME_SECONDS: u64 = 30 * 24 * 60 * 60;

} // verus!

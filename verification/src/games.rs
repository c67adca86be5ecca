//! The game-recording endpoints' logic.
//!
//! Recording a game is an officer-only operation; the guard itself lives
//! with the session extractor. The record's scores are floating-point and
//! its assembly stays outside the library; what stands here is the
//! translation of the store's answer into the endpoint's outcome.

use vstd::prelude::*;

use vstd::string::StringExecFns;

use crate::auth::UserSession;
use crate::response::ApiError;

verus! {

/// What inserting a game record can come to.
#[derive(Clone, Debug)]
pub enum InsertGameOutcome {
    Inserted,
    StoreError(String),
}

/// Turn the store's answer to a game insertion into the endpoint's
/// outcome: any store failure is reported as an unknown error, with a
/// fixed message that hides the store's detail from the client.
pub fn add(outcome: InsertGameOutcome) -> (r: Result<(), ApiError>)
    ensures
        match outcome {
            InsertGameOutcome::Inserted => r == Ok::<(), ApiError>(()),
            InsertGameOutcome::StoreError(_) => match r {
                Ok(_) => false,
                Err(e) => e matches ApiError::Unknown(m) && m@ == "unknown database error"@,
            },
        },
{
    match outcome {
        InsertGameOutcome::Inserted => Ok(()),
        InsertGameOutcome::StoreError(_) => Err(
            ApiError::Unknown(String::from_str("unknown database error")),
        ),
    }
}

/// The game-listing endpoint is a stub: whatever the store holds, it
/// reports an unknown error and never a listing.
pub fn list() -> (r: Result<UserSession, ApiError>)
    ensures
        match r {
            Ok(_) => false,
            Err(e) => e matches ApiError::Unknown(m) && m@ == "unknown database error"@,
        },
{
    Err(ApiError::Unknown(String::from_str("unknown database error")))
}

} // verus!

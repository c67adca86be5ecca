//! Session tokens and the request-boundary session guard.
//!
//! A session is a self-describing, time-bounded bearer capability: it names
//! the subject, carries the privilege tier snapshotted at issuance, and is
//! valid strictly before `start + length`. The server re-validates every
//! presented token; there is no server-side session store.

use vstd::prelude::*;

use vstd::string::StringExecFns;

use crate::SESSION_LIFETIME_SECONDS;
use crate::digest::compute_password_hash;
use crate::digest::digest_of;
use crate::model::FindUserOutcome;
use crate::model::InsertUserOutcome;
use crate::model::NewUser;
use crate::response::ApiError;
use crate::wire::parse_session;

verus! {

/// A session capability. Field names are part of the wire contract and are
/// reproduced exactly in the serialized form: `user`, `length`,
/// `is_officer`, `start`.
#[derive(Clone, Copy, Debug, PartialEq, Eq, Structural)]
pub struct UserSession {
    /// Subject identifier of the logged-in account.
    pub user: i32,
    /// Lifetime of the session in seconds.
    pub length: u64,
    /// Privilege tier at the moment of issuance; never re-checked against
    /// the live account until the token expires.
    pub is_officer: bool,
    /// Absolute issuance time, seconds since the epoch.
    pub start: u64,
}

/// A token is valid at `now` iff `now` lies strictly before the end of its
/// lifetime.
pub open spec fn valid_at(session: UserSession, now: int) -> bool {
    now < session.start + session.length
}

impl UserSession {
    /// Issue a fresh session for `user` at absolute time `now`, with the
    /// fixed thirty-day lifetime and the privilege tier snapshotted from the
    /// account.
    pub fn new(user: i32, is_officer: bool, now: u64) -> (r: UserSession)
        ensures
            r == (UserSession { user, length: SESSION_LIFETIME_SECONDS, is_officer, start: now }),
    {
        UserSession { user, length: SESSION_LIFETIME_SECONDS, is_officer, start: now }
    }
}

/// Decide whether `session` is still valid at absolute time `now`.
pub fn is_session_valid(session: &UserSession, now: u64) -> (r: bool)
    ensures
        r == valid_at(*session, now as int),
{
    (now as u128) < (session.start as u128) + (session.length as u128)
}

/// Expiry is exclusive: a token is valid one second before the end of its
/// lifetime and no longer valid at the exact end.
pub proof fn lemma_validity_boundary(session: UserSession)
    ensures
        valid_at(session, session.start + session.length - 1),
        !valid_at(session, session.start + session.length),
{
}

/// The two access tiers: every logged-in member, or officers only.
#[derive(Clone, Copy, Debug, PartialEq, Eq, Structural)]
pub enum Tier {
    Ordinary,
    Officer,
}

/// Recover and validate a session at the boundary of a protected
/// operation. `transport` is the decoded client-held state, already
/// integrity-checked by the transport layer, or `None` where it was absent
/// or failed that check.
///
/// Absent state, a malformed token and an expired token all answer
/// `NotLoggedIn`, deliberately indistinguishable from one another; a valid
/// token of too low a tier answers `OfficerRequired`, and nothing else
/// does.
pub fn extract(transport: Option<&[u8]>, tier: Tier, now: u64) -> (r: Result<
    UserSession,
    ApiError,
>)
    ensures
        transport is None ==> r == Err::<UserSession, ApiError>(ApiError::NotLoggedIn),
        transport matches Some(bytes) ==> match parse_session(bytes@) {
            None => r == Err::<UserSession, ApiError>(ApiError::NotLoggedIn),
            Some(t) => if !valid_at(t, now as int) {
                r == Err::<UserSession, ApiError>(ApiError::NotLoggedIn)
            } else if tier is Officer && !t.is_officer {
                r == Err::<UserSession, ApiError>(ApiError::OfficerRequired)
            } else {
                r == Ok::<UserSession, ApiError>(t)
            },
        },
{
    match transport {
        None => Err(ApiError::NotLoggedIn),
        Some(bytes) => match UserSession::deserialize(bytes) {
            Err(_) => Err(ApiError::NotLoggedIn),
            Ok(session) => {
                if !is_session_valid(&session, now) {
                    Err(ApiError::NotLoggedIn)
                } else {
                    match tier {
                        Tier::Officer => {
                            if !session.is_officer {
                                Err(ApiError::OfficerRequired)
                            } else {
                                Ok(session)
                            }
                        },
                        Tier::Ordinary => Ok(session),
                    }
                }
            },
        },
    }
}

/// The guard most endpoints use: any valid session is admitted.
pub fn extract_ordinary(transport: Option<&[u8]>, now: u64) -> (r: Result<UserSession, ApiError>)
    ensures
        transport is None ==> r == Err::<UserSession, ApiError>(ApiError::NotLoggedIn),
        transport matches Some(bytes) ==> match parse_session(bytes@) {
            None => r == Err::<UserSession, ApiError>(ApiError::NotLoggedIn),
            Some(t) => if !valid_at(t, now as int) {
                r == Err::<UserSession, ApiError>(ApiError::NotLoggedIn)
            } else {
                r == Ok::<UserSession, ApiError>(t)
            },
        },
{
    extract(transport, Tier::Ordinary, now)
}

/// The guard of officer-only endpoints: a valid session whose snapshotted
/// tier is not officer is refused with `OfficerRequired`.
pub fn extract_officer(transport: Option<&[u8]>, now: u64) -> (r: Result<UserSession, ApiError>)
    ensures
        transport is None ==> r == Err::<UserSession, ApiError>(ApiError::NotLoggedIn),
        transport matches Some(bytes) ==> match parse_session(bytes@) {
            None => r == Err::<UserSession, ApiError>(ApiError::NotLoggedIn),
            Some(t) => if !valid_at(t, now as int) {
                r == Err::<UserSession, ApiError>(ApiError::NotLoggedIn)
            } else if !t.is_officer {
                r == Err::<UserSession, ApiError>(ApiError::OfficerRequired)
            } else {
                r == Ok::<UserSession, ApiError>(t)
            },
        },
{
    extract(transport, Tier::Officer, now)
}

/// What a registration request carries.
#[derive(Clone, Debug)]
pub struct RegisterRequest {
    pub first_name: String,
    pub last_name: String,
    pub erau_id: Option<i32>,
    pub chess_com_username: String,
    pub email: String,
    pub password: String,
}

/// What a login request carries: the account email and the submitted
/// credential, which is digested before any comparison.
#[derive(Clone, Debug)]
pub struct LoginParams {
    pub email: String,
    pub hash: String,
}

/// Build the record a registration hands to the store: the credential is
/// digested with the account email as its salt context, and the plaintext
/// is never stored.
pub fn new_user_record(params: &RegisterRequest, now: i64) -> (r: NewUser)
    ensures
        r.first_name@ == params.first_name@,
        r.last_name@ == params.last_name@,
        r.hash@ == digest_of(params.password@, params.email@),
        r.erau_id == params.erau_id,
        r.chess_com_username@ == params.chess_com_username@,
        r.email@ == params.email@,
        r.signup_date == now,
{
    let hash = compute_password_hash(params.password.as_str(), params.email.as_str());
    NewUser {
        first_name: params.first_name.clone(),
        last_name: params.last_name.clone(),
        hash,
        erau_id: params.erau_id,
        chess_com_username: params.chess_com_username.clone(),
        email: params.email.clone(),
        signup_date: now,
    }
}

/// Decide a registration from the store's answer. A created record issues
/// a fresh ordinary session identifying the created account; a duplicate
/// email is the one refusal the client may learn about; any other store
/// failure is reported without its detail.
pub fn register(outcome: InsertUserOutcome, now: u64) -> (r: Result<UserSession, ApiError>)
    ensures
        match outcome {
            InsertUserOutcome::NewId(id) => r == Ok::<UserSession, ApiError>(
                UserSession {
                    user: id,
                    length: SESSION_LIFETIME_SECONDS,
                    is_officer: false,
                    start: now,
                },
            ),
            InsertUserOutcome::DuplicateEmail => r == Err::<UserSession, ApiError>(
                ApiError::EmailTaken,
            ),
            InsertUserOutcome::StoreError(_) => match r {
                Ok(_) => false,
                Err(e) => e matches ApiError::Unknown(m) && m@ == "unknown database error"@,
            },
        },
{
    match outcome {
        InsertUserOutcome::NewId(id) => Ok(UserSession::new(id, false, now)),
        InsertUserOutcome::DuplicateEmail => Err(ApiError::EmailTaken),
        InsertUserOutcome::StoreError(_) => Err(
            ApiError::Unknown(String::from_str("unknown database error")),
        ),
    }
}

/// Decide a login from the store's answer and the submitted credentials.
/// Success is owed exactly when the account exists and the submitted
/// credential's digest matches the stored one; the issued session
/// snapshots the account's tier at this instant.
pub fn login(params: &LoginParams, lookup: FindUserOutcome, now: u64) -> (r: Result<
    UserSession,
    ApiError,
>)
    ensures
        match lookup {
            FindUserOutcome::Record(user) => if user.hash@ == digest_of(
                params.hash@,
                params.email@,
            ) {
                r == Ok::<UserSession, ApiError>(
                    UserSession {
                        user: user.id,
                        length: SESSION_LIFETIME_SECONDS,
                        is_officer: user.is_officer,
                        start: now,
                    },
                )
            } else {
                r == Err::<UserSession, ApiError>(ApiError::IncorrectCredentials)
            },
            FindUserOutcome::NotFound => r == Err::<UserSession, ApiError>(ApiError::UserNotFound),
            FindUserOutcome::StoreError(_) => match r {
                Ok(_) => false,
                Err(e) => e matches ApiError::Unknown(m) && m@ == "unknown database error"@,
            },
        },
{
    match lookup {
        FindUserOutcome::Record(user) => {
            let submitted = compute_password_hash(params.hash.as_str(), params.email.as_str());
            if submitted.eq(&user.hash) {
                Ok(UserSession::new(user.id, user.is_officer, now))
            } else {
                Err(ApiError::IncorrectCredentials)
            }
        },
        FindUserOutcome::NotFound => Err(ApiError::UserNotFound),
        FindUserOutcome::StoreError(_) => Err(
            ApiError::Unknown(String::from_str("unknown database error")),
        ),
    }
}

} // verus!

//! Account records and the outcomes of the persistence collaborator.
//!
//! The store itself is an external collaborator; the library sees only
//! plain records and the closed set of outcomes its operations can take,
//! and is verified over every one of them. Timestamps are carried as plain
//! seconds since the epoch.

use vstd::prelude::*;

verus! {

/// A stored account record.
#[derive(Clone, Debug)]
pub struct User {
    pub id: i32,
    pub first_name: String,
    pub last_name: String,
    /// The stored credential digest; the only secret ever compared.
    pub hash: String,
    pub erau_id: Option<i32>,
    /// Absolute signup time, seconds since the epoch.
    pub signup_date: i64,
    pub is_officer: bool,
    pub chess_com_username: String,
    pub email: String,
}

/// A record handed to the store to create an account.
#[derive(Clone, Debug)]
pub struct NewUser {
    pub first_name: String,
    pub last_name: String,
    /// The credential digest derived at registration.
    pub hash: String,
    pub erau_id: Option<i32>,
    pub chess_com_username: String,
    pub email: String,
    /// Absolute signup time, seconds since the epoch.
    pub signup_date: i64,
}

/// What inserting a new account can come to.
#[derive(Clone, Debug)]
pub enum InsertUserOutcome {
    /// The record was created under this account identifier.
    NewId(i32),
    /// The unique-email rule refused the record.
    DuplicateEmail,
    /// Any other store failure, with its detail.
    StoreError(String),
}

/// What looking an account up by email can come to.
#[derive(Clone, Debug)]
pub enum FindUserOutcome {
    /// The account with the requested email.
    Record(User),
    /// No account carries the requested email.
    NotFound,
    /// Any other store failure, with its detail.
    StoreError(String),
}

} // verus!

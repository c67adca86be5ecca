//! Deterministic credential digest.
//!
//! A stored secret is never the plaintext credential: it is the base64
//! rendering of a PBKDF2-HMAC-SHA-512 derivation keyed by the credential,
//! salted with the account's email address, over a fixed round count. The
//! derivation and the base64 rendering are done by outside crates behind
//! trusted wrappers; everything around them is verified.
//!
//! Two properties of the scheme are deliberate and documented rather than
//! silently improved, because every stored digest depends on them: the
//! salt is the user-supplied email, not a random value, so the digest is
//! fully deterministic and reproducible offline by anyone who knows the
//! parameters; and the login-time comparison of digests is a plain string
//! equality, not a constant-time one.

use vstd::prelude::*;

verus! {

/// Fixed PBKDF2 round count. Changing it silently invalidates every stored
/// digest, so it is a single named constant for the life of the store.
pub const PBKDF2_ROUNDS: u32 = 750;

/// The 64-byte PBKDF2-HMAC-SHA-512 derivation of `key` with `salt` over
/// `rounds` rounds. The value is a pure function of its arguments; it is
/// named, not spelled out, and nothing in this crate claims what it is on
/// any given input.
pub uninterp spec fn pbkdf2_sha512_64(key: Seq<u8>, salt: Seq<u8>, rounds: u32) -> Seq<u8>;

/// The standard base64 (with padding) rendering of `bytes`. A pure function
/// of its argument, named rather than spelled out.
pub uninterp spec fn base64_of(bytes: Seq<u8>) -> Seq<char>;

/// Relies on `crypto::pbkdf2::pbkdf2` with `crypto::hmac::Hmac` over
/// `crypto::sha2::Sha512`: fills the 64-byte output buffer with the
/// PBKDF2-HMAC-SHA-512 derivation of `key`, `salt` and `rounds`, a
/// deterministic function of those three arguments. The round count must be
/// positive: the outside function refuses zero.
#[verifier::external_body]
fn pbkdf2_derive(key: &[u8], salt: &[u8], rounds: u32) -> (r: Vec<u8>)
    requires
        rounds >= 1,
    ensures
        r@ == pbkdf2_sha512_64(key@, salt@, rounds),
        r@.len() == 64,
{
    let mut mac = crypto::hmac::Hmac::new(crypto::sha2::Sha512::new(), key);
    let mut out = [0u8; 64];
    crypto::pbkdf2::pbkdf2(&mut mac, salt, rounds, &mut out);
    out.to_vec()
}

/// Relies on `data_encoding::BASE64.encode`: returns the standard padded
/// base64 rendering of the input, four characters for every three input
/// bytes; deterministic in the input alone. The length bound keeps the
/// outside function's output-length computation from overflowing.
#[verifier::external_body]
fn base64_encode(bytes: &[u8]) -> (r: String)
    requires
        bytes@.len() <= 0x1000,
    ensures
        r@ == base64_of(bytes@),
        r@.len() == 4 * ((bytes@.len() + 2) / 3),
{
    data_encoding::BASE64.encode(bytes)
}

/// The stored digest of a credential `secret` in the context of account
/// email `salt`: base64 over the fixed PBKDF2 derivation of their UTF-8
/// bytes.
pub open spec fn digest_of(secret: Seq<char>, salt: Seq<char>) -> Seq<char> {
    base64_of(
        pbkdf2_sha512_64(
            vstd::utf8::encode_utf8(secret),
            vstd::utf8::encode_utf8(salt),
            PBKDF2_ROUNDS,
        ),
    )
}

/// Derive the stored digest for `password` in the context of account email
/// `salt`.
pub fn compute_password_hash(password: &str, salt: &str) -> (r: String)
    ensures
        r@ == digest_of(password@, salt@),
        r@.len() == 88,
{
    let derived = pbkdf2_derive(password.as_bytes(), salt.as_bytes(), PBKDF2_ROUNDS);
    base64_encode(derived.as_slice())
}

/// The digest is deterministic: the derivation depends on the credential and
/// its salt context alone, so equal inputs always produce equal stored
/// digests.
pub proof fn lemma_digest_deterministic(
    secret1: Seq<char>,
    salt1: Seq<char>,
    secret2: Seq<char>,
    salt2: Seq<char>,
)
    requires
        secret1 == secret2,
        salt1 == salt2,
    ensures
        digest_of(secret1, salt1) == digest_of(secret2, salt2),
{
}

} // verus!

//! Calls into the password-hashing and randomness crates, each behind
//! a single wrapper whose contract states what the call's source
//! documents.

use vstd::prelude::*;
use rand::Rng;

verus! {

/// Whether bcrypt's `verify` accepts `password` against the stored
/// `hash`: `true` exactly when it returns `Ok(true)`. The answer is a
/// function of the two arguments alone.
pub uninterp spec fn bcrypt_matches(password: Seq<char>, hash: Seq<char>) -> bool;

/// A character drawn from `[A-Za-z0-9]`.
pub open spec fn is_ascii_alphanumeric(c: char) -> bool {
    ('a' <= c && c <= 'z') || ('A' <= c && c <= 'Z') || ('0' <= c && c <= '9')
}

/// Relies on bcrypt::verify: whether the password matches the stored
/// hash; a malformed hash matches no password.
#[verifier::external_body]
pub fn verify_bcrypt(password: &str, hash: &str) -> (r: bool)
    ensures
        r == bcrypt_matches(password@, hash@),
{
    bcrypt::verify(password, hash).unwrap_or(false)
}

/// Relies on bcrypt::hash at the default cost: a fresh salted hash,
/// always 60 characters, which bcrypt::verify accepts for the same
/// password; it fails only when the system randomness source does,
/// and then reports the underlying error text.
#[verifier::external_body]
pub fn hash_bcrypt(password: &str) -> (r: Result<String, String>)
    ensures
        r matches Ok(h) ==> bcrypt_matches(password@, h@) && h@.len() == 60,
{
    bcrypt::hash(password, bcrypt::DEFAULT_COST).map_err(|e| e.to_string())
}

/// Relies on rand's `Alphanumeric` distribution: a fresh random string
/// of exactly `len` characters drawn from `[A-Za-z0-9]`.
#[verifier::external_body]
pub fn random_alphanumeric(len: usize) -> (r: String)
    ensures
        r@.len() == len,
        forall|i: int| 0 <= i < r@.len() ==> is_ascii_alphanumeric(#[trigger] r@[i]),
{
    rand::thread_rng()
        .sample_iter(&rand::distributions::Alphanumeric)
        .take(len)
        .map(char::from)
        .collect()
}

} // verus!

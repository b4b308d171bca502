//! The credential hasher: bcrypt, reached through two trusted calls.

use vstd::prelude::*;

verus! {

/// The error type of the `bcrypt` crate.
#[verifier::external_type_specification]
#[verifier::external_body]
pub struct ExBcryptError(bcrypt::BcryptError);

/// What `bcrypt::verify` answers for a password and a stored hash: whether
/// the password matches, or `None` where the hash cannot be read.
pub uninterp spec fn bcrypt_verdict(password: Seq<char>, hash: Seq<char>) -> Option<bool>;

/// Checks `password` against a stored bcrypt `hash`.
///
/// Calls `bcrypt::verify`, which reads cost and salt from the hash, hashes
/// the password with them and compares. Its answer depends on the two texts
/// alone; the contract names that answer and claims nothing else of it.
#[verifier::external_body]
pub(crate) fn verify_password(password: &str, hash: &str) -> (verdict: Result<
    bool,
    bcrypt::BcryptError,
>)
    ensures
        verdict is Ok <==> bcrypt_verdict(password@, hash@) is Some,
        verdict matches Ok(matched) ==> bcrypt_verdict(password@, hash@) == Some(matched),
{
    bcrypt::verify(password, hash)
}

/// Hashes `password` under a fresh random salt.
///
/// Calls `bcrypt::hash` with `bcrypt::DEFAULT_COST`. The hash depends on the
/// salt, so the contract does not say which hash comes back. It says what
/// holds of every one: `bcrypt::verify` reads back the cost and the salt that
/// the hash was made with, so the hash matches the password it was made from.
#[verifier::external_body]
pub(crate) fn hash_password(password: &str) -> (hashed: Result<String, bcrypt::BcryptError>)
    ensures
        hashed matches Ok(hash) ==> bcrypt_verdict(password@, hash@) == Some(true),
{
    bcrypt::hash(password, bcrypt::DEFAULT_COST)
}

} // verus!

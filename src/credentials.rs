//! Password hashing and email syntax, from the bcrypt, nanoid and validator crates.

use vstd::prelude::*;

verus! {

/// The bcrypt hash string that `bcrypt` makes of a password with a given salt.
pub uninterp spec fn bcrypt_hash_of(password: Seq<char>, salt: Seq<u8>) -> Seq<char>;

/// What `bcrypt::verify` answers for a password and a stored hash string:
/// whether they match, or `None` for a malformed hash.
pub uninterp spec fn bcrypt_verify_of(password: Seq<char>, hash: Seq<char>) -> Option<bool>;

/// Whether `validator` accepts a string as an email address.
pub uninterp spec fn email_is_valid(email: Seq<char>) -> bool;

/// Relies on nanoid::format with nanoid's default random source and its SAFE
/// alphabet, as `nanoid!(16)` does: sixteen random ASCII characters, taken as
/// the bytes of a bcrypt salt. Nothing is promised of their value.
#[verifier::external_body]
pub(crate) fn random_salt() -> (r: [u8; 16]) {
    let id = nanoid::format(nanoid::rngs::default, &nanoid::alphabet::SAFE, 16);
    id.as_bytes().try_into().unwrap_or([0u8; 16])
}

/// Relies on bcrypt::hash_with_salt at DEFAULT_COST, rendered by
/// HashParts::to_string: the "$2y$" hash string of the password and salt. The
/// call fails only for a cost outside 4..=31, so not at DEFAULT_COST (12); and
/// bcrypt::verify, which re-hashes with the cost and salt found in the string,
/// accepts the result for the same password.
#[verifier::external_body]
pub(crate) fn hash_password(password: &str, salt: [u8; 16]) -> (r: String)
    ensures
        r@ == bcrypt_hash_of(password@, salt@),
        bcrypt_verify_of(password@, r@) == Some(true),
{
    match bcrypt::hash_with_salt(password.as_bytes(), bcrypt::DEFAULT_COST, salt) {
        Ok(parts) => parts.to_string(),
        Err(_) => String::new(),
    }
}

/// Relies on bcrypt::verify: whether the password matches the stored hash
/// (compared in constant time), or an error for a malformed hash.
#[verifier::external_body]
pub(crate) fn check_password(password: &str, hash: &str) -> (r: Option<bool>)
    ensures
        r == bcrypt_verify_of(password@, hash@),
{
    bcrypt::verify(password, hash).ok()
}

/// Relies on validator::validate_email: whether the string is a syntactically
/// valid email address. It rejects a string without an '@'.
#[verifier::external_body]
pub(crate) fn check_email(email: &str) -> (r: bool)
    ensures
        r == email_is_valid(email@),
        !email@.contains('@') ==> !r,
{
    validator::validate_email(email)
}

} // verus!

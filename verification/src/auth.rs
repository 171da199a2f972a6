//! Stored passwords: bcrypt hashes made at registration and checked at login.

use vstd::prelude::*;
use crate::db::responses::ApiError;
use crate::handling::PASSWORD_HASH_COST;
use crate::numparse::digit_char;

verus! {

/// What `bcrypt::verify` decides for a password and a stored hash: whether
/// they match, or `None` when the hash cannot be read.
pub uninterp spec fn bcrypt_verify_outcome(password: Seq<char>, hash: Seq<char>) -> Option<bool>;

#[verifier::external_type_specification]
#[verifier::external_body]
pub struct ExBcryptError(bcrypt::BcryptError);

/// The first seven characters of a bcrypt hash string of version 2b made
/// with a cost below 100: `$2b$`, the cost in two digits, and `$`.
pub open spec fn bcrypt_hash_prefix(cost: u32) -> Seq<char> {
    seq!['$', '2', 'b', '$', digit_char((cost / 10) as nat), digit_char((cost % 10) as nat), '$']
}

/// `bcrypt::hash`: a hash of the password under a fresh random salt. It fails
/// for a cost outside 4..=31, and may fail when no randomness is available.
/// A hash it returns is one that `bcrypt::verify` accepts for the password,
/// written as `$2b$`, the cost in two digits, `$`, then 22 characters of salt
/// and 31 of hash (60 in all).
#[verifier::external_body]
fn bcrypt_hash(password: &str, cost: u32) -> (r: Result<String, bcrypt::BcryptError>)
    ensures
        !(4 <= cost <= 31) ==> r is Err,
        r matches Ok(h) ==> bcrypt_verify_outcome(password@, h@) == Some(true),
        r matches Ok(h) ==> h@.len() == 60 && h@.subrange(0, 7) == bcrypt_hash_prefix(cost),
{
    bcrypt::hash(password, cost)
}

/// `bcrypt::verify`: its outcome is named `bcrypt_verify_outcome`, an error
/// standing for `None`.
#[verifier::external_body]
fn bcrypt_verify(password: &str, hash: &str) -> (r: Result<bool, bcrypt::BcryptError>)
    ensures
        match r {
            Ok(b) => bcrypt_verify_outcome(password@, hash@) == Some(b),
            Err(_) => bcrypt_verify_outcome(password@, hash@) is None,
        },
{
    bcrypt::verify(password, hash)
}

/// The hash to store for a new user's password, made with bcrypt at cost
/// 10; the stored hash checks against that password. Hashing can fail only
/// for want of randomness, which is an internal error.
pub fn hash_password(password: &str) -> (r: Result<String, ApiError>)
    ensures
        r matches Ok(h) ==> bcrypt_verify_outcome(password@, h@) == Some(true),
        r matches Ok(h) ==> h@.len() == 60 && h@.subrange(0, 7) == seq!['$', '2', 'b', '$', '1', '0', '$'],
        r matches Err(e) ==> e is Internal,
{
    match bcrypt_hash(password, PASSWORD_HASH_COST) {
        Ok(h) => Ok(h),
        Err(_) => Err(ApiError::Internal("password hashing failed".to_owned())),
    }
}

/// What a login check gives: no such user is a plain refusal; otherwise the
/// password is checked against the stored hash.
pub open spec fn credentials_outcome(stored_hash: Option<Seq<char>>, password: Seq<char>) -> Option<bool> {
    match stored_hash {
        None => Some(false),
        Some(h) => bcrypt_verify_outcome(password, h),
    }
}

/// Whether the password matches the user's stored hash (`None` when there is
/// no such user); an internal error when the stored hash cannot be read.
pub fn check_credentials(stored_hash: Option<&str>, password: &str) -> (r: Result<bool, ApiError>)
    ensures
        match credentials_outcome(
            match stored_hash {
                Some(h) => Some(h@),
                None => None,
            },
            password@,
        ) {
            Some(b) => r == Ok::<bool, ApiError>(b),
            None => r matches Err(e) && e is Internal,
        },
{
    match stored_hash {
        None => Ok(false),
        Some(h) => match bcrypt_verify(password, h) {
            Ok(b) => Ok(b),
            Err(_) => Err(ApiError::Internal("password check failed".to_owned())),
        },
    }
}

/// A password checks against the hash stored for it at registration, and a
/// login under a name with no stored hash is refused (not an error), whatever
/// the password.
pub proof fn law_registered_password_checks(password: Seq<char>, stored: Seq<char>, other: Seq<char>)
    requires
        bcrypt_verify_outcome(password, stored) == Some(true),
    ensures
        credentials_outcome(Some(stored), password) == Some(true),
        credentials_outcome(None, other) == Some(false),
{
}

} // verus!

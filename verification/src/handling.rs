//! The decisions of the web interface: access tokens, passwords, and the
//! answers to each request.

use vstd::prelude::*;
use vstd::string::StrSliceExecFns;
use crate::db::models::{Claims, Config};
use crate::db::responses::{AddAddressResponse, ApiError, LoginResponse, RegisterResponse};
use crate::numparse::{i32_to_string, parse_bool, parse_i32, parse_signed, parse_u16,
    parse_unsigned, signed_decimal_text};

verus! {

/// How long an access token stays valid: 24 hours, in seconds.
pub const TOKEN_LIFETIME_SECS: i64 = 86400;

/// The bcrypt cost used for stored passwords.
pub const PASSWORD_HASH_COST: u32 = 10;

/// The claims of the token issued at login: the user's id in decimal, and an
/// expiry 24 hours after `now_secs`.
pub fn login_claims(user_id: i32, now_secs: i64) -> (r: Claims)
    requires
        now_secs <= i64::MAX - TOKEN_LIFETIME_SECS,
    ensures
        r.sub@ == signed_decimal_text(user_id as int),
        r.exp == now_secs + TOKEN_LIFETIME_SECS,
{
    Claims { sub: i32_to_string(user_id), exp: now_secs + TOKEN_LIFETIME_SECS }
}

/// The user id that a token's claims carry; an internal error when the
/// subject is not a number in the range of `i32`.
pub fn get_user_id(claims: &Claims) -> (r: Result<i32, ApiError>)
    ensures
        match parse_signed(claims.sub@, i32::MIN as int, i32::MAX as int) {
            Some(v) => r == Ok::<i32, ApiError>(v as i32),
            None => r matches Err(ApiError::Internal(m)) && m@ == "Invalid user_id in token claims"@,
        },
{
    match parse_i32(claims.sub.as_str()) {
        Some(v) => Ok(v),
        None => Err(ApiError::Internal("Invalid user_id in token claims".to_owned())),
    }
}

/// The token that an `Authorization` header carries after `Bearer `.
pub open spec fn bearer_token_text(header: Seq<char>) -> Option<Seq<char>> {
    if header.len() >= 7 && header.subrange(0, 7) == "Bearer "@ {
        Some(header.subrange(7, header.len() as int))
    } else {
        None
    }
}

/// The token of an `Authorization` header of the form `Bearer <token>`; `None`
/// when the header is missing or has another form.
pub fn bearer_token(header: Option<&str>) -> (r: Option<String>)
    ensures
        match header {
            Some(h) => r.deep_view() == bearer_token_text(h@),
            None => r is None,
        },
{
    proof {
        reveal_strlit("Bearer ");
    }
    match header {
        None => None,
        Some(h) => {
            let n = h.unicode_len();
            if n < 7 {
                return None;
            }
            let prefix = h.substring_char(0, 7).to_owned();
            let expected = "Bearer ".to_owned();
            if prefix == expected {
                Some(h.substring_char(7, n).to_owned())
            } else {
                None
            }
        },
    }
}

/// The answer to a registration: success when the user was created, a
/// conflict when the name was taken.
pub fn register_outcome(created: bool) -> (r: Result<RegisterResponse, ApiError>)
    ensures
        created ==> (r matches Ok(resp) && resp.success@ == "Registration succsessful"@),
        !created ==> (r matches Err(ApiError::Conflict(m)) && m@ == "User with this username already exists"@),
{
    if created {
        Ok(RegisterResponse { success: "Registration succsessful".to_owned() })
    } else {
        Err(ApiError::Conflict("User with this username already exists".to_owned()))
    }
}

/// The answer to a login: the issued token when the credentials were good,
/// refused otherwise.
pub fn login_outcome(token: Option<String>) -> (r: Result<LoginResponse, ApiError>)
    ensures
        match token {
            Some(t) => r matches Ok(resp) && resp.success@ == "Login succsessful"@ && resp.token@ == t@,
            None => r matches Err(ApiError::Unauthorized(m)) && m@ == "Invalid username or password"@,
        },
{
    match token {
        Some(t) => Ok(LoginResponse { success: "Login succsessful".to_owned(), token: t }),
        None => Err(ApiError::Unauthorized("Invalid username or password".to_owned())),
    }
}

/// Whether a user may read the addresses asked for: every one of them is
/// among the addresses the user tracks (the count of the user's rows that
/// match equals the number asked for).
pub fn owns_all_addresses(requested: usize, owned_count: i64) -> (r: bool)
    ensures
        r == ((requested as i64) == owned_count),
{
    requested as i64 == owned_count
}

/// Lets a request about addresses through, or refuses it when the user does
/// not track them all.
pub fn address_access(granted: bool) -> (r: Result<(), ApiError>)
    ensures
        granted ==> r is Ok,
        !granted ==> (r matches Err(ApiError::Unauthorized(m))
            && m@ == "You do not have access to one or more of the requested addresses"@),
{
    if granted {
        Ok(())
    } else {
        Err(ApiError::Unauthorized("You do not have access to one or more of the requested addresses".to_owned()))
    }
}

/// The answer to a request to track addresses: success when all were saved,
/// a conflict otherwise.
pub fn track_outcome(saved: bool) -> (r: Result<AddAddressResponse, ApiError>)
    ensures
        saved ==> (r matches Ok(resp) && resp.success@ == "Address saved to db"@),
        !saved ==> (r matches Err(ApiError::Conflict(m)) && m@ == "Can't add address"@),
{
    if saved {
        Ok(AddAddressResponse { success: "Address saved to db".to_owned() })
    } else {
        Err(ApiError::Conflict("Can't add address".to_owned()))
    }
}

/// The address of the block explorer's interface for the main network
/// (`network` true) or the test network.
pub fn blockstream_base_url(network: bool) -> (r: String)
    ensures
        network ==> r@ == "https://blockstream.info/api"@,
        !network ==> r@ == "https://blockstream.info/testnet/api"@,
{
    if network {
        "https://blockstream.info/api".to_owned()
    } else {
        "https://blockstream.info/testnet/api".to_owned()
    }
}

/// A token's subject, written at login, reads back as the same user id.
pub proof fn law_token_subject_round_trip(user_id: i32)
    ensures
        parse_signed(signed_decimal_text(user_id as int), i32::MIN as int, i32::MAX as int) == Some(user_id as int),
{
    crate::numparse::lemma_parse_signed_text(user_id as int, i32::MIN as int, i32::MAX as int);
}

} // verus!

//! Requests and answers of the web interface, and the rows it reads.

use vstd::prelude::*;

verus! {

/// A user's name and password, as sent to register or to log in.
#[derive(Debug, Clone)]
pub struct RegisterData {
    pub username: String,
    pub password: String,
}

/// The answer to a registration.
#[derive(Debug, Clone)]
pub struct RegisterResponse {
    pub success: String,
}

/// The answer to a login: a message and the access token.
#[derive(Debug, Clone)]
pub struct LoginResponse {
    pub success: String,
    pub token: String,
}

/// The answer to a request to track addresses.
#[derive(Debug, Clone)]
pub struct AddAddressResponse {
    pub success: String,
}

/// The addresses a request is about.
#[derive(Debug, Clone)]
pub struct AddressPayload {
    pub addresses: Vec<String>,
}

/// The balance of one address: the sum of its unspent outputs.
#[derive(Debug, Clone)]
pub struct BalanceResponse {
    pub address: String,
    pub balance: u64,
}

/// An address some user tracks, with the id of that tracking.
#[derive(Debug, Clone)]
pub struct TrackedAddress {
    pub address_id: i32,
    pub address: String,
}

/// A transaction that touches a tracked address, as it is saved.
#[derive(Debug, Clone)]
pub struct NewTransaction {
    pub txid: String,
    pub block_height: Option<i32>,
    pub block_hash: Option<String>,
    /// Seconds since the epoch.
    pub block_time: Option<i64>,
    pub vouts: Option<Vec<i32>>,
    pub vins: Option<Vec<i32>>,
}

/// An output of a transaction paid to a tracked address.
#[derive(Debug, Clone)]
pub struct UtxoResponse {
    pub address_id: i32,
    pub txid: String,
    pub vout_idx: i32,
    pub value: i64,
    pub block_height: Option<i32>,
    pub is_spent: bool,
}

/// An output, as listed for an address.
#[derive(Debug, Clone)]
pub struct AddressUtxoResponse {
    pub address: String,
    pub txid: String,
    pub vout_idx: i32,
    pub value: i64,
    pub block_height: Option<i32>,
    pub is_spent: bool,
}

/// The body of an error answer.
#[derive(Debug, Clone)]
pub struct ErrorResponse {
    pub error: String,
}

/// Why a request was refused.
#[derive(Debug, Clone)]
pub enum ApiError {
    Unauthorized(String),
    Conflict(String),
    Internal(String),
}

/// The value of a tracked address.
pub struct TrackedAddressView {
    pub address_id: i32,
    pub address: Seq<char>,
}

impl DeepView for TrackedAddress {
    type V = TrackedAddressView;

    open spec fn deep_view(&self) -> TrackedAddressView {
        TrackedAddressView { address_id: self.address_id, address: self.address@ }
    }
}

/// The value of a transaction to save.
pub struct NewTransactionView {
    pub txid: Seq<char>,
    pub block_height: Option<i32>,
    pub block_hash: Option<Seq<char>>,
    pub block_time: Option<i64>,
    pub vouts: Option<Seq<i32>>,
    pub vins: Option<Seq<i32>>,
}

impl DeepView for NewTransaction {
    type V = NewTransactionView;

    open spec fn deep_view(&self) -> NewTransactionView {
        NewTransactionView {
            txid: self.txid@,
            block_height: self.block_height,
            block_hash: self.block_hash.deep_view(),
            block_time: self.block_time,
            vouts: match self.vouts {
                Some(v) => Some(v@),
                None => None,
            },
            vins: match self.vins {
                Some(v) => Some(v@),
                None => None,
            },
        }
    }
}

/// The value of an output paid to a tracked address.
pub struct UtxoResponseView {
    pub address_id: i32,
    pub txid: Seq<char>,
    pub vout_idx: i32,
    pub value: i64,
    pub block_height: Option<i32>,
    pub is_spent: bool,
}

impl DeepView for UtxoResponse {
    type V = UtxoResponseView;

    open spec fn deep_view(&self) -> UtxoResponseView {
        UtxoResponseView {
            address_id: self.address_id,
            txid: self.txid@,
            vout_idx: self.vout_idx,
            value: self.value,
            block_height: self.block_height,
            is_spent: self.is_spent,
        }
    }
}

/// The HTTP status code that answers each kind of refusal.
pub open spec fn api_error_status(e: ApiError) -> u16 {
    match e {
        ApiError::Unauthorized(_) => 401,
        ApiError::Conflict(_) => 409,
        ApiError::Internal(_) => 500,
    }
}

impl ApiError {
    /// The status code and the message that answer the refusal; the reason
    /// behind an internal error is not shown, only "Internal server error".
    pub fn status_and_message(&self) -> (r: (u16, String))
        ensures
            r.0 == api_error_status(*self),
            match self {
                ApiError::Unauthorized(m) => r.1@ == m@,
                ApiError::Conflict(m) => r.1@ == m@,
                ApiError::Internal(_) => r.1@ == "Internal server error"@,
            },
    {
        match self {
            ApiError::Unauthorized(m) => (401, m.clone()),
            ApiError::Conflict(m) => (409, m.clone()),
            ApiError::Internal(_) => (500, "Internal server error".to_owned()),
        }
    }
}

} // verus!

//! The records of the first version of the service.

use vstd::prelude::*;
use crate::config::{opt_text, ConfigError, ConfigProblem};

verus! {

/// The first version's settings.
#[derive(Debug, Clone)]
pub struct Config {
    pub database_url: String,
    pub jwt_secret: String,
    pub nakamoto_path: String,
}

/// The claims carried by an access token.
#[derive(Debug, Clone)]
pub struct Claims {
    pub sub: String,
    pub exp: i64,
}

/// A user's name and password.
#[derive(Debug, Clone)]
pub struct RegisterData {
    pub username: String,
    pub password: String,
}

/// An unspent output of an address.
#[derive(Debug, Clone)]
pub struct UtxoData {
    pub txid: String,
    pub vout: i32,
    pub value: i64,
}

/// A transaction to save.
#[derive(Debug, Clone)]
pub struct NewTransaction {
    pub txid: String,
    pub block_height: Option<i32>,
    pub block_hash: Option<String>,
    /// Seconds since the epoch.
    pub block_time: Option<i64>,
}

/// An output to save for a tracked address.
#[derive(Debug, Clone)]
pub struct NewTxOutput {
    pub address_id: i32,
    pub txid: String,
    pub vout: i32,
    pub value: i64,
}

/// An unspent output, as listed.
#[derive(Debug, Clone)]
pub struct UtxoResponse {
    pub txid: String,
    pub vout: i32,
    pub value: i64,
    pub block_height: Option<i32>,
}

/// The first problem with the first version's environment values, in the
/// order `DATABASE_URL`, `JWT_STRING`, `NAKAMOTO_PATH`.
pub open spec fn legacy_config_problem(
    database_url: Option<Seq<char>>,
    jwt_string: Option<Seq<char>>,
    nakamoto_path: Option<Seq<char>>,
) -> Option<ConfigProblem> {
    if database_url is None {
        Some(ConfigProblem::Missing("DATABASE_URL"@))
    } else if jwt_string is None {
        Some(ConfigProblem::Missing("JWT_STRING"@))
    } else if nakamoto_path is None {
        Some(ConfigProblem::Missing("NAKAMOTO_PATH"@))
    } else {
        None
    }
}

impl Config {
    /// The first version's settings from the values of `DATABASE_URL`,
    /// `JWT_STRING` and `NAKAMOTO_PATH` (`None` where a variable is unset).
    pub fn from_vars(
        database_url: Option<String>,
        jwt_string: Option<String>,
        nakamoto_path: Option<String>,
    ) -> (r: Result<Config, ConfigError>)
        ensures
            match legacy_config_problem(opt_text(database_url), opt_text(jwt_string), opt_text(nakamoto_path)) {
                Some(p) => r matches Err(e) && e.deep_view() == p,
                None => r matches Ok(c) && {
                    &&& c.database_url@ == database_url->0@
                    &&& c.jwt_secret@ == jwt_string->0@
                    &&& c.nakamoto_path@ == nakamoto_path->0@
                },
            },
    {
        match (database_url, jwt_string, nakamoto_path) {
            (None, _, _) => Err(ConfigError::Missing("DATABASE_URL".to_owned())),
            (Some(_), None, _) => Err(ConfigError::Missing("JWT_STRING".to_owned())),
            (Some(_), Some(_), None) => Err(ConfigError::Missing("NAKAMOTO_PATH".to_owned())),
            (Some(database_url), Some(jwt_secret), Some(nakamoto_path)) => Ok(
                Config { database_url, jwt_secret, nakamoto_path },
            ),
        }
    }
}

} // verus!

//! Reading the service's settings from environment values.

use vstd::prelude::*;
use crate::db::models::Config;
use crate::numparse::{parse_bool, parse_u16, parse_unsigned};

verus! {

/// Why the settings could not be read: a required variable is missing, or
/// holds no number of the right range. Each names the variable.
#[derive(Debug, Clone)]
pub enum ConfigError {
    Missing(String),
    Invalid(String),
}

/// The first problem with a set of environment values, by variable name.
pub enum ConfigProblem {
    Missing(Seq<char>),
    Invalid(Seq<char>),
}

impl DeepView for ConfigError {
    type V = ConfigProblem;

    open spec fn deep_view(&self) -> ConfigProblem {
        match self {
            ConfigError::Missing(n) => ConfigProblem::Missing(n@),
            ConfigError::Invalid(n) => ConfigProblem::Invalid(n@),
        }
    }
}

/// The text of an optional value.
pub open spec fn opt_text(v: Option<String>) -> Option<Seq<char>> {
    match v {
        Some(s) => Some(s@),
        None => None,
    }
}

/// The first problem, in the order the variables are read: `DATABASE_URL`,
/// `JWT_STRING`, `API_PORT` (a port number), then `MAX_REORG_CAPACITY` (a
/// number up to 65535); `IP_MASK` and `MAINNET` are optional.
pub open spec fn config_problem(
    database_url: Option<Seq<char>>,
    jwt_string: Option<Seq<char>>,
    api_port: Option<Seq<char>>,
    max_reorg_capacity: Option<Seq<char>>,
) -> Option<ConfigProblem> {
    if database_url is None {
        Some(ConfigProblem::Missing("DATABASE_URL"@))
    } else if jwt_string is None {
        Some(ConfigProblem::Missing("JWT_STRING"@))
    } else if api_port is None {
        Some(ConfigProblem::Missing("API_PORT"@))
    } else if parse_unsigned(api_port->0, u16::MAX as int) is None {
        Some(ConfigProblem::Invalid("API_PORT"@))
    } else if max_reorg_capacity is None {
        Some(ConfigProblem::Missing("MAX_REORG_CAPACITY"@))
    } else if parse_unsigned(max_reorg_capacity->0, u16::MAX as int) is None {
        Some(ConfigProblem::Invalid("MAX_REORG_CAPACITY"@))
    } else {
        None
    }
}

/// Whether the service follows the main network: yes unless `MAINNET` reads
/// as `false` (a value that is not a boolean counts as yes).
pub open spec fn mainnet_setting(mainnet: Option<Seq<char>>) -> bool {
    match mainnet {
        Some(v) => v != "false"@,
        None => true,
    }
}

impl Config {
    /// The settings from the values of `DATABASE_URL`, `JWT_STRING`,
    /// `API_PORT`, `IP_MASK`, `MAINNET` and `MAX_REORG_CAPACITY` (`None`
    /// where a variable is unset).
    pub fn from_vars(
        database_url: Option<String>,
        jwt_string: Option<String>,
        api_port: Option<String>,
        ip_mask: Option<String>,
        mainnet: Option<String>,
        max_reorg_capacity: Option<String>,
    ) -> (r: Result<Config, ConfigError>)
        ensures
            match config_problem(opt_text(database_url), opt_text(jwt_string), opt_text(api_port), opt_text(max_reorg_capacity)) {
                Some(p) => r matches Err(e) && e.deep_view() == p,
                None => r matches Ok(c) && {
                    &&& c.database_url@ == database_url->0@
                    &&& c.jwt_secret@ == jwt_string->0@
                    &&& parse_unsigned(api_port->0@, u16::MAX as int) == Some(c.port as int)
                    &&& opt_text(c.ip_musk) == opt_text(ip_mask)
                    &&& c.network == mainnet_setting(opt_text(mainnet))
                    &&& parse_unsigned(max_reorg_capacity->0@, u16::MAX as int) == Some(c.reorg_limit as int)
                },
            },
    {
        proof {
            reveal_strlit("false");
            reveal_strlit("true");
            assert("true"@ != "false"@) by {
                assert("true"@.len() != "false"@.len());
            }
        }
        let database_url = match database_url {
            Some(v) => v,
            None => {
                return Err(ConfigError::Missing("DATABASE_URL".to_owned()));
            },
        };
        let jwt_secret = match jwt_string {
            Some(v) => v,
            None => {
                return Err(ConfigError::Missing("JWT_STRING".to_owned()));
            },
        };
        let port = match api_port {
            Some(v) => match parse_u16(v.as_str()) {
                Some(p) => p,
                None => {
                    return Err(ConfigError::Invalid("API_PORT".to_owned()));
                },
            },
            None => {
                return Err(ConfigError::Missing("API_PORT".to_owned()));
            },
        };
        let network = match mainnet {
            Some(v) => match parse_bool(v.as_str()) {
                Some(b) => b,
                None => true,
            },
            None => true,
        };
        let reorg_limit = match max_reorg_capacity {
            Some(v) => match parse_u16(v.as_str()) {
                Some(p) => p,
                None => {
                    return Err(ConfigError::Invalid("MAX_REORG_CAPACITY".to_owned()));
                },
            },
            None => {
                return Err(ConfigError::Missing("MAX_REORG_CAPACITY".to_owned()));
            },
        };
        Ok(Config { database_url, jwt_secret, port, ip_musk: ip_mask, network, reorg_limit })
    }
}

} // verus!

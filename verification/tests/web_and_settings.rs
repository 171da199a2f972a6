use btc_indexer::auth::{check_credentials, hash_password};
use btc_indexer::config::ConfigError;
use btc_indexer::db::models::{Claims, Config};
use btc_indexer::db::responses::ApiError;
use btc_indexer::handling::{
    address_access, bearer_token, blockstream_base_url, get_user_id, login_claims, login_outcome,
    owns_all_addresses, register_outcome, track_outcome,
};
use btc_indexer::models;

fn s(v: &str) -> Option<String> {
    Some(v.to_string())
}

#[test]
fn login_token_subject_reads_back() {
    for id in [0, 1, 42, -7, i32::MAX, i32::MIN] {
        let claims = login_claims(id, 1_700_000_000);
        assert_eq!(claims.sub, id.to_string());
        assert_eq!(claims.exp, 1_700_000_000 + 86400);
        assert!(matches!(get_user_id(&claims), Ok(v) if v == id));
    }
}

#[test]
fn bad_subject_is_internal_error() {
    let claims = Claims { sub: "alice".to_string(), exp: 0 };
    match get_user_id(&claims) {
        Err(ApiError::Internal(m)) => assert_eq!(m, "Invalid user_id in token claims"),
        _ => panic!("expected an internal error"),
    }
}

#[test]
fn bearer_tokens() {
    assert_eq!(bearer_token(Some("Bearer abc.def")), Some("abc.def".to_string()));
    assert_eq!(bearer_token(Some("Bearer ")), Some(String::new()));
    assert_eq!(bearer_token(Some("bearer abc")), None);
    assert_eq!(bearer_token(Some("Basic abc")), None);
    assert_eq!(bearer_token(Some("Bear")), None);
    assert_eq!(bearer_token(None), None);
    assert_eq!(bearer_token(Some("Bearer ünï")), Some("ünï".to_string()));
}

#[test]
fn answers_and_refusals() {
    assert_eq!(register_outcome(true).unwrap().success, "Registration succsessful");
    assert!(matches!(register_outcome(false), Err(ApiError::Conflict(m)) if m == "User with this username already exists"));
    let ok = login_outcome(Some("tok".to_string())).unwrap();
    assert_eq!((ok.success.as_str(), ok.token.as_str()), ("Login succsessful", "tok"));
    assert!(matches!(login_outcome(None), Err(ApiError::Unauthorized(m)) if m == "Invalid username or password"));
    assert!(address_access(true).is_ok());
    assert!(matches!(address_access(false), Err(ApiError::Unauthorized(m)) if m == "You do not have access to one or more of the requested addresses"));
    assert_eq!(track_outcome(true).unwrap().success, "Address saved to db");
    assert!(matches!(track_outcome(false), Err(ApiError::Conflict(m)) if m == "Can't add address"));
    assert!(owns_all_addresses(3, 3));
    assert!(!owns_all_addresses(3, 2));
    assert!(owns_all_addresses(0, 0));
}

#[test]
fn error_status_codes() {
    assert_eq!(ApiError::Unauthorized("x".to_string()).status_and_message(), (401, "x".to_string()));
    assert_eq!(ApiError::Conflict("y".to_string()).status_and_message(), (409, "y".to_string()));
    assert_eq!(ApiError::Internal("secret".to_string()).status_and_message(), (500, "Internal server error".to_string()));
}

#[test]
fn explorer_urls() {
    assert_eq!(blockstream_base_url(true), "https://blockstream.info/api");
    assert_eq!(blockstream_base_url(false), "https://blockstream.info/testnet/api");
}

#[test]
fn stored_password_checks() {
    let h = hash_password("hunter2").unwrap();
    assert_ne!(h, "hunter2");
    assert!(h.starts_with("$2b$10$"));
    assert_eq!(h.len(), 60);
    assert!(matches!(check_credentials(Some(&h), "hunter2"), Ok(true)));
    assert!(matches!(check_credentials(Some(&h), "hunter3"), Ok(false)));
    assert!(matches!(check_credentials(None, "hunter2"), Ok(false)));
    assert!(matches!(check_credentials(Some("not a hash"), "hunter2"), Err(ApiError::Internal(_))));
}

#[test]
fn settings_from_environment_values() {
    let c = Config::from_vars(s("postgres://db"), s("secret"), s("8080"), s("127.0.0.1"), s("false"), s("6")).unwrap();
    assert_eq!(c.database_url, "postgres://db");
    assert_eq!(c.jwt_secret, "secret");
    assert_eq!(c.port, 8080);
    assert_eq!(c.ip_musk.as_deref(), Some("127.0.0.1"));
    assert!(!c.network);
    assert_eq!(c.reorg_limit, 6);
    let c = Config::from_vars(s("d"), s("j"), s("1"), None, s("maybe"), s("0")).unwrap();
    assert!(c.network);
    assert!(c.ip_musk.is_none());
    let c = Config::from_vars(s("d"), s("j"), s("1"), None, None, s("0")).unwrap();
    assert!(c.network);
}

#[test]
fn settings_errors_name_the_variable() {
    let missing = |e: Result<Config, ConfigError>, name: &str| matches!(e, Err(ConfigError::Missing(n)) if n == name);
    let invalid = |e: Result<Config, ConfigError>, name: &str| matches!(e, Err(ConfigError::Invalid(n)) if n == name);
    assert!(missing(Config::from_vars(None, s("j"), s("1"), None, None, s("1")), "DATABASE_URL"));
    assert!(missing(Config::from_vars(s("d"), None, s("1"), None, None, s("1")), "JWT_STRING"));
    assert!(missing(Config::from_vars(s("d"), s("j"), None, None, None, s("1")), "API_PORT"));
    assert!(invalid(Config::from_vars(s("d"), s("j"), s("70000"), None, None, s("1")), "API_PORT"));
    assert!(missing(Config::from_vars(s("d"), s("j"), s("1"), None, None, None), "MAX_REORG_CAPACITY"));
    assert!(invalid(Config::from_vars(s("d"), s("j"), s("1"), None, None, s("-1")), "MAX_REORG_CAPACITY"));
}

#[test]
fn first_version_settings() {
    let c = models::Config::from_vars(s("d"), s("j"), s("/var/nakamoto")).unwrap();
    assert_eq!(c.nakamoto_path, "/var/nakamoto");
    assert!(matches!(models::Config::from_vars(s("d"), s("j"), None), Err(ConfigError::Missing(n)) if n == "NAKAMOTO_PATH"));
    assert!(matches!(models::Config::from_vars(None, None, None), Err(ConfigError::Missing(n)) if n == "DATABASE_URL"));
}

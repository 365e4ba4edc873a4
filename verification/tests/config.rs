use axum_api::config::{parse_unsigned_decimal, split_api_keys, AppConfig, IntErrorKind, RuntimeConfig};

fn vars(pairs: &[(&str, &str)]) -> Vec<(String, String)> {
    pairs.iter().map(|(k, v)| (k.to_string(), v.to_string())).collect()
}

#[test]
fn config_defaults() {
    let c = AppConfig::from_vars(&vars(&[])).ok().unwrap();
    assert_eq!(c.jwt_secret, "default_jwt_secret_change_in_production");
    assert_eq!(c.database_connection_string, "./data");
    assert_eq!(c.database_name, "unnamed");
    assert_eq!(c.database_user, "root");
    assert_eq!(c.database_password, "");
    assert!(c.client_api_keys.is_empty());
    assert_eq!(c.root_password, "changeme");
    assert_eq!(c.jwt_expiry_days, 90);
    assert_eq!(c.host, "0.0.0.0");
    assert_eq!(c.port, 3069);
    assert_eq!(c.object_store_region, "us-east-1");
    assert_eq!(c.object_store_path, "./data");
}

#[test]
fn config_reads_values() {
    let c = AppConfig::from_vars(&vars(&[("PORT", "8080"), ("CLIENT_API_KEYS", "a::b:"), ("DB_NAME", "crit")]))
        .ok()
        .unwrap();
    assert_eq!(c.port, 8080);
    assert_eq!(c.client_api_keys, vec!["a".to_string(), "b".to_string()]);
    assert_eq!(c.database_name, "crit");
}

#[test]
fn config_rejects_bad_port() {
    assert_eq!(AppConfig::from_vars(&vars(&[("PORT", "70000")])).err(), Some(IntErrorKind::PosOverflow));
    assert_eq!(AppConfig::from_vars(&vars(&[("PORT", "80a")])).err(), Some(IntErrorKind::InvalidDigit));
    assert_eq!(AppConfig::from_vars(&vars(&[("JWT_EXPIRY_DAYS", "")])).err(), Some(IntErrorKind::Empty));
}

#[test]
fn parse_matches_std() {
    for s in ["0", "+7", "18446744073709551615", "18446744073709551616", "-1", "+", "", "1x", "007"] {
        let expect = s.parse::<u64>().ok();
        assert_eq!(parse_unsigned_decimal(s, u64::MAX).ok(), expect, "input {:?}", s);
    }
    assert_eq!(parse_unsigned_decimal("65535", 65535).ok(), Some(65535));
    assert_eq!(parse_unsigned_decimal("65536", 65535).err(), Some(IntErrorKind::PosOverflow));
    assert_eq!(IntErrorKind::InvalidDigit.message(), "invalid digit found in string");
}

#[test]
fn api_keys_split() {
    assert_eq!(split_api_keys(":k1:k2::k3"), vec!["k1".to_string(), "k2".to_string(), "k3".to_string()]);
    assert!(split_api_keys("").is_empty());
    assert!(split_api_keys(":::").is_empty());
}

#[test]
fn runtime_registration_flag() {
    assert!(AppConfig::runtime_from_vars(&vars(&[])).user_login_allowed);
    assert!(AppConfig::runtime_from_vars(&vars(&[("API_ALLOW_USER_REGISTRATION", "TRUE")])).user_login_allowed);
    assert!(AppConfig::runtime_from_vars(&vars(&[("API_ALLOW_USER_REGISTRATION", "yes, true")])).user_login_allowed);
    assert!(!AppConfig::runtime_from_vars(&vars(&[("API_ALLOW_USER_REGISTRATION", "false")])).user_login_allowed);
    assert!(!RuntimeConfig::default().user_login_allowed);
}

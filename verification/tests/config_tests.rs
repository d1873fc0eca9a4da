use authcore::config::{AppConfig, RuntimeConfig, parse_api_keys, parse_bool_flag};
use authcore::strutil::{i64_string, str_equal, strip_prefix_of};

#[test]
fn api_key_list_parsing() {
    assert_eq!(parse_api_keys("alpha:beta:gamma"), vec!["alpha", "beta", "gamma"]);
    assert_eq!(parse_api_keys("solo"), vec!["solo"]);
    assert_eq!(parse_api_keys(""), Vec::<String>::new());
    assert_eq!(parse_api_keys(":leading::doubled:"), vec!["leading", "doubled"]);
}

#[test]
fn registration_toggle_parsing() {
    assert!(parse_bool_flag("true"));
    assert!(parse_bool_flag("TRUE"));
    assert!(parse_bool_flag("it is True indeed"));
    assert!(!parse_bool_flag("false"));
    assert!(!parse_bool_flag(""));
    assert!(!parse_bool_flag("tru"));
}

#[test]
fn runtime_config_defaults_to_open_registration() {
    let rc = RuntimeConfig::default();
    assert!(rc.user_login_allowed);
}

#[test]
fn app_config_holds_plain_values() {
    let cfg = AppConfig {
        jwt_secret: "secret".to_string(),
        database_connection_string: "memory".to_string(),
        client_api_keys: parse_api_keys("k1:k2"),
        management_token: "mgmt".to_string(),
        host: "127.0.0.1".to_string(),
        port: 3069,
    };
    assert_eq!(cfg.client_api_keys.len(), 2);
    assert_eq!(cfg.port, 3069);
}

#[test]
fn signed_decimal_rendering() {
    assert_eq!(i64_string(0), "0");
    assert_eq!(i64_string(42), "42");
    assert_eq!(i64_string(-42), "-42");
    assert_eq!(i64_string(i64::MIN), "-9223372036854775808");
    assert_eq!(i64_string(i64::MAX), "9223372036854775807");
}

#[test]
fn string_helpers() {
    assert!(str_equal("abc", "abc"));
    assert!(!str_equal("abc", "abd"));
    assert!(!str_equal("abc", "ab"));
    assert_eq!(strip_prefix_of("Bearer tok", "Bearer "), Some("tok"));
    assert_eq!(strip_prefix_of("Token tok", "Bearer "), None);
}

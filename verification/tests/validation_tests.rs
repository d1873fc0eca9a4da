use authcore::validation::{
    Validator, allow_only_alphanumerics_and_specials, decimal_string, force_lowercase,
    force_uppercase, limit_length, limit_min_length, not_start_with_digit, run_validators,
};
use authcore::validation::naming::validate_username;

#[test]
fn test_force_lowercase() {
    assert_eq!(force_lowercase("HeLlO"), "hello");
    assert_eq!(force_lowercase("123"), "123");
    assert_eq!(force_lowercase(""), "");
}

#[test]
fn test_force_uppercase() {
    assert_eq!(force_uppercase("HeLlO"), "HELLO");
    assert_eq!(force_uppercase("123"), "123");
    assert_eq!(force_uppercase(""), "");
}

#[test]
fn test_limit_length_pass() {
    assert!(limit_length(10, "abc").is_ok());
    assert!(limit_length(10, "0123456789").is_ok());
    assert!(limit_length(10, "").is_ok());
    assert!(limit_length(10, "Hëllo").is_ok());
}

#[test]
fn test_limit_length_fail() {
    assert!(limit_length(5, "abcdef").is_err());
    assert!(limit_length(5, "HëlloWörld").is_err());
}

#[test]
fn test_allow_only_alphanumerics_and_specials_pass() {
    assert!(allow_only_alphanumerics_and_specials(None, "Abc123Z").is_ok());
    assert!(allow_only_alphanumerics_and_specials(Some("-_@"), "User-Name_1@").is_ok());
}

#[test]
fn test_allow_only_alphanumerics_and_specials_fail() {
    assert!(allow_only_alphanumerics_and_specials(None, "abc!").is_err());
    assert!(allow_only_alphanumerics_and_specials(None, "123$").is_err());
    assert!(allow_only_alphanumerics_and_specials(None, "Hëllo").is_err());
    assert!(allow_only_alphanumerics_and_specials(Some("-"), "user_name").is_err());
    assert!(allow_only_alphanumerics_and_specials(Some("-"), "user@name").is_err());
}

#[test]
fn test_not_start_with_digit_pass() {
    assert!(not_start_with_digit("UserName").is_ok());
    assert!(not_start_with_digit("_user").is_ok());
    assert!(not_start_with_digit("").is_ok());
    assert!(not_start_with_digit("a123").is_ok());
}

#[test]
fn test_not_start_with_digit_fail() {
    assert!(not_start_with_digit("1UserName").is_err());
    assert!(not_start_with_digit("9").is_err());
}

#[test]
fn test_pipeline_success() {
    let validators: Vec<Validator> = vec![
        Validator::MaxLength(20),
        Validator::AllowedChars(Some("!".to_string())),
        Validator::NoLeadingDigit,
    ];
    assert!(run_validators("Hello!World", &validators).is_ok());
}

#[test]
fn test_pipeline_fail_on_first_validator() {
    let validators: Vec<Validator> = vec![
        Validator::MaxLength(5),
        Validator::NoLeadingDigit,
        Validator::AllowedChars(None),
    ];
    let result = run_validators("abcdef", &validators);
    assert!(result.is_err());
    assert!(result.unwrap_err().contains("Length limit exceeded"));
}

#[test]
fn test_pipeline_fail_on_last_validator() {
    let validators: Vec<Validator> = vec![
        Validator::MaxLength(20),
        Validator::NoLeadingDigit,
        Validator::AllowedChars(None),
    ];
    let result = run_validators("Valid_Name", &validators);
    assert!(result.is_err());
    assert!(result.unwrap_err().contains("Invalid character '_' found"));
}

#[test]
fn ok_username() {
    let r = validate_username("johN_doe99").unwrap();
    assert_eq!(r, "john_doe99");
}

#[test]
fn too_long() {
    let name = "abcdefghijklmnopqrstuvwxyzz";
    let _err = validate_username(name).unwrap_err();
}

#[test]
fn invalid_characters() {
    let _err = validate_username("john*doe").unwrap_err();
}

#[test]
fn starts_with_digit() {
    let _err = validate_username("1abc").unwrap_err();
}

#[test]
fn case_conversion_happens_first() {
    let r = validate_username("abcXYZ").unwrap();
    assert_eq!(r, "abcxyz");
}

#[test]
fn length_message_carries_both_numbers() {
    let err = limit_length(5, "abcdefgh").unwrap_err();
    assert_eq!(err, "Length limit exceeded: 8 characters found, maximum is 5");
    let err = limit_min_length(2, "a").unwrap_err();
    assert_eq!(err, "Length limit exceeded: 1 characters found, maximum is 2");
}

#[test]
fn invalid_char_message_names_the_first_offender() {
    let err = allow_only_alphanumerics_and_specials(None, "ab*c!").unwrap_err();
    assert_eq!(
        err,
        "Invalid character '*' found. Only alphanumerics and allowed specials are permitted."
    );
}

#[test]
fn leading_digit_message_names_the_rule() {
    let err = not_start_with_digit("7seas").unwrap_err();
    assert_eq!(err, "String cannot start with a digit.");
}

#[test]
fn decimal_rendering_is_exact() {
    assert_eq!(decimal_string(0), "0");
    assert_eq!(decimal_string(7), "7");
    assert_eq!(decimal_string(10), "10");
    assert_eq!(decimal_string(90210), "90210");
    assert_eq!(decimal_string(u64::MAX), "18446744073709551615");
}

#[test]
fn min_length_boundary() {
    assert!(limit_min_length(2, "ab").is_ok());
    assert!(limit_min_length(2, "a").is_err());
    assert!(limit_min_length(0, "").is_ok());
}

#[test]
fn username_rules_at_the_boundaries() {
    assert!(validate_username("ab").is_ok());
    assert!(validate_username("a").is_err());
    assert!(validate_username("abcdefghijklmnopqrstuvwxy").is_ok());
    assert!(validate_username("abcdefghijklmnopqrstuvwxyz").is_err());
    assert!(validate_username("under_score_99").is_ok());
}

use form_builder::validation::Predicate;
use form_builder::{ValidationMethods, Validator};

#[test]
fn test_validate_name() {
    assert!(ValidationMethods::validate_name("John"));
    assert!(!ValidationMethods::validate_name("John123"));
}

#[test]
fn test_validate_email() {
    assert!(ValidationMethods::validate_email("test@example.com"));
    assert!(!ValidationMethods::validate_email("test@.com"));
    assert!(!ValidationMethods::validate_email("test@com"));
}

#[test]
fn test_not_empty() {
    assert!(ValidationMethods::not_empty("non-empty"));
    assert!(!ValidationMethods::not_empty(""));
}

#[test]
fn test_min_length() {
    assert!(ValidationMethods::min_length("hello", 3));
    assert!(!ValidationMethods::min_length("hi", 3));
}

#[test]
fn test_max_length() {
    assert!(ValidationMethods::max_length("hello", 10));
    assert!(!ValidationMethods::max_length("hello world", 10));
}

#[test]
fn test_is_alpha() {
    assert!(ValidationMethods::is_alpha("hello"));
    assert!(!ValidationMethods::is_alpha("hello123"));
}

#[test]
fn test_is_integer() {
    assert!(ValidationMethods::is_integer("123"));
    assert!(!ValidationMethods::is_integer("123abc"));
}

#[test]
fn test_is_float() {
    assert!(ValidationMethods::is_float("123.45"));
    assert!(!ValidationMethods::is_float("123.45abc"));
}

#[test]
fn test_is_date() {
    assert!(ValidationMethods::is_date("2023-10-01"));
    assert!(!ValidationMethods::is_date("2023-10-32"));
}

#[test]
fn test_is_time() {
    assert!(ValidationMethods::is_time("12:34:56"));
    assert!(!ValidationMethods::is_time("25:34:56"));
}

#[test]
fn test_is_url() {
    assert!(ValidationMethods::is_url("https://example.com"));
    assert!(!ValidationMethods::is_url("htp://example.com"));
}

#[test]
fn test_is_phone_number() {
    assert!(ValidationMethods::is_phone_number("+1234567890"));
    assert!(!ValidationMethods::is_phone_number("123-456-7890"));
}

#[test]
fn test_is_postal_code() {
    assert!(ValidationMethods::is_postal_code("12345"));
    assert!(ValidationMethods::is_postal_code("12345-6789"));
    assert!(!ValidationMethods::is_postal_code("1234"));
}

#[test]
fn test_is_credit_card() {
    assert!(ValidationMethods::is_credit_card("1234-5678-1234-5678"));
    assert!(ValidationMethods::is_credit_card("1234567812345678"));
    assert!(!ValidationMethods::is_credit_card("1234-5678-1234-567"));
}

#[test]
fn test_is_uuid() {
    assert!(ValidationMethods::is_uuid("123e4567-e89b-12d3-a456-426614174000"));
    assert!(!ValidationMethods::is_uuid("123e4567-e89b-12d3-a456-42661417400"));
}

#[test]
fn test_integer_bounds() {
    assert!(ValidationMethods::is_integer("2147483647"));
    assert!(ValidationMethods::is_integer("-2147483648"));
    assert!(ValidationMethods::is_integer("+42"));
    assert!(!ValidationMethods::is_integer("2147483648"));
    assert!(!ValidationMethods::is_integer("-2147483649"));
    assert!(!ValidationMethods::is_integer(""));
    assert!(!ValidationMethods::is_integer("+"));
    assert!(!ValidationMethods::is_integer("99999999999999999999999"));
}

#[test]
fn test_float_shapes() {
    assert!(ValidationMethods::is_float("1"));
    assert!(ValidationMethods::is_float("-1.5"));
    assert!(ValidationMethods::is_float(".5"));
    assert!(ValidationMethods::is_float("5."));
    assert!(ValidationMethods::is_float("1e5"));
    assert!(ValidationMethods::is_float("1.25E-3"));
    assert!(ValidationMethods::is_float("inf"));
    assert!(ValidationMethods::is_float("-Infinity"));
    assert!(ValidationMethods::is_float("NaN"));
    assert!(!ValidationMethods::is_float(""));
    assert!(!ValidationMethods::is_float("."));
    assert!(!ValidationMethods::is_float("1e"));
    assert!(!ValidationMethods::is_float("e5"));
    assert!(!ValidationMethods::is_float("1.2.3"));
    assert!(!ValidationMethods::is_float("in"));
}

#[test]
fn test_unicode_classes() {
    // Non-ASCII numerals and letters go by their Unicode class, as the
    // standard character tests do.
    assert!(!ValidationMethods::validate_name("Jean\u{0665}"));
    assert!(ValidationMethods::is_alpha("caf\u{00e9}"));
    assert!(!ValidationMethods::is_alpha("caf\u{00e9}!"));
}

#[test]
fn test_validator_short_circuit() {
    // The message is always the first failing rule's, whatever comes later.
    let v = Validator::new(vec![
        (Predicate::NotEmpty, Some("empty".to_string())),
        (Predicate::Name, Some("has digits".to_string())),
        (Predicate::MinLength(3), Some("too short".to_string())),
    ]);
    assert_eq!(v.validate("John"), Ok(()));
    assert_eq!(v.validate(""), Err("empty".to_string()));
    assert_eq!(v.validate("J1"), Err("has digits".to_string()));
    assert_eq!(v.validate("Jo"), Err("too short".to_string()));
}

#[test]
fn test_validator_default_message() {
    let v = Validator::new(vec![(Predicate::NotEmpty, None)]);
    assert_eq!(v.validate(""), Err("Invalid input, please try again.".to_string()));
}

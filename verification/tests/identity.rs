use jwt_auth_delegate::identity::{parse_i32, FromJwtSubject, UserId, UserId32};
use jwt_auth_delegate::inactivity::idle_limit_exceeded;

#[test]
fn parse_i32_plain_values() {
    assert_eq!(parse_i32("0"), Some(0));
    assert_eq!(parse_i32("42"), Some(42));
    assert_eq!(parse_i32("+7"), Some(7));
    assert_eq!(parse_i32("-15"), Some(-15));
    assert_eq!(parse_i32("00042"), Some(42));
}

#[test]
fn parse_i32_range_ends() {
    assert_eq!(parse_i32("2147483647"), Some(i32::MAX));
    assert_eq!(parse_i32("-2147483648"), Some(i32::MIN));
    assert_eq!(parse_i32("2147483648"), None);
    assert_eq!(parse_i32("-2147483649"), None);
    assert_eq!(parse_i32("9999999999999999999999"), None);
}

#[test]
fn parse_i32_rejects_non_numbers() {
    assert_eq!(parse_i32(""), None);
    assert_eq!(parse_i32("-"), None);
    assert_eq!(parse_i32("+"), None);
    assert_eq!(parse_i32("4x2"), None);
    assert_eq!(parse_i32(" 42"), None);
    assert_eq!(parse_i32("42 "), None);
    assert_eq!(parse_i32("--1"), None);
    assert_eq!(parse_i32("fourteen"), None);
}

#[test]
fn default_mapper_keeps_the_subject() {
    let r = UserId::from_jwt_sub(String::from("alice")).expect("always succeeds");
    assert_eq!(r.0, "alice");
}

#[test]
fn integer_mapper_requires_a_number() {
    let ok = UserId32::from_jwt_sub(String::from("42")).expect("numeric subject");
    assert_eq!(ok.0, 42);
    let err = UserId32::from_jwt_sub(String::from("alice"));
    assert_eq!(err.err(), Some(400));
}

#[test]
fn idle_limit_threshold_is_strict() {
    assert!(!idle_limit_exceeded(10, 10));
    assert!(idle_limit_exceeded(11, 10));
    assert!(!idle_limit_exceeded(0, 10));
    assert!(idle_limit_exceeded(0, -1));
}

use std::str::FromStr;
use form_builder::Optional;

#[test]
fn test_from_str() {
    assert_eq!(Optional::<i32>::from_str("").unwrap(), Optional::Absent);
    assert_eq!(Optional::<i32>::from_str("42").unwrap(), Optional::Present(42));
}

#[test]
fn test_from_str_rejects() {
    assert!(Optional::<i32>::from_str("abc").is_err());
    assert!(Optional::<i32>::from_str("2147483648").is_err());
}

#[test]
fn test_default() {
    let default_value: Optional<i32> = Default::default();
    assert_eq!(default_value, Optional::Absent);
}

#[test]
fn test_display() {
    let some_value = Optional::Present(42);
    let none_value: Optional<i32> = Optional::Absent;
    assert_eq!(some_value.display_string(), "42");
    assert_eq!(none_value.display_string(), "None");
}

#[test]
fn test_add() {
    let a = Optional::Present(2);
    let b = Optional::Present(3);
    let none: Optional<i32> = Optional::Absent;
    assert_eq!(a.clone().add(b.clone()), Optional::Present(5));
    assert_eq!(a.clone().add(none.clone()), Optional::Present(2));
    assert_eq!(none.clone().add(b.clone()), Optional::Present(3));
    assert_eq!(none.clone().add(none.clone()), Optional::Absent);
}

#[test]
fn test_sub() {
    let a = Optional::Present(5);
    let b = Optional::Present(3);
    let none: Optional<i32> = Optional::Absent;
    assert_eq!(a.clone().sub(b.clone()), Optional::Present(2));
    assert_eq!(a.clone().sub(none.clone()), Optional::Present(5));
    assert_eq!(none.clone().sub(b.clone()), Optional::Present(3));
    assert_eq!(none.clone().sub(none.clone()), Optional::Absent);
}

#[test]
fn test_mul() {
    let a = Optional::Present(2);
    let b = Optional::Present(3);
    let none: Optional<i32> = Optional::Absent;
    assert_eq!(a.clone().mul(b.clone()), Optional::Present(6));
    assert_eq!(a.clone().mul(none.clone()), Optional::Present(2));
    assert_eq!(none.clone().mul(b.clone()), Optional::Present(3));
    assert_eq!(none.clone().mul(none.clone()), Optional::Absent);
}

#[test]
fn test_div() {
    let a = Optional::Present(6);
    let b = Optional::Present(3);
    let none: Optional<i32> = Optional::Absent;
    assert_eq!(a.clone().div(b.clone()), Optional::Present(2));
    assert_eq!(a.clone().div(none.clone()), Optional::Present(6));
    assert_eq!(none.clone().div(b.clone()), Optional::Present(3));
    assert_eq!(none.clone().div(none.clone()), Optional::Absent);
}

#[test]
fn test_div_truncates_toward_zero() {
    assert_eq!(
        Optional::Present(-7).div(Optional::Present(2)),
        Optional::Present(-3)
    );
    assert_eq!(
        Optional::Present(7).div(Optional::Present(-2)),
        Optional::Present(-3)
    );
}

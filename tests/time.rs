use time_units::time::{convert, same_unit, Minute, Second, Time, TimeError};

#[test]
fn time_creation() {
    let second = Time::new(1, Second);
    assert_eq!(1, second.value);
    assert_eq!(Second, second.unit);
}

#[test]
fn time_plus() {
    let second = Time::new(1, Second);
    assert_eq!(2, (second + 1).value);
}

#[test]
fn time_eq() {
}

#[test]
fn construction_keeps_value_and_unit() {
    let t = Time::new(-42i64, Minute);
    assert_eq!(t.value, -42);
    assert_eq!(t.unit, Minute);
}

#[test]
fn scalar_add_keeps_unit() {
    let t = Time::new(7i64, Minute).add_scalar(5);
    assert_eq!(t.value, 12);
    assert_eq!(t.unit, Minute);
}

#[test]
fn scalar_sub_mul() {
    assert_eq!(Time::new(7i64, Second).sub_scalar(10).value, -3);
    assert_eq!(Time::new(7i64, Second).mul_scalar(-3).value, -21);
    assert_eq!((Time::new(7i64, Second) - 2).value, 5);
    assert_eq!((Time::new(7i64, Second) * 6).value, 42);
}

#[test]
fn scalar_div_rounds_toward_zero() {
    assert_eq!(Time::new(7i64, Second).div_scalar(2).unwrap().value, 3);
    assert_eq!(Time::new(-7i64, Second).div_scalar(2).unwrap().value, -3);
    assert_eq!(Time::new(7i64, Second).div_scalar(-2).unwrap().value, -3);
    assert_eq!((Time::new(-8i64, Minute) / -2).value, 4);
    assert_eq!(Time::new(9i64, Minute).div_scalar(3).unwrap().unit, Minute);
}

#[test]
fn scalar_div_by_zero_is_domain_error() {
    let r = Time::new(10i64, Second).div_scalar(0);
    assert!(matches!(r, Err(TimeError::ArithmeticDomainError)));
}

#[test]
fn scalar_div_overflow_is_domain_error() {
    let r = Time::new(i64::MIN, Second).div_scalar(-1);
    assert!(matches!(r, Err(TimeError::ArithmeticDomainError)));
}

#[test]
fn add_time_of_one_unit() {
    let t = Time::new(3i64, Minute).add_time(Time::new(4i64, Minute));
    assert_eq!(t.value, 7);
    assert_eq!(t.unit, Minute);
}

#[test]
fn convert_concrete_ratios() {
    assert_eq!(convert(120, &Second, &Minute), Ok(2));
    assert_eq!(convert(2, &Minute, &Second), Ok(120));
    assert_eq!(convert(5, &Second, &Second), Ok(5));
}

#[test]
fn convert_same_unit_is_identity() {
    for v in [0i64, 1, -1, 59, i64::MAX, i64::MIN] {
        assert_eq!(convert(v, &Second, &Second), Ok(v));
        assert_eq!(convert(v, &Minute, &Minute), Ok(v));
    }
}

#[test]
fn convert_rounds_toward_zero() {
    assert_eq!(convert(119, &Second, &Minute), Ok(1));
    assert_eq!(convert(-90, &Second, &Minute), Ok(-1));
}

#[test]
fn convert_round_trip_exact() {
    for v in [0i64, 3, -5, 1000] {
        let m = convert(v, &Minute, &Second).unwrap();
        assert_eq!(convert(m, &Second, &Minute), Ok(v));
    }
    let s = convert(-180, &Second, &Minute).unwrap();
    assert_eq!(convert(s, &Minute, &Second), Ok(-180));
}

#[test]
fn convert_overflow_is_domain_error() {
    assert_eq!(convert(i64::MAX, &Minute, &Second), Err(TimeError::ArithmeticDomainError));
    assert_eq!(convert(i64::MIN, &Second, &Minute), Ok(i64::MIN / 60));
}

#[test]
fn convert_to_builds_target_quantity() {
    let t = Time::new(180i64, Second).convert_to(Minute).unwrap();
    assert_eq!(t.value, 3);
    assert_eq!(t.unit, Minute);
}

#[test]
fn unit_identity() {
    assert!(same_unit(&Second, &Second));
    assert!(!same_unit(&Second, &Minute));
}

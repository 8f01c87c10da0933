use time_units::registry::UnitRegistry;
use time_units::time::{TimeError, MINUTE_KIND, SECOND_KIND};

const HOUR: u64 = 2;
const UNKNOWN: u64 = 99;

#[test]
fn registry_starts_with_the_second() {
    let r = UnitRegistry::new();
    assert_eq!(r.seconds_of(SECOND_KIND), Some(1));
    assert_eq!(r.seconds_of(MINUTE_KIND), None);
}

#[test]
fn registry_standard_ratios() {
    let r = UnitRegistry::standard();
    assert_eq!(r.convert(120, SECOND_KIND, MINUTE_KIND), Ok(2));
    assert_eq!(r.convert(2, MINUTE_KIND, SECOND_KIND), Ok(120));
    assert_eq!(r.convert(5, SECOND_KIND, SECOND_KIND), Ok(5));
}

#[test]
fn registry_unknown_unit_is_unsupported() {
    let r = UnitRegistry::standard();
    assert_eq!(r.convert(1, SECOND_KIND, UNKNOWN), Err(TimeError::UnsupportedConversion));
    assert_eq!(r.convert(1, UNKNOWN, MINUTE_KIND), Err(TimeError::UnsupportedConversion));
    assert_eq!(r.convert(4, UNKNOWN, UNKNOWN), Ok(4));
}

#[test]
fn registry_derives_ratio_through_known_unit() {
    let mut r = UnitRegistry::standard();
    assert_eq!(r.register(HOUR, MINUTE_KIND, 60), Ok(()));
    assert_eq!(r.seconds_of(HOUR), Some(3600));
    assert_eq!(r.convert(1, HOUR, SECOND_KIND), Ok(3600));
    assert_eq!(r.convert(90, MINUTE_KIND, HOUR), Ok(1));
    assert_eq!(r.register(HOUR, SECOND_KIND, 3600), Ok(()));
    assert_eq!(r.seconds_of(HOUR), Some(3600));
}

#[test]
fn registry_rejects_conflicting_ratio() {
    let mut r = UnitRegistry::standard();
    assert_eq!(r.register(HOUR, MINUTE_KIND, 60), Ok(()));
    assert_eq!(r.register(HOUR, SECOND_KIND, 3599), Err(TimeError::InvalidUnitRegistration));
    assert_eq!(r.register(MINUTE_KIND, SECOND_KIND, 61), Err(TimeError::InvalidUnitRegistration));
    assert_eq!(r.seconds_of(HOUR), Some(3600));
    assert_eq!(r.seconds_of(MINUTE_KIND), Some(60));
}

#[test]
fn registry_rejects_bad_declarations() {
    let mut r = UnitRegistry::new();
    assert_eq!(r.register(HOUR, MINUTE_KIND, 60), Err(TimeError::InvalidUnitRegistration));
    assert_eq!(r.register(HOUR, SECOND_KIND, 0), Err(TimeError::InvalidUnitRegistration));
    assert_eq!(r.register(HOUR, SECOND_KIND, 1 << 40), Ok(()));
    assert_eq!(r.register(UNKNOWN, HOUR, 1 << 30), Err(TimeError::InvalidUnitRegistration));
    assert_eq!(r.seconds_of(HOUR), Some(1 << 40));
    assert_eq!(r.seconds_of(UNKNOWN), None);
}

#[test]
fn registry_round_trip() {
    let r = UnitRegistry::standard();
    for v in [0i64, 7, -11] {
        let s = r.convert(v, MINUTE_KIND, SECOND_KIND).unwrap();
        assert_eq!(r.convert(s, SECOND_KIND, MINUTE_KIND), Ok(v));
    }
}

use semver_lite::ParseError;
use semver_lite::Version;
use std::str::FromStr;

#[test]
fn test_cmp() {
    let v = Version::from_str("1.0.0").unwrap();
    let v_g1 = Version::from_str("1.0.1").unwrap();
    let v_g2 = Version::from_str("1.1.0").unwrap();
    let v_g3 = Version::from_str("2.0.0").unwrap();
    let v_g4 = Version::from_str("2.1.1").unwrap();

    let v_l1 = Version::from_str("0.0.9").unwrap();
    let v_l2 = Version::from_str("0.9.0").unwrap();
    let v_l3 = Version::from_str("0.9.9").unwrap();

    assert!(v < v_g1);
    assert!(v < v_g2);
    assert!(v < v_g3);
    assert!(v < v_g4);

    assert!(v > v_l1);
    assert!(v > v_l2);
    assert!(v > v_l3);
}

#[test]
fn test_eq() {
    let v = Version::from_str("1.0.0").unwrap();
    let v2 = Version::from_str("1.0.0").unwrap();

    assert_eq!(v, v2);
}

#[test]
fn accessors() {
    let v = Version::parse("1.2.3").unwrap();
    assert_eq!(v.major(), 1);
    assert_eq!(v.minor(), 2);
    assert_eq!(v.patch(), 3);
}

#[test]
fn round_trip_format_parse() {
    let cases = ["0.0.0", "1.2.3", "4294967295.0.7", "10.20.30"];
    for s in cases {
        let v = Version::parse(s).unwrap();
        let text = v.to_version_string();
        assert_eq!(text, s);
        let w = Version::parse(&text).unwrap();
        assert_eq!(v, w);
    }
}

#[test]
fn round_trip_non_canonical_digits() {
    let v = Version::parse("01.002.0").unwrap();
    assert_eq!(v.major(), 1);
    assert_eq!(v.minor(), 2);
    assert_eq!(v.patch(), 0);
    assert_eq!(v.to_version_string(), "1.2.0");
    let w = Version::parse(&v.to_version_string()).unwrap();
    assert_eq!(v, w);
}

#[test]
fn structural_error_too_few_components() {
    match Version::parse("1.0") {
        Err(ParseError::Structure { expected, actual }) => {
            assert_eq!(expected, 3);
            assert_eq!(actual, 2);
        }
        _ => panic!("expected a structural error"),
    }
}

#[test]
fn structural_error_too_many_components() {
    match Version::parse("1.0.0.0") {
        Err(ParseError::Structure { expected, actual }) => {
            assert_eq!(expected, 3);
            assert_eq!(actual, 4);
        }
        _ => panic!("expected a structural error"),
    }
}

#[test]
fn structural_error_empty_input() {
    match Version::parse("") {
        Err(ParseError::Structure { expected, actual }) => {
            assert_eq!(expected, 3);
            assert_eq!(actual, 1);
        }
        _ => panic!("expected a structural error"),
    }
}

#[test]
fn structural_error_message() {
    let e = Version::parse("1.0").unwrap_err();
    assert_eq!(
        e.message(),
        "Invalid version format: expected 3 components, got 2."
    );
}

#[test]
fn numeric_error_cites_offending_part() {
    match Version::parse("1.x.0") {
        Err(ParseError::Numeric { part }) => assert_eq!(part, "x"),
        _ => panic!("expected a numeric error"),
    }
}

#[test]
fn numeric_error_message() {
    let e = Version::parse("1.x.0").unwrap_err();
    assert_eq!(
        e.message(),
        "Invalid version format: expected integer, got 'x'."
    );
}

#[test]
fn numeric_error_first_failure_wins() {
    match Version::parse("a.b.0") {
        Err(ParseError::Numeric { part }) => assert_eq!(part, "a"),
        _ => panic!("expected a numeric error"),
    }
}

#[test]
fn numeric_error_empty_component() {
    match Version::parse("1..0") {
        Err(ParseError::Numeric { part }) => assert_eq!(part, ""),
        _ => panic!("expected a numeric error"),
    }
}

#[test]
fn numeric_error_leading_plus() {
    match Version::parse("+1.0.0") {
        Err(ParseError::Numeric { part }) => assert_eq!(part, "+1"),
        _ => panic!("expected a numeric error"),
    }
}

#[test]
fn numeric_error_overflow() {
    match Version::parse("4294967296.0.0") {
        Err(ParseError::Numeric { part }) => assert_eq!(part, "4294967296"),
        _ => panic!("expected a numeric error"),
    }
    let v = Version::parse("4294967295.0.0").unwrap();
    assert_eq!(v.major(), u32::MAX);
}

#[test]
fn ordering_scenarios() {
    let base = Version::parse("1.0.0").unwrap();
    assert!(base < Version::parse("1.0.1").unwrap());
    assert!(base < Version::parse("1.1.0").unwrap());
    assert!(base < Version::parse("2.0.0").unwrap());
    assert!(base > Version::parse("0.9.9").unwrap());
    assert_eq!(
        base.compare(&Version::parse("1.0.1").unwrap()),
        std::cmp::Ordering::Less
    );
    assert_eq!(
        base.compare(&Version::parse("0.9.9").unwrap()),
        std::cmp::Ordering::Greater
    );
    assert_eq!(
        base.compare(&Version::parse("1.0.0").unwrap()),
        std::cmp::Ordering::Equal
    );
}

#[test]
fn compatibility_scenarios() {
    let a = Version::parse("1.2.0").unwrap();
    let b = Version::parse("1.2.9").unwrap();
    let c = Version::parse("1.3.0").unwrap();
    assert!(a.is_compatible_with(&b));
    assert!(b.is_compatible_with(&a));
    assert!(!a.is_compatible_with(&c));
    assert!(!c.is_compatible_with(&a));
}

#[test]
fn serialization_scalar() {
    let v = Version::parse("1.0.0").unwrap();
    assert_eq!(v.to_version_string(), "1.0.0");
    let w = Version::parse("1.0.0").unwrap();
    assert_eq!(v, w);
}

use cv::version::{compare, is_version_at_least, parse_decimal, parse_version, VersionId};
use std::cmp::Ordering;

#[test]
fn test_is_version_at_least() {
    // Versions >= 0.10.0
    assert!(is_version_at_least("0.10.0", 0, 10, 0));
    assert!(is_version_at_least("0.10.1", 0, 10, 0));
    assert!(is_version_at_least("0.11.0", 0, 10, 0));
    assert!(is_version_at_least("1.0.0", 0, 10, 0));
    assert!(is_version_at_least("0.10.0-alpha", 0, 10, 0));
    // Versions < 0.10.0
    assert!(!is_version_at_least("0.9.9", 0, 10, 0));
    assert!(!is_version_at_least("0.1.0", 0, 10, 0));
    assert!(!is_version_at_least("0.9.9-beta", 0, 10, 0));
    // Patch/minor edge cases
    assert!(is_version_at_least("0.10.0", 0, 9, 9));
    assert!(!is_version_at_least("0.10", 0, 10, 1));
}

#[test]
fn parse_reads_three_components() {
    assert_eq!(parse_version("1.22.333"), Some(VersionId::new(1, 22, 333)));
    assert_eq!(parse_version("0.10"), Some(VersionId::new(0, 10, 0)));
    assert_eq!(parse_version("0.15.1-dev.42+abc"), Some(VersionId::new(0, 15, 1)));
}

#[test]
fn parse_rejects_fewer_than_two_pieces() {
    assert_eq!(parse_version("master"), None);
    assert_eq!(parse_version("12"), None);
    assert_eq!(parse_version(""), None);
    assert!(!is_version_at_least("master", 0, 0, 0));
}

#[test]
fn parse_treats_unreadable_components_as_zero() {
    assert_eq!(parse_version("x.y.z"), Some(VersionId::new(0, 0, 0)));
    assert_eq!(parse_version(".5"), Some(VersionId::new(0, 5, 0)));
    assert_eq!(parse_version("1.2.beta3"), Some(VersionId::new(1, 2, 0)));
    assert_eq!(parse_version("99999999999999999999.1.0"), Some(VersionId::new(0, 1, 0)));
}

#[test]
fn decimal_follows_u64_parsing() {
    let read = |s: &str| parse_decimal(&s.chars().collect::<Vec<char>>());
    assert_eq!(read("18446744073709551615"), Some(u64::MAX));
    assert_eq!(read("18446744073709551616"), None);
    assert_eq!(read("+7"), Some(7));
    assert_eq!(read("+"), None);
    assert_eq!(read("-1"), None);
    assert_eq!(read(""), None);
    assert_eq!(read("12a"), None);
}

#[test]
fn compare_is_tuple_order() {
    let a = VersionId::new(0, 9, 9);
    let b = VersionId::new(0, 10, 0);
    let c = VersionId::new(0, 10, 1);
    assert_eq!(compare(a, b), Ordering::Less);
    assert_eq!(compare(b, a), Ordering::Greater);
    assert_eq!(compare(b, c), Ordering::Less);
    assert_eq!(compare(a, c), Ordering::Less);
    assert_eq!(compare(c, c), Ordering::Equal);
    assert_eq!(compare(VersionId::new(1, 0, 0), VersionId::new(0, 99, 99)), Ordering::Greater);
}

#[test]
fn compare_of_parsed_strings_is_antisymmetric() {
    let vs = ["0.10.0", "0.10", "0.9.9-beta", "1.0.0", "0.10.0-alpha", "2.1"];
    for x in vs.iter() {
        for y in vs.iter() {
            let (a, b) = (parse_version(x).unwrap(), parse_version(y).unwrap());
            assert_eq!(compare(a, b), compare(b, a).reverse());
            assert_eq!(compare(a, b) == Ordering::Equal, a == b);
        }
    }
}

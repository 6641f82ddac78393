use chrome_for_testing::api::version::{MalformedVersion, Version};
use std::cmp::Ordering;

fn version(major: u32, minor: u32, patch: u32, build: u32) -> Version {
    Version { major, minor, patch, build }
}

#[test]
fn versions_are_ordered_field_by_field() {
    let a = version(1, 0, 0, 0);
    let b = version(1, 0, 0, 1);
    let c = version(1, 1, 0, 0);
    assert!(a < b);
    assert!(b < c);
    assert!(a < c);
    assert!(c > a);
    assert!(a <= a);
    assert_eq!(a.compare(&b), Ordering::Less);
    assert_eq!(c.compare(&b), Ordering::Greater);
    assert_eq!(b.compare(&b), Ordering::Equal);
    assert_eq!(a.cmp(&c), Ordering::Less);
    assert_eq!(a.partial_cmp(&c), Some(Ordering::Less));
}

#[test]
fn earlier_fields_dominate_later_ones() {
    assert!(version(1, 9, 9, 9) < version(2, 0, 0, 0));
    assert!(version(1, 2, 9, 9) < version(1, 3, 0, 0));
    assert!(version(1, 2, 3, 9) < version(1, 2, 4, 0));
    assert!(version(132, 0, 6834, 83) < version(133, 0, 6943, 16));
    assert_eq!(version(1, 2, 3, 4), version(1, 2, 3, 4));
    assert_ne!(version(1, 2, 3, 4), version(1, 2, 3, 5));
}

#[test]
fn sorting_uses_the_same_order() {
    let mut versions =
        vec![version(134, 0, 6962, 0), version(113, 0, 5672, 0), version(134, 0, 6958, 2)];
    versions.sort();
    assert_eq!(
        versions,
        vec![version(113, 0, 5672, 0), version(134, 0, 6958, 2), version(134, 0, 6962, 0)]
    );
    assert_eq!(versions.iter().max(), Some(&version(134, 0, 6962, 0)));
}

#[test]
fn parse_reads_four_fields() {
    assert_eq!(Version::parse("132.0.6834.83"), Ok(version(132, 0, 6834, 83)));
    assert_eq!(Version::parse("0.0.0.0"), Ok(version(0, 0, 0, 0)));
    assert_eq!(
        Version::parse("4294967295.4294967295.4294967295.4294967295"),
        Ok(version(u32::MAX, u32::MAX, u32::MAX, u32::MAX))
    );
}

#[test]
fn parse_refuses_malformed_text() {
    for text in [
        "",
        "1.2.3",
        "1.2.3.a",
        "1.2.3.4.5",
        "1.2.3.",
        ".1.2.3",
        "1..2.3",
        "1.2.3.4 ",
        " 1.2.3.4",
        "v1.2.3.4",
        "1.2.3.-4",
        "1.2.3.+4",
        "1,2,3,4",
        "1.2.3.4294967296",
        "99999999999999999999.0.0.0",
        "1.2.3.\u{663}",
        "1.2.3.4\u{e9}",
    ] {
        assert_eq!(Version::parse(text), Err(MalformedVersion), "{:?}", text);
    }
}

#[test]
fn format_is_the_inverse_of_parse() {
    for text in ["132.0.6834.83", "0.0.0.0", "113.0.5672.0", "1.22.333.4294967295"] {
        assert_eq!(Version::parse(text).unwrap().to_string(), text);
    }
    for v in [version(134, 0, 6962, 0), version(0, 10, 100, 1000), version(u32::MAX, 0, 9, 10)] {
        assert_eq!(Version::parse(&v.to_string()), Ok(v));
    }
    assert_eq!(version(134, 0, 6962, 0).to_string(), "134.0.6962.0");
}

#[test]
fn leading_zeros_are_read_and_not_written() {
    let v = Version::parse("01.002.0003.00000000000000000004").unwrap();
    assert_eq!(v, version(1, 2, 3, 4));
    assert_eq!(v.to_string(), "1.2.3.4");
}

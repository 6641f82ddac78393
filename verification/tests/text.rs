use chrome_for_testing::decimal::push_numeral;
use chrome_for_testing::text::{same_text, split_ranges};

#[test]
fn same_text_compares_character_by_character() {
    assert!(same_text("", ""));
    assert!(same_text("linux64", "linux64"));
    assert!(!same_text("linux64", "linux6"));
    assert!(!same_text("linux64", "Linux64"));
    assert!(!same_text("a", ""));
    assert!(same_text("gr\u{fc}n", "gr\u{fc}n"));
    assert!(!same_text("gr\u{fc}n", "grun"));
}

#[test]
fn split_ranges_cuts_at_every_separator() {
    assert_eq!(split_ranges(b"", b'.'), vec![(0, 0)]);
    assert_eq!(split_ranges(b"abc", b'.'), vec![(0, 3)]);
    assert_eq!(split_ranges(b"1.22.333", b'.'), vec![(0, 1), (2, 4), (5, 8)]);
    assert_eq!(split_ranges(b".a..", b'.'), vec![(0, 0), (1, 2), (3, 3), (4, 4)]);
    assert_eq!(split_ranges(b"a,b", b'.'), vec![(0, 3)]);
}

#[test]
fn push_numeral_appends_the_decimal_digits() {
    let mut out = String::from("v");
    push_numeral(&mut out, 0);
    assert_eq!(out, "v0");
    push_numeral(&mut out, 7);
    push_numeral(&mut out, 10);
    push_numeral(&mut out, 6834);
    assert_eq!(out, "v07106834");
    let mut max = String::new();
    push_numeral(&mut max, u32::MAX);
    assert_eq!(max, "4294967295");
}

use bored_node::text::{decimal_string, parse_u128, preview_text};

#[test]
fn decimal_text_of_numbers() {
    assert_eq!(decimal_string(0), "0");
    assert_eq!(decimal_string(7), "7");
    assert_eq!(decimal_string(1234567890), "1234567890");
    assert_eq!(decimal_string(u128::MAX), u128::MAX.to_string());
}

#[test]
fn decimal_text_reads_back() {
    for n in [0u128, 9, 10, 99, 100, 1_700_000_000_123_456_789, u128::MAX] {
        assert_eq!(parse_u128(&decimal_string(n)), Some(n));
    }
}

#[test]
fn parse_matches_std() {
    let cases = [
        "", "+", "-", "-0", "0", "+0", "007", "+42", " 1", "1 ", "12a", "٣",
        "340282366920938463463374607431768211455",
        "340282366920938463463374607431768211456",
        "999999999999999999999999999999999999999999",
    ];
    for case in cases {
        assert_eq!(parse_u128(case), case.parse::<u128>().ok(), "case {case:?}");
    }
}

#[test]
fn preview_keeps_short_text() {
    assert_eq!(preview_text("hello", 5), "hello");
    assert_eq!(preview_text("", 0), "");
}

#[test]
fn preview_cuts_long_text() {
    assert_eq!(preview_text("hello world", 5), "hello...");
    assert_eq!(preview_text("ééééé", 2), "éé...");
    assert_eq!(preview_text("abc", 0), "...");
}

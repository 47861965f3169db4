use aderyn_core::text::{
    find_byte, int_to_string, line_of, nat_to_string, parse_decimal, parse_span,
    parse_span_offset, snippet, str_eq,
};

#[test]
fn str_eq_compares_contents() {
    assert!(str_eq("", ""));
    assert!(str_eq("delete", "delete"));
    assert!(!str_eq("delete", "delet"));
    assert!(!str_eq("+", "-"));
    assert!(str_eq("héllo", "héllo"));
    assert!(!str_eq("héllo", "hèllo"));
}

#[test]
fn parse_decimal_reads_digits_only() {
    assert_eq!(parse_decimal(b"1234", 0, 4), Some(1234));
    assert_eq!(parse_decimal(b"1234", 1, 3), Some(23));
    assert_eq!(parse_decimal(b"0007", 0, 4), Some(7));
    assert_eq!(parse_decimal(b"1234", 2, 2), None);
    assert_eq!(parse_decimal(b"12a4", 0, 4), None);
    assert_eq!(parse_decimal(b"+12", 0, 3), None);
    assert_eq!(parse_decimal(b"-12", 0, 3), None);
}

#[test]
fn parse_decimal_detects_overflow() {
    let max = usize::MAX.to_string();
    assert_eq!(parse_decimal(max.as_bytes(), 0, max.len()), Some(usize::MAX));
    let too_big = format!("{}0", max);
    assert_eq!(parse_decimal(too_big.as_bytes(), 0, too_big.len()), None);
    let one_more = format!("{}", (usize::MAX as u128) + 1);
    assert_eq!(parse_decimal(one_more.as_bytes(), 0, one_more.len()), None);
}

#[test]
fn find_byte_finds_first_occurrence() {
    assert_eq!(find_byte(b"12:34:5", 0, b':'), 2);
    assert_eq!(find_byte(b"12:34:5", 3, b':'), 5);
    assert_eq!(find_byte(b"12:34:5", 6, b':'), 7);
    assert_eq!(find_byte(b"", 0, b':'), 0);
}

#[test]
fn parse_span_needs_offset_and_length() {
    assert_eq!(parse_span("12:34:5"), Some((12, 34)));
    assert_eq!(parse_span("0:0:0"), Some((0, 0)));
    assert_eq!(parse_span("12:34:"), Some((12, 34)));
    assert_eq!(parse_span("12:34"), None);
    assert_eq!(parse_span("12"), None);
    assert_eq!(parse_span(":34:5"), None);
    assert_eq!(parse_span("12::5"), None);
    assert_eq!(parse_span("a:34:5"), None);
    assert_eq!(parse_span(""), None);
}

#[test]
fn parse_span_offset_reads_first_field() {
    assert_eq!(parse_span_offset("12:34:5"), Some(12));
    assert_eq!(parse_span_offset("12"), Some(12));
    assert_eq!(parse_span_offset(":34:5"), None);
    assert_eq!(parse_span_offset("x:34:5"), None);
}

#[test]
fn line_of_counts_line_feeds_before_offset() {
    let text = "a\nbc\n\nd";
    assert_eq!(line_of(text, 0), Some(1));
    assert_eq!(line_of(text, 1), Some(1));
    assert_eq!(line_of(text, 2), Some(2));
    assert_eq!(line_of(text, 5), Some(3));
    assert_eq!(line_of(text, 6), Some(4));
    assert_eq!(line_of(text, 7), Some(4));
    assert_eq!(line_of(text, 8), None);
    assert_eq!(line_of("", 0), Some(1));
}

#[test]
fn snippet_cuts_on_character_boundaries() {
    let text = "uint a = 1; // é";
    assert_eq!(snippet(text, 0, 4), Some("uint"));
    assert_eq!(snippet(text, 5, 5), Some("a = 1"));
    assert_eq!(snippet(text, 0, 0), Some(""));
    assert_eq!(snippet(text, text.len(), 0), Some(""));
    assert_eq!(snippet(text, 15, 2), Some("é"));
    assert_eq!(snippet(text, 15, 1), None);
    assert_eq!(snippet(text, 16, 1), None);
    assert_eq!(snippet(text, 0, text.len() + 1), None);
    assert_eq!(snippet(text, text.len() + 1, 0), None);
    assert_eq!(snippet(text, usize::MAX, usize::MAX), None);
}

#[test]
fn numbers_are_written_in_decimal() {
    assert_eq!(nat_to_string(0), "0");
    assert_eq!(nat_to_string(7), "7");
    assert_eq!(nat_to_string(10), "10");
    assert_eq!(nat_to_string(1234567890), "1234567890");
    assert_eq!(nat_to_string(u64::MAX), u64::MAX.to_string());
    assert_eq!(int_to_string(0), "0");
    assert_eq!(int_to_string(42), "42");
    assert_eq!(int_to_string(-1), "-1");
    assert_eq!(int_to_string(-905), "-905");
    assert_eq!(int_to_string(i64::MAX), i64::MAX.to_string());
    assert_eq!(int_to_string(i64::MIN), i64::MIN.to_string());
}

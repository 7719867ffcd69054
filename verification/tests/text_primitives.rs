use upnotif::text::{parse_decimal_u64, split_trimmed, trim_str};

#[test]
fn trim_removes_whitespace_at_both_ends() {
    assert_eq!(trim_str("  a b  "), "a b");
    assert_eq!(trim_str("\t\nx\r "), "x");
    assert_eq!(trim_str("no-trim"), "no-trim");
    assert_eq!(trim_str("   "), "");
    assert_eq!(trim_str(""), "");
}

#[test]
fn split_drops_empty_segments() {
    assert_eq!(
        split_trimmed("a, b ,,c,  ,"),
        vec!["a", "b", "c"]
    );
    assert_eq!(split_trimmed("single"), vec!["single"]);
    assert_eq!(split_trimmed(",,,"), Vec::<String>::new());
}

#[test]
fn decimal_parse_accepts_digits_only() {
    assert_eq!(parse_decimal_u64("0"), Some(0));
    assert_eq!(parse_decimal_u64("60"), Some(60));
    assert_eq!(parse_decimal_u64("18446744073709551615"), Some(u64::MAX));
    assert_eq!(parse_decimal_u64("18446744073709551616"), None);
    assert_eq!(parse_decimal_u64(""), None);
    assert_eq!(parse_decimal_u64("12a"), None);
    assert_eq!(parse_decimal_u64("+5"), None);
    assert_eq!(parse_decimal_u64("-5"), None);
}

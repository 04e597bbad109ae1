use midgard_history::text::{append_decimal, parse_i64, str_eq, trim};

fn decimal(v: i64) -> String {
    let mut out = String::new();
    append_decimal(&mut out, v);
    out
}

#[test]
fn str_eq_compares_whole_texts() {
    assert!(str_eq("hour", "hour"));
    assert!(str_eq("", ""));
    assert!(!str_eq("hour", "hours"));
    assert!(!str_eq("hour", "houR"));
    assert!(!str_eq("día", "dia"));
    assert!(str_eq("día", "día"));
}

#[test]
fn trim_removes_white_space_at_both_ends_only() {
    assert_eq!(trim("  12 34\t\n"), "12 34");
    assert_eq!(trim("1700000000"), "1700000000");
    assert_eq!(trim(" \t\r\n"), "");
    assert_eq!(trim(""), "");
    assert_eq!(trim("\u{a0}\u{2003}7\u{3000}"), "7");
    assert_eq!(trim("\u{200b}7"), "\u{200b}7");
}

#[test]
fn trim_agrees_with_the_standard_library() {
    let samples = [
        " a ", "\u{85}x\u{85}", "\u{1680}y", "z\u{2028}\u{2029}", "\u{202f}\u{205f}w", "\u{b}\u{c}q",
        "é ", " \u{feff}", "\u{1c}k",
    ];
    for s in samples {
        assert_eq!(trim(s), s.trim());
    }
}

#[test]
fn parse_i64_reads_signed_decimal_integers() {
    assert_eq!(parse_i64("0"), Some(0));
    assert_eq!(parse_i64("1739487600"), Some(1739487600));
    assert_eq!(parse_i64("+42"), Some(42));
    assert_eq!(parse_i64("-42"), Some(-42));
    assert_eq!(parse_i64("007"), Some(7));
    assert_eq!(parse_i64("-0"), Some(0));
    assert_eq!(parse_i64("9223372036854775807"), Some(i64::MAX));
    assert_eq!(parse_i64("-9223372036854775808"), Some(i64::MIN));
}

#[test]
fn parse_i64_refuses_everything_else() {
    assert_eq!(parse_i64(""), None);
    assert_eq!(parse_i64("+"), None);
    assert_eq!(parse_i64("-"), None);
    assert_eq!(parse_i64("--1"), None);
    assert_eq!(parse_i64("1.0"), None);
    assert_eq!(parse_i64(" 1"), None);
    assert_eq!(parse_i64("1 "), None);
    assert_eq!(parse_i64("12a"), None);
    assert_eq!(parse_i64("1e3"), None);
    assert_eq!(parse_i64("١٢"), None);
    assert_eq!(parse_i64("9223372036854775808"), None);
    assert_eq!(parse_i64("-9223372036854775809"), None);
    assert_eq!(parse_i64("99999999999999999999999"), None);
    assert_eq!(parse_i64("-99999999999999999999999"), None);
}

#[test]
fn parse_i64_agrees_with_the_standard_library() {
    let samples = [
        "18446744073709551616", "-9223372036854775807", "9223372036854775806", "92233720368547758070",
        "+0", "+-1", "0x10", "1_000", "922337203685477580", "-922337203685477581",
    ];
    for s in samples {
        assert_eq!(parse_i64(s), s.parse::<i64>().ok());
    }
}

#[test]
fn append_decimal_writes_what_parse_reads() {
    assert_eq!(decimal(0), "0");
    assert_eq!(decimal(7), "7");
    assert_eq!(decimal(10), "10");
    assert_eq!(decimal(-1), "-1");
    assert_eq!(decimal(1739487600), "1739487600");
    assert_eq!(decimal(i64::MAX), "9223372036854775807");
    assert_eq!(decimal(i64::MIN), "-9223372036854775808");
    for v in [0i64, 9, 10, 99, 100, -100, 123456789, i64::MIN, i64::MAX] {
        assert_eq!(parse_i64(&decimal(v)), Some(v));
    }
    let mut out = String::from("from=");
    append_decimal(&mut out, 1648771200);
    assert_eq!(out, "from=1648771200");
}

use release_manager::tags::{join_strings, parse_tags};
use release_manager::text::{
    compare_str, decimal_string, is_blank, parse_u64, split_char, strip_trailing_char, trim_str,
};

#[test]
fn trim_removes_unicode_white_space() {
    assert_eq!(trim_str("  a b \t\n"), "a b");
    assert_eq!(trim_str("\u{3000}x\u{a0}"), "x");
    assert_eq!(trim_str("   "), "");
    assert_eq!(trim_str(""), "");
    assert!(is_blank(" \u{2003} "));
    assert!(!is_blank(" a "));
}

#[test]
fn split_keeps_empty_pieces() {
    assert_eq!(split_char("a,b,,c", ','), vec!["a", "b", "", "c"]);
    assert_eq!(split_char("", ','), vec![""]);
    assert_eq!(split_char(",", ','), vec!["", ""]);
    assert_eq!(split_char("abc", ','), vec!["abc"]);
}

#[test]
fn strip_trailing() {
    assert_eq!(strip_trailing_char("a/b//", '/'), "a/b");
    assert_eq!(strip_trailing_char("///", '/'), "");
}

#[test]
fn string_order() {
    assert_eq!(compare_str("a", "b"), -1);
    assert_eq!(compare_str("b", "a"), 1);
    assert_eq!(compare_str("ab", "a"), 1);
    assert_eq!(compare_str("", ""), 0);
    assert_eq!(compare_str("Z", "a"), -1);
    assert_eq!(compare_str("é", "z"), 1);
}

#[test]
fn parse_u64_like_std() {
    for s in ["0", "24", "+5", "007", "18446744073709551615", "", "+", "-1", "1 ", " 1", "abc", "18446744073709551616", "99999999999999999999"] {
        assert_eq!(parse_u64(s), s.parse::<u64>().ok(), "{:?}", s);
    }
}

#[test]
fn decimal_form() {
    assert_eq!(decimal_string(0), "0");
    assert_eq!(decimal_string(7), "7");
    assert_eq!(decimal_string(24), "24");
    assert_eq!(decimal_string(1050), "1050");
    assert_eq!(decimal_string(u64::MAX), u64::MAX.to_string());
}

#[test]
fn decimal_reads_back() {
    for n in [0u64, 9, 10, 24, 12345, u64::MAX] {
        assert_eq!(parse_u64(&decimal_string(n)), Some(n));
    }
}

#[test]
fn tags_are_trimmed_and_empty_ones_dropped() {
    assert_eq!(parse_tags(" tool , cli,,  ,dev "), vec!["tool", "cli", "dev"]);
    assert_eq!(parse_tags(""), Vec::<String>::new());
    assert_eq!(parse_tags(",,"), Vec::<String>::new());
    assert_eq!(parse_tags("a b, c"), vec!["a b", "c"]);
}

#[test]
fn tags_join() {
    let tags = vec!["a".to_string(), "b c".to_string(), "d".to_string()];
    assert_eq!(join_strings(&tags, ", "), "a, b c, d");
    assert_eq!(join_strings(&Vec::new(), ", "), "");
    assert_eq!(join_strings(&vec!["x".to_string()], ", "), "x");
}

#[test]
fn tags_round_trip_through_text() {
    let tags = vec!["编辑器".to_string(), "dev tools".to_string(), "x".to_string()];
    assert_eq!(parse_tags(&join_strings(&tags, ", ")), tags);
    let parsed = parse_tags("  a ,b,, c d ,");
    assert_eq!(parse_tags(&join_strings(&parsed, ", ")), parsed);
}

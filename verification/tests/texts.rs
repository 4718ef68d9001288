//! Text and numbers.

use experimental_crdt::numbers::{decimal, decimal_signed, parse_i64, parse_u64};
use experimental_crdt::text::{
    has_text, holds_text, join_texts, same_texts, sort_texts, sorted_unique, split_everywhere,
    split_text, strip_prefix, strip_prefixes, strip_suffix, text_precedes, trim, trim_slashes,
};

fn list(v: &[&str]) -> Vec<String> {
    v.iter().map(|s| s.to_string()).collect()
}

#[test]
fn prefixes_and_suffixes() {
    assert_eq!(strip_prefix("nodes/a", "nodes/"), Some("a".to_string()));
    assert_eq!(strip_prefix("node", "nodes/"), None);
    assert_eq!(strip_suffix("a.json", ".json"), Some("a".to_string()));
    assert_eq!(strip_suffix("a.jso", ".json"), None);
    assert_eq!(strip_prefixes(&list(&["xa", "b", "x"]), "x"), list(&["a", ""]));
}

#[test]
fn splitting() {
    assert_eq!(split_text("a__b__c__d__e", "__", 4), list(&["a", "b", "c", "d__e"]));
    assert_eq!(split_text("a", "__", 4), list(&["a"]));
    assert_eq!(split_text("", " ", 2), list(&[""]));
    assert_eq!(split_everywhere("a,,b,", ","), list(&["a", "", "b", ""]));
    assert_eq!(split_text("___", "__", 4), list(&["", "_"]));
}

#[test]
fn trimming() {
    assert_eq!(trim(" \t a b \u{2003}\n"), "a b");
    assert_eq!(trim("   "), "");
    assert_eq!(trim_slashes("gc///"), "gc");
    assert_eq!(trim_slashes("/gc"), "/gc");
}

#[test]
fn trimming_agrees_on_every_space() {
    for code in 0u32..0x3100 {
        if let Some(c) = char::from_u32(code) {
            let s = format!("{c}x{c}");
            assert_eq!(trim(&s), s.trim());
        }
    }
}

#[test]
fn order_is_that_of_code_points() {
    assert!(text_precedes("a", "b"));
    assert!(text_precedes("a", "ab"));
    assert!(text_precedes("a", "a"));
    assert!(!text_precedes("b", "a"));
    assert!(text_precedes("z", "\u{e9}"));
    assert!(text_precedes("\u{ffff}", "\u{10000}"));
    assert_eq!(sort_texts(&list(&["b", "a", "b"])), list(&["a", "b", "b"]));
    assert_eq!(sorted_unique(&list(&["b", "a", "b"])), list(&["a", "b"]));
}

#[test]
fn lists_of_texts() {
    assert!(has_text(&list(&["a", "b"]), "b"));
    assert!(!has_text(&list(&["a", "b"]), "c"));
    assert!(same_texts(&list(&["a", "b"]), &list(&["a", "b"])));
    assert!(!same_texts(&list(&["a", "b"]), &list(&["b", "a"])));
    assert!(!same_texts(&list(&["a"]), &list(&["a", "b"])));
    assert_eq!(join_texts(&list(&["a", "b", "c"]), ", "), "a, b, c");
    assert_eq!(join_texts(&list(&[]), ", "), "");
    assert!(holds_text("xyz", "yz"));
    assert!(!holds_text("xyz", "zy"));
    assert!(holds_text("", ""));
}

#[test]
fn numbers_as_text() {
    assert_eq!(decimal(0), "0");
    assert_eq!(decimal(u64::MAX), "18446744073709551615");
    assert_eq!(decimal_signed(i64::MIN), "-9223372036854775808");
    assert_eq!(decimal_signed(-7), "-7");
}

#[test]
fn text_as_numbers() {
    for s in ["0", "+7", "007", "", "+", "-", "-1", "18446744073709551615", "18446744073709551616",
        "1 ", "1a", "\u{0661}", "9223372036854775808", "-9223372036854775808",
        "-9223372036854775809", "--1", "+-1"]
    {
        assert_eq!(parse_u64(s), s.parse::<u64>().ok());
        assert_eq!(parse_i64(s), s.parse::<i64>().ok());
    }
}

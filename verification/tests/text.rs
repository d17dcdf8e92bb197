use ssroute::order::sort_texts;
use ssroute::text::{
    begins_with, chars_of, contains_char, contains_text, decimal_text, ends_with, joined,
    parse_number, push_signed, same_text, split_once, split_text, trim,
};

#[test]
fn searching() {
    assert!(contains_text("tun0", "tun"));
    assert!(contains_text("my-tun", "tun"));
    assert!(contains_text("x", ""));
    assert!(!contains_text("tu", "tun"));
    assert!(begins_with("--config=x", "--config="));
    assert!(!begins_with("-", "--config="));
    assert!(ends_with("a.json", ".json"));
    assert!(!ends_with("json", ".json"));
    assert!(same_text("é", "é"));
    assert!(!same_text("a", "ab"));
    assert!(contains_char("a:b", ':'));
    assert!(!contains_char("", ':'));
    assert_eq!(chars_of("aé"), vec!['a', 'é']);
}

#[test]
fn splitting() {
    assert_eq!(split_once("k=v=w", '='), Some(("k", "v=w")));
    assert_eq!(split_once("=", '='), Some(("", "")));
    assert_eq!(split_once("kv", '='), None);
    assert_eq!(split_text("a:b::c", ':'), vec!["a", "b", "", "c"]);
    assert_eq!(split_text("", ':'), vec![""]);
    assert_eq!(split_text(":", ':'), vec!["", ""]);
}

#[test]
fn trimming() {
    assert_eq!(trim("\t a b \r\n"), "a b");
    assert_eq!(trim("\u{a0}\u{3000}x\u{2028}"), "x");
    assert_eq!(trim(" \n"), "");
}

#[test]
fn numbers() {
    assert_eq!(parse_number("0", 255), Some(0));
    assert_eq!(parse_number("+007", 255), Some(7));
    assert_eq!(parse_number("255", 255), Some(255));
    assert_eq!(parse_number("256", 255), None);
    assert_eq!(parse_number("", 255), None);
    assert_eq!(parse_number("+", 255), None);
    assert_eq!(parse_number("-1", 255), None);
    assert_eq!(parse_number("1 ", 255), None);
    assert_eq!(parse_number("18446744073709551615", u64::MAX), Some(u64::MAX));
    assert_eq!(parse_number("18446744073709551616", u64::MAX), None);
    assert_eq!(decimal_text(0), "0");
    assert_eq!(decimal_text(u64::MAX), "18446744073709551615");
    for n in [0, 9, 10, 99, 8388] {
        assert_eq!(parse_number(&decimal_text(n), 65535), Some(n));
    }
    let mut out = joined("n", "=");
    push_signed(&mut out, i64::MIN);
    assert_eq!(out, "n=-9223372036854775808");
}

#[test]
fn sorting() {
    let names = vec!["b.json", "a.json", "B.json", "aa.json", "a.json", "", "é"];
    let sorted = sort_texts(names.iter().map(|s| s.to_string()).collect());
    assert_eq!(sorted, vec!["", "B.json", "a.json", "a.json", "aa.json", "b.json", "é"]);
}

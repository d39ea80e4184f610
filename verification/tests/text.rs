use uptime_monitor::text::{
    chars_of, comes_before, decimal_text, find_char, push_decimal, push_padded, same_text,
    strip_prefix,
};

#[test]
fn numerals() {
    assert_eq!(decimal_text(0), "0");
    assert_eq!(decimal_text(9), "9");
    assert_eq!(decimal_text(10), "10");
    assert_eq!(decimal_text(u64::MAX), "18446744073709551615");
    let mut s = String::from("a");
    push_decimal(&mut s, 1234567890);
    assert_eq!(s, "a1234567890");
}

#[test]
fn padded_numerals() {
    let mut s = String::new();
    push_padded(&mut s, 7, 2);
    push_padded(&mut s, 42, 2);
    push_padded(&mut s, 123, 2);
    push_padded(&mut s, 5, 4);
    push_padded(&mut s, 5, 0);
    assert_eq!(s, "074212300055");
}

#[test]
fn text_order_is_that_of_strings() {
    let words = ["", "a", "aa", "ab", "b", "A", "-", "é", "ü", "中", "😀", "\u{ffff}", "a-b"];
    for a in words {
        for b in words {
            assert_eq!(comes_before(a, b), a < b, "{a} {b}");
            assert_eq!(same_text(a, b), a == b);
        }
    }
}

#[test]
fn prefixes() {
    assert_eq!(strip_prefix("abc", "ab"), Some("c".to_string()));
    assert_eq!(strip_prefix("abc", "abc"), Some(String::new()));
    assert_eq!(strip_prefix("abc", "abcd"), None);
    assert_eq!(strip_prefix("abc", "b"), None);
    assert_eq!(strip_prefix("é中x", "é"), Some("中x".to_string()));
    assert_eq!(strip_prefix("abc", ""), Some("abc".to_string()));
}

#[test]
fn characters() {
    assert_eq!(chars_of("é中"), vec!['é', '中']);
    assert_eq!(find_char("é中/x", '/'), 2);
    assert_eq!(find_char("abc", '/'), 3);
    assert_eq!(find_char("", '/'), 0);
    assert_eq!(find_char("//", '/'), 0);
}

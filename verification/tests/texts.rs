use herdr_title_rename::text::{
    blank, find_last_slash, is_all_digits, is_decimal, join, same_text, starts_with, strip_prefix,
    trim, trim_end_slashes,
};

#[test]
fn trimming_follows_unicode_white_space() {
    assert_eq!(trim("  a b\t\r\n"), "a b");
    assert_eq!(trim(""), "");
    assert_eq!(trim(" \u{3000}\u{2028}\u{85}\u{1680}"), "");
    // Every character that std counts as white space is trimmed, and no other.
    for code in 0..=0x10ffff_u32 {
        if let Some(c) = char::from_u32(code) {
            assert_eq!(blank(&c.to_string()), c.is_whitespace());
        }
    }
}

#[test]
fn texts_are_compared_and_cut() {
    assert!(same_text("caf\u{e9}", "caf\u{e9}"));
    assert!(!same_text("caf\u{e9}", "cafe"));
    assert!(!same_text("ab", "ac"));
    assert_eq!(strip_prefix("caf\u{e9}/x", "caf\u{e9}"), Some("/x"));
    assert_eq!(strip_prefix("caf", "cafe"), None);
    assert_eq!(strip_prefix("cave", "caf"), None);
    assert_eq!(strip_prefix("a", ""), Some("a"));
    assert!(starts_with("/a", '/'));
    assert!(!starts_with("", '/'));
    assert_eq!(trim_end_slashes("a/b//"), "a/b");
    assert_eq!(trim_end_slashes("//"), "");
    assert_eq!(find_last_slash("\u{e9}/b/c"), Some(3));
    assert_eq!(find_last_slash("abc"), None);
}

#[test]
fn numbers_are_read_in_decimal() {
    assert!(is_decimal("0", 0));
    assert!(is_decimal("907", 907));
    assert!(!is_decimal("", 0));
    assert!(!is_decimal("00", 0));
    assert!(!is_decimal("97", 907));
    assert!(is_all_digits(""));
    assert!(is_all_digits("0123456789"));
    assert!(!is_all_digits("12a"));
    assert!(!is_all_digits("-1"));
}

#[test]
fn parts_are_joined() {
    let part = |text: &str| text.to_string();
    assert_eq!(join(&vec![], ", "), "");
    assert_eq!(join(&vec![part("a")], ", "), "a");
    assert_eq!(join(&vec![part("a"), part(""), part("b")], ", "), "a, , b");
}

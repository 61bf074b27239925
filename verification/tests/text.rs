use shadecore::text::{
    char_is_space, chars_of, concat_str, contains, decimal_string, signed_decimal_string, str_eq, str_lt,
    str_starts_with, strip_prefix, trim, trim_end_matches, trim_matches,
};

#[test]
fn equality_and_order() {
    assert!(str_eq("", ""));
    assert!(str_eq("héllo", "héllo"));
    assert!(!str_eq("a", "b"));
    assert!(!str_eq("a", "ab"));
    assert!(str_lt("", "a"));
    assert!(!str_lt("a", ""));
    assert!(!str_lt("a", "a"));
    assert!(str_lt("a", "ab"));
    assert!(str_lt("B", "a"));
    assert!(str_lt("z", "é"));
    assert!(!str_lt("é", "z"));
    assert!(str_lt("abc", "abd"));
}

#[test]
fn characters_of_text() {
    assert_eq!(chars_of("aé"), vec!['a', 'é']);
    assert!(chars_of("").is_empty());
    assert_eq!(concat_str("ab", "cd"), "abcd");
}

#[test]
fn prefixes() {
    assert!(str_starts_with("abc", ""));
    assert!(str_starts_with("abc", "ab"));
    assert!(str_starts_with("abc", "abc"));
    assert!(!str_starts_with("abc", "abcd"));
    assert!(!str_starts_with("abc", "b"));
    assert_eq!(strip_prefix("abc", "ab").as_deref(), Some("c"));
    assert_eq!(strip_prefix("abc", "abc").as_deref(), Some(""));
    assert_eq!(strip_prefix("abc", "x"), None);
}

#[test]
fn trimming() {
    assert_eq!(trim_end_matches("/a/b///", '/'), "/a/b");
    assert_eq!(trim_end_matches("///", '/'), "");
    assert_eq!(trim_end_matches("", '/'), "");
    assert_eq!(trim_matches("//a/b//", '/'), "a/b");
    assert_eq!(trim_matches("////", '/'), "");
    assert_eq!(trim_matches("a", '/'), "a");
    assert_eq!(trim("  \t a b \n\u{a0}\u{3000}"), "a b");
    assert_eq!(trim(" \u{2003} "), "");
    assert_eq!(trim("x"), "x");
}

#[test]
fn white_space_is_as_the_standard_library_has_it() {
    for u in 0..0x11000u32 {
        if let Some(c) = char::from_u32(u) {
            assert_eq!(char_is_space(c), c.is_whitespace(), "U+{:04X}", u);
        }
    }
}

#[test]
fn numerals() {
    assert_eq!(decimal_string(0), "0");
    assert_eq!(decimal_string(9), "9");
    assert_eq!(decimal_string(10), "10");
    assert_eq!(decimal_string(1234567890), "1234567890");
    assert_eq!(decimal_string(u64::MAX), "18446744073709551615");
    assert_eq!(signed_decimal_string(-1), "-1");
    assert_eq!(signed_decimal_string(0), "0");
    assert_eq!(signed_decimal_string(i64::MIN), "-9223372036854775808");
    assert_eq!(signed_decimal_string(i64::MAX), "9223372036854775807");
}

#[test]
fn substring_search() {
    assert!(contains("launchpad mini", "pad"));
    assert!(contains("launchpad", ""));
    assert!(contains("", ""));
    assert!(contains("abc", "abc"));
    assert!(contains("abc", "c"));
    assert!(!contains("abc", "abcd"));
    assert!(!contains("abc", "ac"));
    assert!(!contains("", "a"));
}

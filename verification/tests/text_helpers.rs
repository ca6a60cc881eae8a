use eoka::text::{chars_of, joined, split_str, str_contains, str_eq, str_has_char, str_lt, string_of};

#[test]
fn split_keeps_empty_pieces() {
    assert_eq!(split_str("a..b", '.'), vec!["a", "", "b"]);
    assert_eq!(split_str("", '.'), vec![""]);
    assert_eq!(split_str("abc", '.'), vec!["abc"]);
    assert_eq!(split_str(".", '.'), vec!["", ""]);
}

#[test]
fn string_order_is_by_code_point() {
    assert!(str_lt("10", "9"));
    assert!(str_lt("", "a"));
    assert!(!str_lt("a", "a"));
    assert!(str_lt("ab", "abc"));
    assert!(!str_lt("b", "abc"));
}

#[test]
fn character_helpers() {
    assert!(str_eq("ab", "ab"));
    assert!(!str_eq("ab", "abc"));
    assert_eq!(joined("ab", "cd"), "abcd");
    assert!(str_has_char("a-b", '-'));
    assert!(!str_has_char("ab", '-'));
    assert!(str_contains("File exists (os error 17)", "os error 17"));
    assert!(!str_contains("os error 1", "os error 17"));
    assert_eq!(string_of(&chars_of("héllo")), "héllo");
}

use issuefer::strings::{replace_all, split_char, trim_str, u64_to_string};

#[test]
fn replace_all_replaces_every_occurrence() {
    assert_eq!(replace_all("// TODO: a // TODO: b", "// TODO:", "X"), "X a X b");
    assert_eq!(replace_all("nothing here", "// TODO:", "X"), "nothing here");
    assert_eq!(replace_all("aaa", "aa", "b"), "ba");
    assert_eq!(replace_all("abc", "", "x"), "abc");
}

#[test]
fn split_keeps_empty_segments() {
    assert_eq!(split_char("a;;b", ';'), vec!["a", "", "b"]);
    assert_eq!(split_char("", ';'), vec![""]);
    assert_eq!(split_char("a;", ';'), vec!["a", ""]);
    assert_eq!(split_char("plain", ';'), vec!["plain"]);
}

#[test]
fn trim_removes_surrounding_whitespace() {
    assert_eq!(trim_str("  a b \t"), "a b");
    assert_eq!(trim_str("   "), "");
    assert_eq!(trim_str("x"), "x");
}

#[test]
fn decimal_formatting() {
    assert_eq!(u64_to_string(0), "0");
    assert_eq!(u64_to_string(42), "42");
    assert_eq!(u64_to_string(65535), "65535");
    assert_eq!(u64_to_string(18446744073709551615), "18446744073709551615");
}

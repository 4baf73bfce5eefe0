use satysfi_language_server::text::{
    blank, contains, decimal, ends_with, join2, join3, same_text, slice_text, starts_with, strip_prefix,
    strip_suffix, trim,
};
use satysfi_language_server::version;

#[test]
fn version_is_the_version_of_the_library() {
    assert_eq!(version(), "0.1.0");
}

#[test]
fn slice_text_needs_whole_characters() {
    assert_eq!(slice_text("aあb", 1, 4), Some("あ"));
    assert_eq!(slice_text("aあb", 1, 3), None);
    assert_eq!(slice_text("aあb", 2, 4), None);
    assert_eq!(slice_text("aあb", 4, 6), None);
    assert_eq!(slice_text("aあb", 3, 1), None);
    assert_eq!(slice_text("abc", 3, 3), Some(""));
}

#[test]
fn texts_compare_and_join() {
    assert!(same_text("abc", "abc"));
    assert!(!same_text("abc", "abd"));
    assert!(!same_text("abc", "ab"));
    assert_eq!(join2("ab", "cd"), "abcd");
    assert_eq!(join3("a", "b", "c"), "abc");
}

#[test]
fn prefixes_and_suffixes() {
    assert!(starts_with("@require: x", "@require:"));
    assert!(!starts_with("@req", "@require:"));
    assert!(ends_with("list.satyh", ".satyh"));
    assert!(!ends_with("list.satyg", ".satyh"));
    assert!(contains("  @import: a", "@import:"));
    assert!(!contains("  @import a", "@import:"));
    assert!(contains("abc", ""));
    assert_eq!(strip_prefix("/a/b/c.satyh", "/a/"), Some("b/c.satyh"));
    assert_eq!(strip_prefix("/a/b/c.satyh", "/b/"), None);
    assert_eq!(strip_suffix("b/c.satyh", ".satyh"), Some("b/c"));
    assert_eq!(strip_suffix("b/c.satyh", ".satyg"), None);
}

#[test]
fn trim_takes_the_blanks_away() {
    assert_eq!(trim("  @ \t\r\n"), "@");
    assert_eq!(trim("a b"), "a b");
    assert_eq!(trim("   "), "");
    assert_eq!(trim(""), "");
    assert_eq!(trim("\u{3000}@\u{a0}\u{2003}"), "@");
    assert_eq!(trim("\u{85}\u{1680}a\u{2028}\u{2029}\u{202f}\u{205f}\u{b}\u{c}"), "a");
    // What is no white space stays: a zero-width space, a Mongolian vowel separator.
    assert_eq!(trim("\u{200b}a\u{180e}"), "\u{200b}a\u{180e}");
}

#[test]
fn blank_is_the_white_space_of_the_standard_library() {
    for code in 0..0x11_0000u32 {
        if let Some(c) = char::from_u32(code) {
            assert_eq!(blank(c), c.is_whitespace(), "{:x}", code);
        }
    }
}

#[test]
fn decimal_writes_numbers() {
    assert_eq!(decimal(0), "0");
    assert_eq!(decimal(7), "7");
    assert_eq!(decimal(10), "10");
    assert_eq!(decimal(1204), "1204");
}

use joytoggle_core::path::join_path;
use joytoggle_core::text::{is_whitespace, trim};

#[test]
fn white_space_table_matches_every_char() {
    for c in (0u32..=0x10FFFF).filter_map(char::from_u32) {
        assert_eq!(is_whitespace(c), c.is_whitespace(), "at U+{:04X}", c as u32);
    }
}

#[test]
fn trim_removes_unicode_white_space_at_both_ends() {
    assert_eq!(trim("\u{a0}\t VIRPIL Stick \u{3000}\n"), "VIRPIL Stick");
    assert_eq!(trim(" \n\t "), "");
    assert_eq!(trim("a b"), "a b");
}

#[test]
fn join_follows_the_unix_rule() {
    assert_eq!(join_path("/a", "/b"), "/b");
    assert_eq!(join_path("", "x"), "x");
    assert_eq!(join_path("/a/", "x"), "/a/x");
    assert_eq!(join_path("/a", "x/y"), "/a/x/y");
    assert_eq!(join_path("/a", ""), "/a/");
}

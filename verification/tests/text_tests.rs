use herdr_gui::paths::{dir_name, join_path};
use herdr_gui::text::{decimal_string, str_eq, trimmed_end_spaces, truncate_label};

#[test]
fn truncate_label_keeps_short_text() {
    assert_eq!(truncate_label("abc", 3), "abc");
    assert_eq!(truncate_label("abcdef", 3), "abc...");
    assert_eq!(truncate_label("\u{e9}\u{e9}\u{e9}\u{e9}", 2), "\u{e9}\u{e9}...");
}

#[test]
fn dir_name_is_the_last_component() {
    assert_eq!(dir_name("/src/repo"), "repo");
    assert_eq!(dir_name("/src/repo/"), "repo");
    assert_eq!(dir_name("/src/repo/."), "repo");
    assert_eq!(dir_name("/"), "~");
    assert_eq!(dir_name(""), "~");
    assert_eq!(dir_name("/src/.."), "~");
    assert_eq!(dir_name("repo"), "repo");
}

#[test]
fn join_path_handles_separators() {
    assert_eq!(join_path("/a", "b"), "/a/b");
    assert_eq!(join_path("/a/", "b"), "/a/b");
    assert_eq!(join_path("/a", "/b"), "/b");
    assert_eq!(join_path("", "b"), "b");
}

#[test]
fn small_text_helpers() {
    assert_eq!(decimal_string(0), "0");
    assert_eq!(decimal_string(1203), "1203");
    assert!(str_eq("ab", "ab"));
    assert!(!str_eq("ab", "abc"));
    assert_eq!(trimmed_end_spaces("a b  "), "a b");
    assert_eq!(trimmed_end_spaces("a\t "), "a\t");
}

use mdsite::text::{split_once, strip_prefix, strip_suffix};

#[test]
fn strip_prefix_takes_the_prefix_off() {
    assert_eq!(strip_prefix("source/a.md", "source"), Some("/a.md"));
    assert_eq!(strip_prefix("source", "source"), Some(""));
    assert_eq!(strip_prefix("anything", ""), Some("anything"));
}

#[test]
fn strip_prefix_refuses_what_is_no_prefix() {
    assert_eq!(strip_prefix("source/a.md", "output"), None);
    assert_eq!(strip_prefix("so", "source"), None);
    assert_eq!(strip_prefix("", "x"), None);
}

#[test]
fn strip_suffix_takes_the_suffix_off() {
    assert_eq!(strip_suffix("a.md", ".md"), Some("a"));
    assert_eq!(strip_suffix(".md", ".md"), Some(""));
    assert_eq!(strip_suffix("a.md", ""), Some("a.md"));
}

#[test]
fn strip_suffix_refuses_what_is_no_suffix() {
    assert_eq!(strip_suffix("a.md", ".MD"), None);
    assert_eq!(strip_suffix("md", ".md"), None);
}

#[test]
fn split_once_cuts_at_the_leftmost_place() {
    assert_eq!(split_once("a=b=c", "="), Some(("a", "b=c")));
    assert_eq!(split_once("=b", "="), Some(("", "b")));
    assert_eq!(split_once("ab", "ab"), Some(("", "")));
    assert_eq!(split_once("aaa", "aa"), Some(("", "a")));
}

#[test]
fn split_once_with_the_empty_pattern_cuts_at_the_start() {
    assert_eq!(split_once("abc", ""), Some(("", "abc")));
    assert_eq!(split_once("", ""), Some(("", "")));
}

#[test]
fn split_once_finds_nothing_where_the_pattern_is_absent() {
    assert_eq!(split_once("abc", "x"), None);
    assert_eq!(split_once("", "x"), None);
    assert_eq!(split_once("ab", "abc"), None);
}

#[test]
fn cuts_fall_between_characters_of_any_width() {
    assert_eq!(strip_prefix("héllo wörld", "héllo"), Some(" wörld"));
    assert_eq!(strip_suffix("日本語.md", ".md"), Some("日本語"));
    assert_eq!(split_once("ключ: знач", ": "), Some(("ключ", "знач")));
    assert_eq!(split_once("a😀b😀c", "😀"), Some(("a", "b😀c")));
    assert_eq!(strip_prefix("éa", "e"), None);
}

use mdsite::paths::{is_markdown_path, join_path, output_path, relative_path, stylesheet_path};

#[test]
fn markdown_extension_is_recognised() {
    assert!(is_markdown_path("a.md"));
    assert!(is_markdown_path("source/a.md"));
    assert!(is_markdown_path("source/deep/er/a.b.md"));
    assert!(is_markdown_path("..md"));
}

#[test]
fn other_names_are_no_markdown() {
    assert!(!is_markdown_path(""));
    assert!(!is_markdown_path("md"));
    assert!(!is_markdown_path(".md"));
    assert!(!is_markdown_path("source/.md"));
    assert!(!is_markdown_path("a.MD"));
    assert!(!is_markdown_path("a.Md"));
    assert!(!is_markdown_path("a.md.txt"));
    assert!(!is_markdown_path("a.markdown"));
    assert!(!is_markdown_path("amd"));
    assert!(!is_markdown_path("a.md/"));
}

#[test]
fn relative_path_strips_the_base_directory() {
    assert_eq!(relative_path("source/a.md", "source"), Some("a.md"));
    assert_eq!(relative_path("source/x/y.md", "source"), Some("x/y.md"));
    assert_eq!(relative_path("source/a.md", "source/"), Some("a.md"));
    assert_eq!(relative_path("source//a.md", "source"), Some("a.md"));
    assert_eq!(relative_path("./a.md", "."), Some("a.md"));
    assert_eq!(relative_path("a.md", ""), Some("a.md"));
    assert_eq!(relative_path("source", "source"), Some(""));
}

#[test]
fn relative_path_fails_outside_the_base_directory() {
    assert_eq!(relative_path("other/a.md", "source"), None);
    assert_eq!(relative_path("source2/a.md", "source"), None);
    assert_eq!(relative_path("sourc", "source"), None);
}

#[test]
fn join_path_puts_one_separator_between() {
    assert_eq!(join_path("output", "a.html"), "output/a.html");
    assert_eq!(join_path("output/", "a.html"), "output/a.html");
    assert_eq!(join_path("", "a.html"), "a.html");
    assert_eq!(join_path("out/put", "x/y.html"), "out/put/x/y.html");
}

#[test]
fn output_path_mirrors_the_source_tree() {
    assert_eq!(output_path("source", "output", "source/test.md"), Some("output/test.html".to_string()));
    assert_eq!(output_path("source", "output", "source/a/b.md"), Some("output/a/b.html".to_string()));
    assert_eq!(
        output_path("source", "output", "source/a/b/c/d/e.md"),
        Some("output/a/b/c/d/e.html".to_string())
    );
    assert_eq!(output_path("src/", "out/", "src/x/y.md"), Some("out/x/y.html".to_string()));
    assert_eq!(output_path(".", "", "./notes.md"), Some("notes.html".to_string()));
}

#[test]
fn output_path_replaces_only_the_last_extension() {
    assert_eq!(output_path("s", "o", "s/a.b.md"), Some("o/a.b.html".to_string()));
    assert_eq!(output_path("s", "o", "s/x.md/y.md"), Some("o/x.md/y.html".to_string()));
}

#[test]
fn output_path_fails_outside_the_source_directory() {
    assert_eq!(output_path("source", "output", "elsewhere/a.md"), None);
    assert_eq!(output_path("source", "output", "sourcery/a.md"), None);
}

#[test]
fn output_path_fails_for_what_is_no_markdown_file_below_the_source() {
    assert_eq!(output_path("source", "output", "source/a.txt"), None);
    assert_eq!(output_path("notes.md", "output", "notes.md"), None);
    assert_eq!(output_path("source", "output", "source/.md"), None);
}

#[test]
fn stylesheet_lies_at_the_output_root() {
    assert_eq!(stylesheet_path("output"), "output/style.css");
    assert_eq!(stylesheet_path("output/"), "output/style.css");
    assert_eq!(stylesheet_path(""), "style.css");
}

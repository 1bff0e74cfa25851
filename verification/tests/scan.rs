use issuefer::todo::{
    get_all_todos_from_source_code_files, get_todos_from_source_code_file, parse_line,
    source_files_to_scan, SourceFile, Todo,
};

fn lines(v: &[&str]) -> Vec<String> {
    v.iter().map(|s| s.to_string()).collect()
}

#[test]
fn parse_untracked_line() {
    let t = parse_line("src/main.rs", 4, "// TODO: fix bug").unwrap();
    assert_eq!(t.file_path, "src/main.rs");
    assert_eq!(t.line_number, 4);
    assert_eq!(t.title, "fix bug");
    assert_eq!(t.issue_number, 0);
}

#[test]
fn parse_tracked_line() {
    let t = parse_line("a.c", 0, "// TODO (#42): fix bug").unwrap();
    assert_eq!(t.title, "fix bug");
    assert_eq!(t.issue_number, 42);
}

#[test]
fn parse_leading_whitespace() {
    let t = parse_line("a.c", 0, "   \t// TODO: indented").unwrap();
    assert_eq!(t.title, "indented");
    assert_eq!(t.issue_number, 0);
}

#[test]
fn parse_extra_gap_before_title() {
    // The whitespace after the marker is consumed greedily; trailing
    // whitespace of the title is kept.
    let t = parse_line("a.c", 0, "//  TODO:   hello  ").unwrap();
    assert_eq!(t.title, "hello  ");
}

#[test]
fn parse_rejects_missing_gap_after_slashes() {
    assert!(parse_line("a.c", 0, "//TODO: x").is_none());
}

#[test]
fn parse_rejects_doc_comment() {
    assert!(parse_line("a.c", 0, "/// TODO: x").is_none());
}

#[test]
fn parse_rejects_marker_without_title_gap() {
    assert!(parse_line("a.c", 0, "// TODO:").is_none());
    assert!(parse_line("a.c", 0, "// TODO:x").is_none());
}

#[test]
fn parse_empty_title_after_gap() {
    let t = parse_line("a.c", 0, "// TODO: ").unwrap();
    assert_eq!(t.title, "");
}

#[test]
fn parse_rejects_plain_code() {
    assert!(parse_line("a.c", 0, "let x = 1; // not a todo").is_none());
}

#[test]
fn parse_tracked_needs_digits_and_close() {
    assert!(parse_line("a.c", 0, "// TODO (#): x").is_none());
    assert!(parse_line("a.c", 0, "// TODO (#12: x").is_none());
    assert!(parse_line("a.c", 0, "// TODO (#12):x").is_none());
}

#[test]
fn parse_tracked_number_bounds() {
    let t = parse_line("a.c", 0, "// TODO (#65535): big").unwrap();
    assert_eq!(t.issue_number, 65535);
    // A number that does not fit in sixteen bits is not a marker.
    assert!(parse_line("a.c", 0, "// TODO (#65536): big").is_none());
}

#[test]
fn scan_file_collects_line_numbers() {
    let file = lines(&[
        "fn main() {",
        "    // TODO: first",
        "    let x = 1;",
        "    // TODO (#7): second",
        "}",
    ]);
    let todos = get_todos_from_source_code_file("m.rs", &file);
    assert_eq!(todos.len(), 2);
    assert_eq!(todos[0].line_number, 1);
    assert_eq!(todos[0].title, "first");
    assert_eq!(todos[0].issue_number, 0);
    assert_eq!(todos[1].line_number, 3);
    assert_eq!(todos[1].issue_number, 7);
}

#[test]
fn scan_files_keeps_file_order() {
    let files = vec![
        SourceFile { path: "a.rs".to_string(), lines: lines(&["// TODO: a"]) },
        SourceFile { path: "b.rs".to_string(), lines: lines(&["// TODO: b"]) },
    ];
    let todos = get_all_todos_from_source_code_files(&files);
    assert_eq!(todos.len(), 2);
    assert_eq!(todos[0].file_path, "a.rs");
    assert_eq!(todos[1].file_path, "b.rs");
}

#[test]
fn describe_untracked_and_tracked() {
    let t = Todo {
        file_path: "src/a.rs".to_string(),
        line_number: 4,
        title: "fix bug".to_string(),
        issue_number: 0,
    };
    assert_eq!(t.describe(), "src/a.rs:5: TODO: fix bug");
    let t2 = Todo { issue_number: 42, ..t };
    assert_eq!(t2.describe(), "src/a.rs:5: TODO (#42): fix bug");
}

#[test]
fn files_to_scan_filters_ignored_extensions() {
    let files = lines(&["src/a.rs", "doc/b.md", "Makefile", ".gitignore", "x.tar.gz"]);
    let ignored = lines(&["md", "gz"]);
    let kept = source_files_to_scan("/repo", &files, &ignored);
    assert_eq!(kept, vec!["/repo/src/a.rs", "/repo/Makefile", "/repo/.gitignore"]);
}

#[test]
fn files_to_scan_keeps_all_without_ignore_list() {
    let files = lines(&["a.rs", "b.md"]);
    let kept = source_files_to_scan("/r", &files, &Vec::new());
    assert_eq!(kept, vec!["/r/a.rs", "/r/b.md"]);
}

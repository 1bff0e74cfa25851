use issuefer::annotate::{
    commit_add_message, commit_delete_message, rewrite_delete, rewrite_tracking, update_lines,
};
use issuefer::issueapi::Issue;
use issuefer::reconcile::{compare_todos_and_issues, find_todos_to_cleanup};
use issuefer::todo::get_todos_from_source_code_file;

fn lines(v: &[&str]) -> Vec<String> {
    v.iter().map(|s| s.to_string()).collect()
}

#[test]
fn tracking_rewrite_touches_only_the_addressed_line() {
    let input = lines(&["a", "b", "// TODO: fix bug", "c"]);
    let out = rewrite_tracking(&input, 2, 42);
    assert_eq!(out.len(), input.len());
    assert_eq!(out[0], "a");
    assert_eq!(out[1], "b");
    assert_eq!(out[2], "// TODO (#42): fix bug");
    assert_eq!(out[3], "c");
}

#[test]
fn tracking_rewrite_result_contains_issue_reference() {
    let input = lines(&["// TODO: x"]);
    let out = rewrite_tracking(&input, 0, 7);
    assert!(out[0].contains("(#7):"));
}

#[test]
fn tracking_rewrite_out_of_range_is_identity() {
    let input = lines(&["a", "b"]);
    assert_eq!(rewrite_tracking(&input, 9, 42), input);
}

#[test]
fn delete_rewrite_drops_exactly_the_addressed_line() {
    let input = lines(&["a", "// TODO (#42): fix bug", "b"]);
    let out = rewrite_delete(&input, 1);
    assert_eq!(out, lines(&["a", "b"]));
}

#[test]
fn delete_rewrite_out_of_range_is_identity() {
    let input = lines(&["a", "b"]);
    assert_eq!(rewrite_delete(&input, 5), input);
}

#[test]
fn update_lines_dispatches_both_modes() {
    let input = lines(&["// TODO: x", "y"]);
    assert_eq!(update_lines(&input, 0, 3, false)[0], "// TODO (#3): x");
    assert_eq!(update_lines(&input, 0, 0, true), lines(&["y"]));
}

#[test]
fn end_to_end_report_scenario() {
    // A file whose zero-based line 5 holds an untracked marker; the
    // fetched issue set is empty, so the todo is a create candidate, and
    // simulated creation of issue 42 rewrites exactly that line.
    let file = lines(&["fn a() {}", "", "fn b() {}", "", "fn c() {", "// TODO: fix bug", "}"]);
    let todos = get_todos_from_source_code_file("src/a.rs", &file);
    let issues: Vec<Issue> = Vec::new();
    let create = compare_todos_and_issues(&todos, &issues);
    assert_eq!(create.len(), 1);
    assert_eq!(create[0].line_number, 5);
    assert_eq!(create[0].title, "fix bug");
    assert_eq!(create[0].issue_number, 0);
    let rewritten = rewrite_tracking(&file, create[0].line_number, 42);
    assert_eq!(rewritten[5], "// TODO (#42): fix bug");
    for i in 0..file.len() {
        if i != 5 {
            assert_eq!(rewritten[i], file[i]);
        }
    }
}

#[test]
fn end_to_end_cleanup_scenario() {
    // A file whose zero-based line 5 holds a marker tracked as issue 42;
    // the fetched issue 42 is closed, so the todo is a cleanup candidate,
    // and the cleanup removes that line, shrinking the file by one line.
    let file = lines(&["fn a() {}", "", "fn b() {}", "", "fn c() {", "// TODO (#42): fix bug", "}"]);
    let todos = get_todos_from_source_code_file("src/a.rs", &file);
    let issues = vec![Issue { number: 42, title: "fix bug".to_string(), state: "closed".to_string() }];
    let cleanup = find_todos_to_cleanup(&todos, &issues);
    assert_eq!(cleanup.len(), 1);
    assert_eq!(cleanup[0].line_number, 5);
    assert_eq!(cleanup[0].title, "fix bug");
    assert_eq!(cleanup[0].issue_number, 42);
    let rewritten = rewrite_delete(&file, cleanup[0].line_number);
    assert_eq!(rewritten.len(), file.len() - 1);
    assert!(!rewritten.contains(&"// TODO (#42): fix bug".to_string()));
}

#[test]
fn commit_messages() {
    assert_eq!(commit_add_message(42), "Add TODO #42");
    assert_eq!(commit_add_message(0), "Add TODO #0");
    assert_eq!(commit_delete_message(65535), "Remove TODO #65535");
}

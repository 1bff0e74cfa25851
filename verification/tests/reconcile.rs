use issuefer::issueapi::Issue;
use issuefer::reconcile::{compare_todos_and_issues, find_issue_by_number, find_issue_by_title,
    find_todos_to_cleanup};
use issuefer::todo::Todo;

fn todo(line: usize, title: &str, number: u16) -> Todo {
    Todo {
        file_path: "src/a.rs".to_string(),
        line_number: line,
        title: title.to_string(),
        issue_number: number,
    }
}

fn issue(number: i64, title: &str, state: &str) -> Issue {
    Issue { number, title: title.to_string(), state: state.to_string() }
}

#[test]
fn untracked_without_matching_title_is_created() {
    let todos = vec![todo(5, "fix bug", 0)];
    let issues: Vec<Issue> = Vec::new();
    let create = compare_todos_and_issues(&todos, &issues);
    assert_eq!(create.len(), 1);
    assert_eq!(create[0].line_number, 5);
    assert_eq!(create[0].title, "fix bug");
    assert_eq!(create[0].issue_number, 0);
}

#[test]
fn matching_title_suppresses_creation() {
    let todos = vec![todo(1, "fix bug", 0)];
    let issues = vec![issue(3, "fix bug", "open")];
    assert!(compare_todos_and_issues(&todos, &issues).is_empty());
}

#[test]
fn duplicate_titles_still_suppress_creation() {
    let todos = vec![todo(1, "fix bug", 0)];
    let issues = vec![issue(3, "fix bug", "open"), issue(4, "fix bug", "closed")];
    assert!(compare_todos_and_issues(&todos, &issues).is_empty());
}

#[test]
fn title_match_is_case_sensitive() {
    let todos = vec![todo(1, "Fix bug", 0)];
    let issues = vec![issue(3, "fix bug", "open")];
    assert_eq!(compare_todos_and_issues(&todos, &issues).len(), 1);
}

#[test]
fn tracked_todo_is_never_created() {
    let todos = vec![todo(1, "fix bug", 9)];
    let issues: Vec<Issue> = Vec::new();
    assert!(compare_todos_and_issues(&todos, &issues).is_empty());
}

#[test]
fn closed_issue_marks_todo_for_cleanup() {
    let todos = vec![todo(5, "fix bug", 42)];
    let issues = vec![issue(42, "fix bug", "closed")];
    let cleanup = find_todos_to_cleanup(&todos, &issues);
    assert_eq!(cleanup.len(), 1);
    assert_eq!(cleanup[0].line_number, 5);
    assert_eq!(cleanup[0].issue_number, 42);
}

#[test]
fn open_issue_keeps_todo() {
    let todos = vec![todo(5, "fix bug", 42)];
    let issues = vec![issue(42, "fix bug", "open")];
    assert!(find_todos_to_cleanup(&todos, &issues).is_empty());
}

#[test]
fn unknown_issue_number_is_left_untouched() {
    // A tracked todo whose number is absent from the fetched set is a
    // conservative no-op: neither created nor cleaned.
    let todos = vec![todo(5, "fix bug", 42)];
    let issues = vec![issue(7, "other", "closed")];
    assert!(find_todos_to_cleanup(&todos, &issues).is_empty());
    assert!(compare_todos_and_issues(&todos, &issues).is_empty());
}

#[test]
fn reconciliation_is_idempotent() {
    let todos = vec![todo(1, "a", 0), todo(2, "b", 3), todo(3, "c", 0), todo(4, "d", 4)];
    let issues = vec![issue(3, "x", "closed"), issue(5, "a", "open")];
    let create1 = compare_todos_and_issues(&todos, &issues);
    let create2 = compare_todos_and_issues(&todos, &issues);
    let cleanup1 = find_todos_to_cleanup(&todos, &issues);
    let cleanup2 = find_todos_to_cleanup(&todos, &issues);
    assert_eq!(create1, create2);
    assert_eq!(cleanup1, cleanup2);
    assert_eq!(create1.len(), 1);
    assert_eq!(create1[0].title, "c");
    assert_eq!(cleanup1.len(), 1);
    assert_eq!(cleanup1[0].title, "b");
}

#[test]
fn candidates_keep_scan_order() {
    let todos = vec![todo(1, "a", 0), todo(2, "b", 0), todo(3, "c", 0)];
    let issues = vec![issue(1, "b", "open")];
    let create = compare_todos_and_issues(&todos, &issues);
    assert_eq!(create.len(), 2);
    assert_eq!(create[0].title, "a");
    assert_eq!(create[1].title, "c");
}

#[test]
fn find_issue_by_title_exact_match_only() {
    let issues = vec![issue(1, "alpha", "open")];
    assert!(find_issue_by_title(&issues, "alpha"));
    assert!(!find_issue_by_title(&issues, "alph"));
    assert!(!find_issue_by_title(&issues, "Alpha"));
}

#[test]
fn find_issue_by_number_returns_first_match() {
    let issues = vec![issue(1, "a", "open"), issue(2, "b", "closed")];
    let found = find_issue_by_number(&issues, 2).unwrap();
    assert_eq!(found.title, "b");
    assert!(find_issue_by_number(&issues, 9).is_none());
}

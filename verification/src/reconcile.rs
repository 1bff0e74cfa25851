//! The reconciliation engine: compares the scanned TODO set against the
//! fetched issue set and classifies each TODO as "needs a new issue"
//! (create candidate) or "tracked issue closed" (cleanup candidate).

use vstd::prelude::*;

use crate::issueapi::{Issue, IssueView};
use crate::strings::str_eq;
use crate::todo::{Todo, TodoView};

verus! {

/// Some fetched issue carries exactly this title.
pub open spec fn has_issue_with_title(issues: Seq<IssueView>, title: Seq<char>) -> bool {
    exists|i: int| 0 <= i < issues.len() && issues[i].title == title
}

/// The first fetched issue at or after index `i` with this number.
pub open spec fn find_by_number_from(issues: Seq<IssueView>, number: int, i: int) -> Option<
    IssueView,
>
    decreases issues.len() - i,
{
    if i < 0 || i >= issues.len() {
        None
    } else if issues[i].number == number {
        Some(issues[i])
    } else {
        find_by_number_from(issues, number, i + 1)
    }
}

/// The first fetched issue with this number, if any.
pub open spec fn find_by_number_spec(issues: Seq<IssueView>, number: int) -> Option<IssueView> {
    find_by_number_from(issues, number, 0)
}

/// A todo qualifies for creation when it is untracked and no fetched
/// issue carries its exact title.
pub open spec fn create_pred(issues: Seq<IssueView>) -> spec_fn(TodoView) -> bool {
    |t: TodoView| t.issue_number == 0 && !has_issue_with_title(issues, t.title)
}

/// The create candidates, in scan order.
pub open spec fn create_candidates(todos: Seq<TodoView>, issues: Seq<IssueView>) -> Seq<TodoView> {
    todos.filter(create_pred(issues))
}

/// A todo qualifies for cleanup when it is tracked and the first fetched
/// issue carrying its number is closed. A tracked todo whose number is
/// absent from the fetched set is left untouched.
pub open spec fn cleanup_pred(issues: Seq<IssueView>) -> spec_fn(TodoView) -> bool {
    |t: TodoView|
        t.issue_number > 0 && match find_by_number_spec(issues, t.issue_number) {
            Some(issue) => issue.state == "closed"@,
            None => false,
        }
}

/// The cleanup candidates, in scan order.
pub open spec fn cleanup_candidates(todos: Seq<TodoView>, issues: Seq<IssueView>) -> Seq<TodoView> {
    todos.filter(cleanup_pred(issues))
}

/// Searches a list of issues by title; true exactly when some issue's
/// title equals `title`.
pub fn find_issue_by_title(issues: &[Issue], title: &str) -> (r: bool)
    ensures
        r == has_issue_with_title(issues.deep_view(), title@),
{
    let n: usize = issues.len();
    let mut i: usize = 0;
    while i < n
        invariant
            0 <= i <= n,
            n == issues@.len(),
            forall|k: int| 0 <= k < i ==> issues.deep_view()[k].title != title@,
        decreases n - i,
    {
        if str_eq(issues[i].title.as_str(), title) {
            assert(issues.deep_view()[i as int].title == title@);
            return true;
        }
        i = i + 1;
    }
    false
}

/// Searches a list of issues by number and returns a copy of the first
/// match, if any.
pub fn find_issue_by_number(issues: &[Issue], number: i64) -> (r: Option<Issue>)
    ensures
        (r is Some) == (find_by_number_spec(issues.deep_view(), number as int) is Some),
        r is Some ==> r.unwrap()@ == find_by_number_spec(
            issues.deep_view(),
            number as int,
        )->Some_0,
{
    let n: usize = issues.len();
    let mut i: usize = 0;
    while i < n
        invariant
            0 <= i <= n,
            n == issues@.len(),
            find_by_number_from(issues.deep_view(), number as int, 0) == find_by_number_from(
                issues.deep_view(),
                number as int,
                i as int,
            ),
        decreases n - i,
    {
        if issues[i].number == number {
            return Some(issues[i].duplicate());
        }
        i = i + 1;
    }
    None
}

/// The create-candidate pass: the untracked todos whose title no fetched
/// issue carries, in scan order.
pub fn compare_todos_and_issues(todos: &[Todo], issues: &[Issue]) -> (r: Vec<Todo>)
    ensures
        r.deep_view() == create_candidates(todos.deep_view(), issues.deep_view()),
{
    let mut todos_to_create: Vec<Todo> = Vec::new();
    let n: usize = todos.len();
    let mut i: usize = 0;
    proof {
        assert(todos.deep_view().take(0) =~= Seq::<TodoView>::empty());
        assert(todos_to_create.deep_view() =~= Seq::<TodoView>::empty().filter(
            create_pred(issues.deep_view()),
        )) by {
            reveal_with_fuel(Seq::<_>::filter, 1);
        }
    }
    while i < n
        invariant
            0 <= i <= n,
            n == todos@.len(),
            todos_to_create.deep_view() == todos.deep_view().take(i as int).filter(
                create_pred(issues.deep_view()),
            ),
        decreases n - i,
    {
        let ghost pred = create_pred(issues.deep_view());
        let ghost prefix = todos.deep_view().take(i as int);
        let todo = &todos[i];
        proof {
            prefix.lemma_filter_push(todo.deep_view(), pred);
            assert(todos.deep_view().take(i + 1) =~= prefix.push(todo.deep_view()));
        }
        if todo.issue_number == 0 && !find_issue_by_title(issues, todo.title.as_str()) {
            let ghost prev = todos_to_create.deep_view();
            todos_to_create.push(todo.duplicate());
            proof {
                assert(todos_to_create.deep_view() =~= prev.push(todo.deep_view()));
            }
        }
        i = i + 1;
    }
    proof {
        assert(todos.deep_view().take(n as int) =~= todos.deep_view());
    }
    todos_to_create
}

/// The cleanup pass: the tracked todos whose fetched issue is closed, in
/// scan order.
pub fn find_todos_to_cleanup(todos: &[Todo], issues: &[Issue]) -> (r: Vec<Todo>)
    ensures
        r.deep_view() == cleanup_candidates(todos.deep_view(), issues.deep_view()),
{
    let mut todos_to_cleanup: Vec<Todo> = Vec::new();
    let n: usize = todos.len();
    let mut i: usize = 0;
    proof {
        assert(todos.deep_view().take(0) =~= Seq::<TodoView>::empty());
        assert(todos_to_cleanup.deep_view() =~= Seq::<TodoView>::empty().filter(
            cleanup_pred(issues.deep_view()),
        )) by {
            reveal_with_fuel(Seq::<_>::filter, 1);
        }
    }
    while i < n
        invariant
            0 <= i <= n,
            n == todos@.len(),
            todos_to_cleanup.deep_view() == todos.deep_view().take(i as int).filter(
                cleanup_pred(issues.deep_view()),
            ),
        decreases n - i,
    {
        let ghost pred = cleanup_pred(issues.deep_view());
        let ghost prefix = todos.deep_view().take(i as int);
        let todo = &todos[i];
        proof {
            prefix.lemma_filter_push(todo.deep_view(), pred);
            assert(todos.deep_view().take(i + 1) =~= prefix.push(todo.deep_view()));
        }
        if todo.issue_number > 0 {
            let found = find_issue_by_number(issues, todo.issue_number as i64);
            match found {
                Some(issue) => {
                    if str_eq(issue.state.as_str(), "closed") {
                        let ghost prev = todos_to_cleanup.deep_view();
                        todos_to_cleanup.push(todo.duplicate());
                        proof {
                            assert(todos_to_cleanup.deep_view() =~= prev.push(todo.deep_view()));
                        }
                    }
                },
                None => {},
            }
        }
        i = i + 1;
    }
    proof {
        assert(todos.deep_view().take(n as int) =~= todos.deep_view());
    }
    todos_to_cleanup
}

/// Reconciliation is a pure function of its two inputs: run twice against
/// the same scanned todos and the same fetched issues, it yields the
/// identical create-candidate and cleanup-candidate sequences.
pub proof fn lemma_reconcile_idempotent(
    todos1: Seq<TodoView>,
    todos2: Seq<TodoView>,
    issues1: Seq<IssueView>,
    issues2: Seq<IssueView>,
)
    requires
        todos1 == todos2,
        issues1 == issues2,
    ensures
        create_candidates(todos1, issues1) == create_candidates(todos2, issues2),
        cleanup_candidates(todos1, issues1) == cleanup_candidates(todos2, issues2),
{
}

/// Create exclusion: an untracked todo whose title some fetched issue
/// carries is never a create candidate.
pub proof fn lemma_create_exclusion(
    todos: Seq<TodoView>,
    issues: Seq<IssueView>,
    t: TodoView,
    i: int,
)
    requires
        t.issue_number == 0,
        0 <= i < issues.len(),
        issues[i].title == t.title,
    ensures
        !create_candidates(todos, issues).contains(t),
{
    let c = create_candidates(todos, issues);
    assert forall|j: int| 0 <= j < c.len() implies c[j] != t by {
        todos.lemma_filter_pred(create_pred(issues), j);
    }
}

/// The numbers of the fetched issues are pairwise distinct.
pub open spec fn distinct_numbers(issues: Seq<IssueView>) -> bool {
    forall|a: int, b: int|
        0 <= a < b < issues.len() ==> issues[a].number != issues[b].number
}

proof fn lemma_find_by_number_from_props(issues: Seq<IssueView>, number: int, i: int)
    requires
        0 <= i,
    ensures
        match find_by_number_from(issues, number, i) {
            Some(issue) => exists|k: int|
                i <= k < issues.len() && issues[k] == issue && issues[k].number == number,
            None => forall|k: int| i <= k < issues.len() ==> issues[k].number != number,
        },
    decreases issues.len() - i,
{
    if i < issues.len() && issues[i].number != number {
        lemma_find_by_number_from_props(issues, number, i + 1);
    }
}

/// Cleanup precondition: when the fetched issue numbers are distinct (as
/// tracker-assigned identifiers are), every cleanup candidate points at
/// exactly one fetched issue, and that issue is closed.
pub proof fn lemma_cleanup_precondition(
    todos: Seq<TodoView>,
    issues: Seq<IssueView>,
    t: TodoView,
)
    requires
        distinct_numbers(issues),
        cleanup_candidates(todos, issues).contains(t),
    ensures
        exists|k: int|
            0 <= k < issues.len() && issues[k].number == t.issue_number && issues[k].state
                == "closed"@ && (forall|j: int|
                0 <= j < issues.len() && j != k ==> issues[j].number != t.issue_number),
{
    let c = cleanup_candidates(todos, issues);
    let j = choose|j: int| 0 <= j < c.len() && c[j] == t;
    todos.lemma_filter_pred(cleanup_pred(issues), j);
    assert(cleanup_pred(issues)(t));
    lemma_find_by_number_from_props(issues, t.issue_number, 0);
    let issue = find_by_number_spec(issues, t.issue_number)->Some_0;
    let k = choose|k: int|
        0 <= k < issues.len() && issues[k] == issue && issues[k].number == t.issue_number;
    assert(issues[k].number == t.issue_number && issues[k].state == "closed"@);
    assert forall|m: int| 0 <= m < issues.len() && m != k implies issues[m].number
        != t.issue_number by {
        if m < k {
            assert(issues[m].number != issues[k].number);
        }
    }
}

} // verus!

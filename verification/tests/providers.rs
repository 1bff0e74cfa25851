use issuefer::config::{GitHubConfig, GitLabConfig};
use issuefer::github;
use issuefer::gitlab;
use serde_json::Value;

fn user() -> github::User {
    github::User {
        login: "u".to_string(),
        id: 1,
        node_id: "n".to_string(),
        avatar_url: String::new(),
        gravatar_id: String::new(),
        url: String::new(),
        html_url: String::new(),
        followers_url: String::new(),
        following_url: String::new(),
        gists_url: String::new(),
        starred_url: String::new(),
        subscriptions_url: String::new(),
        organizations_url: String::new(),
        repos_url: String::new(),
        events_url: String::new(),
        received_events_url: String::new(),
        type_field: "User".to_string(),
        site_admin: false,
    }
}

fn gh_issue(number: i64, title: &str, state: &str, pull_request: bool) -> github::GitHubIssue {
    github::GitHubIssue {
        url: String::new(),
        repository_url: String::new(),
        labels_url: String::new(),
        comments_url: String::new(),
        events_url: String::new(),
        html_url: String::new(),
        id: number,
        node_id: String::new(),
        number,
        title: title.to_string(),
        user: user(),
        labels: Vec::new(),
        state: state.to_string(),
        locked: false,
        assignee: Value::Null,
        assignees: Vec::new(),
        milestone: Value::Null,
        comments: 0,
        created_at: String::new(),
        updated_at: String::new(),
        closed_at: Value::Null,
        author_association: String::new(),
        body: Value::Null,
        pull_request: if pull_request { Some(Value::Null) } else { None },
    }
}

fn gl_author() -> gitlab::Author {
    gitlab::Author {
        id: 1,
        name: "n".to_string(),
        username: "u".to_string(),
        state: "active".to_string(),
        avatar_url: String::new(),
        web_url: String::new(),
    }
}

fn gl_issue(iid: i64, title: &str, state: &str) -> gitlab::GitLabIssue {
    gitlab::GitLabIssue {
        id: iid + 100,
        iid,
        project_id: 1,
        title: title.to_string(),
        description: None,
        state: state.to_string(),
        created_at: String::new(),
        updated_at: String::new(),
        closed_at: Value::Null,
        closed_by: Value::Null,
        labels: Vec::new(),
        milestone: Value::Null,
        assignees: Vec::new(),
        author: gl_author(),
        assignee: Value::Null,
        user_notes_count: 0,
        merge_requests_count: 0,
        upvotes: 0,
        downvotes: 0,
        due_date: Value::Null,
        confidential: false,
        discussion_locked: Value::Null,
        web_url: String::new(),
        time_stats: gitlab::TimeStats {
            time_estimate: 0,
            total_time_spent: 0,
            human_time_estimate: Value::Null,
            human_total_time_spent: Value::Null,
        },
        task_completion_status: gitlab::TaskCompletionStatus { count: 0, completed_count: 0 },
        has_tasks: false,
        links: gitlab::Links {
            self_field: String::new(),
            notes: String::new(),
            award_emoji: String::new(),
            project: String::new(),
        },
        references: gitlab::References {
            short: String::new(),
            relative: String::new(),
            full: String::new(),
        },
        moved_to_id: Value::Null,
    }
}

#[test]
fn github_normalization_drops_pull_requests() {
    let records = vec![
        gh_issue(1, "real issue", "open", false),
        gh_issue(2, "a pull request", "open", true),
        gh_issue(3, "closed issue", "closed", false),
    ];
    let issues = github::get_issues_from_records(&records);
    assert_eq!(issues.len(), 2);
    assert_eq!(issues[0].number, 1);
    assert_eq!(issues[0].title, "real issue");
    assert_eq!(issues[0].state, "open");
    assert_eq!(issues[1].number, 3);
    assert_eq!(issues[1].state, "closed");
}

#[test]
fn github_urls_and_label() {
    let api = github::GitHubAPI::new(GitHubConfig::new("tok"), "o".to_string(), "r".to_string());
    assert_eq!(
        api.issues_url("closed"),
        "https://api.github.com/repos/o/r/issues?state=closed"
    );
    assert_eq!(api.create_url(), "https://api.github.com/repos/o/r/issues?state=all");
    assert_eq!(api.repo(), "GitHub o/r");
    assert_eq!(api.token(), "tok");
}

#[test]
fn gitlab_normalization_uses_iid() {
    let records = vec![gl_issue(11, "one", "opened"), gl_issue(12, "two", "closed")];
    let issues = gitlab::get_issues_from_records(&records);
    assert_eq!(issues.len(), 2);
    assert_eq!(issues[0].number, 11);
    assert_eq!(issues[0].title, "one");
    assert_eq!(issues[1].number, 12);
    assert_eq!(issues[1].state, "closed");
}

#[test]
fn gitlab_url_uses_configured_host() {
    let api = gitlab::GitLabAPI::new(
        GitLabConfig::new("git.example.org", "tok"),
        "o".to_string(),
        "r".to_string(),
    );
    assert_eq!(api.issues_url(), "https://git.example.org/api/v4/projects/o%2Fr/issues");
    assert_eq!(api.repo(), "GitLab o/r");
    assert_eq!(api.token(), "tok");
}

#[test]
fn gitlab_url_defaults_to_gitlab_com() {
    let api = gitlab::GitLabAPI::new(
        GitLabConfig::new("", "tok"),
        "o".to_string(),
        "r".to_string(),
    );
    assert_eq!(api.issues_url(), "https://gitlab.com/api/v4/projects/o%2Fr/issues");
}

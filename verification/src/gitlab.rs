//! The GitLab backend: the wire shapes of its project-issues responses
//! (API v4), the request URL with its configurable host, and the
//! normalization of wire records into `Issue`s (`iid` is the issue
//! number).

use vstd::prelude::*;

use crate::config::GitLabConfig;
use crate::issueapi::{Issue, IssueView};

verus! {

/// The author record embedded in GitLab responses; opaque to the engine.
pub struct Author {
    pub id: i64,
    pub name: String,
    pub username: String,
    pub state: String,
    pub avatar_url: String,
    pub web_url: String,
}

/// The time-tracking record of a GitLab issue; opaque to the engine.
pub struct TimeStats {
    pub time_estimate: i64,
    pub total_time_spent: i64,
    pub human_time_estimate: serde_json::Value,
    pub human_total_time_spent: serde_json::Value,
}

/// The task-list counters of a GitLab issue; opaque to the engine.
pub struct TaskCompletionStatus {
    pub count: i64,
    pub completed_count: i64,
}

/// The hyperlink record of a GitLab issue; opaque to the engine.
pub struct Links {
    pub self_field: String,
    pub notes: String,
    pub award_emoji: String,
    pub project: String,
}

/// The reference forms of a GitLab issue; opaque to the engine.
pub struct References {
    pub short: String,
    pub relative: String,
    pub full: String,
}

/// One issue of a GitLab project-issues response. Only `iid`, `title` and
/// `state` are read; the remaining fields pass through opaquely.
pub struct GitLabIssue {
    pub id: i64,
    pub iid: i64,
    pub project_id: i64,
    pub title: String,
    pub description: Option<String>,
    pub state: String,
    pub created_at: String,
    pub updated_at: String,
    pub closed_at: serde_json::Value,
    pub closed_by: serde_json::Value,
    pub labels: Vec<serde_json::Value>,
    pub milestone: serde_json::Value,
    pub assignees: Vec<serde_json::Value>,
    pub author: Author,
    pub assignee: serde_json::Value,
    pub user_notes_count: i64,
    pub merge_requests_count: i64,
    pub upvotes: i64,
    pub downvotes: i64,
    pub due_date: serde_json::Value,
    pub confidential: bool,
    pub discussion_locked: serde_json::Value,
    pub web_url: String,
    pub time_stats: TimeStats,
    pub task_completion_status: TaskCompletionStatus,
    pub has_tasks: bool,
    pub links: Links,
    pub references: References,
    pub moved_to_id: serde_json::Value,
}

/// The response shape of GitLab issue creation. Only `iid`, `title` and
/// `state` are read.
pub struct CreatedIssue {
    pub id: i64,
    pub iid: i64,
    pub project_id: i64,
    pub title: String,
    pub description: serde_json::Value,
    pub state: String,
    pub created_at: String,
    pub updated_at: String,
    pub closed_at: serde_json::Value,
    pub closed_by: serde_json::Value,
    pub labels: Vec<serde_json::Value>,
    pub milestone: serde_json::Value,
    pub assignees: Vec<serde_json::Value>,
    pub author: Author,
    pub assignee: serde_json::Value,
    pub user_notes_count: i64,
    pub merge_requests_count: i64,
    pub upvotes: i64,
    pub downvotes: i64,
    pub due_date: serde_json::Value,
    pub confidential: bool,
    pub discussion_locked: serde_json::Value,
    pub web_url: String,
    pub time_stats: TimeStats,
    pub task_completion_status: TaskCompletionStatus,
    pub has_tasks: bool,
    pub links: Links,
    pub references: References,
    pub subscribed: bool,
    pub moved_to_id: serde_json::Value,
}

/// What the engine reads of one listed GitLab issue.
pub ghost struct GitLabIssueView {
    pub iid: int,
    pub title: Seq<char>,
    pub state: Seq<char>,
}

impl View for GitLabIssue {
    type V = GitLabIssueView;

    open spec fn view(&self) -> GitLabIssueView {
        GitLabIssueView { iid: self.iid as int, title: self.title@, state: self.state@ }
    }
}

impl DeepView for GitLabIssue {
    type V = GitLabIssueView;

    open spec fn deep_view(&self) -> GitLabIssueView {
        self.view()
    }
}

/// The normalized form of the listed issues, in response order; `iid` is
/// the tracker-assigned number.
pub open spec fn gl_normalize(records: Seq<GitLabIssueView>) -> Seq<IssueView>
    decreases records.len(),
{
    if records.len() == 0 {
        Seq::empty()
    } else {
        let g = records.last();
        gl_normalize(records.drop_last()).push(
            IssueView { number: g.iid, title: g.title, state: g.state },
        )
    }
}

/// Normalizes one project-issues response.
pub fn get_issues_from_records(records: &Vec<GitLabIssue>) -> (r: Vec<Issue>)
    ensures
        r.deep_view() == gl_normalize(records.deep_view()),
{
    let mut issues: Vec<Issue> = Vec::new();
    let n: usize = records.len();
    let mut i: usize = 0;
    proof {
        assert(records.deep_view().take(0) =~= Seq::<GitLabIssueView>::empty());
        assert(issues.deep_view() =~= gl_normalize(records.deep_view().take(0)));
    }
    while i < n
        invariant
            i <= n,
            n == records@.len(),
            issues.deep_view() == gl_normalize(records.deep_view().take(i as int)),
        decreases n - i,
    {
        let ghost prefix = records.deep_view().take(i as int);
        let record = &records[i];
        proof {
            assert(records.deep_view().take(i + 1).drop_last() =~= prefix);
            assert(records.deep_view().take(i + 1).last() == record.deep_view());
        }
        let issue = Issue {
            number: record.iid,
            title: record.title.clone(),
            state: record.state.clone(),
        };
        let ghost prev = issues.deep_view();
        issues.push(issue);
        proof {
            assert(issues.deep_view() =~= prev.push(issue@));
        }
        i = i + 1;
    }
    proof {
        assert(records.deep_view().take(n as int) =~= records.deep_view());
    }
    issues
}

/// Normalizes the response of a successful issue creation.
pub fn issue_from_created(record: &CreatedIssue) -> (r: Issue)
    ensures
        r@.number == record.iid as int,
        r@.title == record.title@,
        r@.state == record.state@,
{
    Issue { number: record.iid, title: record.title.clone(), state: record.state.clone() }
}

/// The GitLab backend handle: the credential (host and token) and the
/// repository coordinates it lists and creates issues for.
pub struct GitLabAPI {
    config: GitLabConfig,
    owner: String,
    repo: String,
}

pub ghost struct GitLabApiView {
    pub host: Seq<char>,
    pub token: Seq<char>,
    pub owner: Seq<char>,
    pub repo: Seq<char>,
}

impl View for GitLabAPI {
    type V = GitLabApiView;

    closed spec fn view(&self) -> GitLabApiView {
        GitLabApiView {
            host: self.config.host@,
            token: self.config.token@,
            owner: self.owner@,
            repo: self.repo@,
        }
    }
}

/// The host the requests go to: the configured one, or `gitlab.com` for
/// the empty default-host sentinel.
pub open spec fn effective_host(host: Seq<char>) -> Seq<char> {
    if host.len() == 0 {
        "gitlab.com"@
    } else {
        host
    }
}

impl GitLabAPI {
    pub fn new(config: GitLabConfig, owner: String, repo: String) -> (r: GitLabAPI)
        ensures
            r@.host == config@.host,
            r@.token == config@.token,
            r@.owner == owner@,
            r@.repo == repo@,
    {
        GitLabAPI { config, owner, repo }
    }

    /// The diagnostic label `GitLab <owner>/<repo>`.
    pub fn repo(&self) -> (r: String)
        ensures
            r@ == "GitLab "@ + self@.owner + "/"@ + self@.repo,
    {
        let mut r = "GitLab ".to_owned();
        r.append(self.owner.as_str());
        r.append("/");
        r.append(self.repo.as_str());
        r
    }

    /// The project-issues URL, serving both listing and creation; the
    /// project path is URL-encoded as `<owner>%2F<repo>`.
    pub fn issues_url(&self) -> (r: String)
        ensures
            r@ == "https://"@ + effective_host(self@.host) + "/api/v4/projects/"@ + self@.owner
                + "%2F"@ + self@.repo + "/issues"@,
    {
        let mut r = "https://".to_owned();
        if self.config.host.as_str().unicode_len() == 0 {
            r.append("gitlab.com");
        } else {
            r.append(self.config.host.as_str());
        }
        r.append("/api/v4/projects/");
        r.append(self.owner.as_str());
        r.append("%2F");
        r.append(self.repo.as_str());
        r.append("/issues");
        r
    }

    /// The token for the `PRIVATE-TOKEN` header.
    pub fn token(&self) -> (r: &str)
        ensures
            r@ == self@.token,
    {
        self.config.token.as_str()
    }
}

} // verus!

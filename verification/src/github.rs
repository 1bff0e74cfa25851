//! The GitHub backend: the wire shapes of its issue-listing and
//! issue-creation responses, the request URLs, the `Link` response-header
//! pagination rules, and the normalization of wire records into `Issue`s
//! (filtering out pull requests, which the listing endpoint also returns).

use vstd::prelude::*;

use crate::config::GitHubConfig;
use crate::issueapi::{Issue, IssueView};
use crate::strings::{is_match_at, match_at, str_eq};

verus! {

/// One issue of a GitHub issue-listing response, per the REST v3 shape.
/// Only `number`, `title`, `state` and the presence of `pull_request` are
/// read; the remaining fields pass through opaquely.
pub struct GitHubIssue {
    pub url: String,
    pub repository_url: String,
    pub labels_url: String,
    pub comments_url: String,
    pub events_url: String,
    pub html_url: String,
    pub id: i64,
    pub node_id: String,
    pub number: i64,
    pub title: String,
    pub user: User,
    pub labels: Vec<serde_json::Value>,
    pub state: String,
    pub locked: bool,
    pub assignee: serde_json::Value,
    pub assignees: Vec<serde_json::Value>,
    pub milestone: serde_json::Value,
    pub comments: i64,
    pub created_at: String,
    pub updated_at: String,
    pub closed_at: serde_json::Value,
    pub author_association: String,
    pub body: serde_json::Value,
    pub pull_request: Option<serde_json::Value>,
}

/// The user record embedded in GitHub responses; opaque to the engine.
pub struct User {
    pub login: String,
    pub id: i64,
    pub node_id: String,
    pub avatar_url: String,
    pub gravatar_id: String,
    pub url: String,
    pub html_url: String,
    pub followers_url: String,
    pub following_url: String,
    pub gists_url: String,
    pub starred_url: String,
    pub subscriptions_url: String,
    pub organizations_url: String,
    pub repos_url: String,
    pub events_url: String,
    pub received_events_url: String,
    pub type_field: String,
    pub site_admin: bool,
}

/// The response shape of GitHub issue creation. Only `number`, `title`
/// and `state` are read.
pub struct CreatedIssue {
    pub url: String,
    pub repository_url: String,
    pub labels_url: String,
    pub comments_url: String,
    pub events_url: String,
    pub html_url: String,
    pub id: i64,
    pub node_id: String,
    pub number: i64,
    pub title: String,
    pub user: User,
    pub labels: Vec<serde_json::Value>,
    pub state: String,
    pub locked: bool,
    pub assignee: serde_json::Value,
    pub assignees: Vec<serde_json::Value>,
    pub milestone: serde_json::Value,
    pub comments: i64,
    pub created_at: String,
    pub updated_at: String,
    pub closed_at: serde_json::Value,
    pub author_association: String,
    pub body: serde_json::Value,
    pub closed_by: serde_json::Value,
}

/// What the engine reads of one listed GitHub issue.
pub ghost struct GitHubIssueView {
    pub number: int,
    pub title: Seq<char>,
    pub state: Seq<char>,
    pub is_pull_request: bool,
}

impl View for GitHubIssue {
    type V = GitHubIssueView;

    open spec fn view(&self) -> GitHubIssueView {
        GitHubIssueView {
            number: self.number as int,
            title: self.title@,
            state: self.state@,
            is_pull_request: self.pull_request is Some,
        }
    }
}

impl DeepView for GitHubIssue {
    type V = GitHubIssueView;

    open spec fn deep_view(&self) -> GitHubIssueView {
        self.view()
    }
}

/// The normalized form of the listed issues: pull requests dropped, the
/// rest mapped to `Issue` in response order.
pub open spec fn gh_normalize(records: Seq<GitHubIssueView>) -> Seq<IssueView>
    decreases records.len(),
{
    if records.len() == 0 {
        Seq::empty()
    } else {
        let prev = gh_normalize(records.drop_last());
        let g = records.last();
        if g.is_pull_request {
            prev
        } else {
            prev.push(IssueView { number: g.number, title: g.title, state: g.state })
        }
    }
}

/// Normalizes one page of listed issues, dropping pull requests (the
/// listing endpoint returns both; a `pull_request` field marks the
/// latter).
pub fn get_issues_from_records(records: &Vec<GitHubIssue>) -> (r: Vec<Issue>)
    ensures
        r.deep_view() == gh_normalize(records.deep_view()),
{
    let mut issues: Vec<Issue> = Vec::new();
    let n: usize = records.len();
    let mut i: usize = 0;
    proof {
        assert(records.deep_view().take(0) =~= Seq::<GitHubIssueView>::empty());
        assert(issues.deep_view() =~= gh_normalize(records.deep_view().take(0)));
    }
    while i < n
        invariant
            i <= n,
            n == records@.len(),
            issues.deep_view() == gh_normalize(records.deep_view().take(i as int)),
        decreases n - i,
    {
        let ghost prefix = records.deep_view().take(i as int);
        let record = &records[i];
        proof {
            assert(records.deep_view().take(i + 1).drop_last() =~= prefix);
            assert(records.deep_view().take(i + 1).last() == record.deep_view());
        }
        match &record.pull_request {
            Some(_) => {},
            None => {
                let issue = Issue {
                    number: record.number,
                    title: record.title.clone(),
                    state: record.state.clone(),
                };
                let ghost prev = issues.deep_view();
                issues.push(issue);
                proof {
                    assert(issues.deep_view() =~= prev.push(issue@));
                }
            },
        }
        i = i + 1;
    }
    proof {
        assert(records.deep_view().take(n as int) =~= records.deep_view());
    }
    issues
}

/// Normalizes the response of a successful issue creation.
pub fn issue_from_created(record: &CreatedIssue) -> (r: Issue)
    ensures
        r@.number == record.number as int,
        r@.title == record.title@,
        r@.state == record.state@,
{
    Issue { number: record.number, title: record.title.clone(), state: record.state.clone() }
}

/// A character the pagination parser accepts inside a `<...>` link
/// target: ASCII letters, digits, and the URL punctuation that GitHub's
/// paging links use.
pub open spec fn is_url_char(c: char) -> bool {
    ('a' <= c && c <= 'z') || ('A' <= c && c <= 'Z') || ('0' <= c && c <= '9') || c == '_' || c
        == '.' || c == ':' || c == '?' || c == '=' || c == '&' || c == '/'
}

fn is_url_char_exec(c: char) -> (r: bool)
    ensures
        r == is_url_char(c),
{
    ('a' <= c && c <= 'z') || ('A' <= c && c <= 'Z') || ('0' <= c && c <= '9') || c == '_' || c
        == '.' || c == ':' || c == '?' || c == '=' || c == '&' || c == '/'
}

/// The index of the first non-URL character at or after `i`.
pub open spec fn skip_url_spec(s: Seq<char>, i: int) -> int
    decreases s.len() - i,
{
    if 0 <= i && i < s.len() && is_url_char(s[i]) {
        skip_url_spec(s, i + 1)
    } else {
        i
    }
}

fn skip_url(s: &str, from: usize, n: usize) -> (r: usize)
    requires
        n == s@.len(),
        from <= n,
    ensures
        r == skip_url_spec(s@, from as int),
        from <= r <= n,
{
    let mut i: usize = from;
    while i < n && is_url_char_exec(s.get_char(i))
        invariant
            from <= i <= n,
            n == s@.len(),
            skip_url_spec(s@, from as int) == skip_url_spec(s@, i as int),
        decreases n - i,
    {
        i = i + 1;
    }
    i
}

/// The first link target `<url>` whose closing bracket is followed by the
/// given marker (such as `>; rel="next"`), scanning from `i`.
pub open spec fn find_rel_url_from(s: Seq<char>, marker: Seq<char>, i: int) -> Option<Seq<char>>
    decreases s.len() - i,
{
    if i < 0 || i >= s.len() {
        None
    } else if s[i] == '<' && skip_url_spec(s, i + 1) > i + 1 && match_at(
        s,
        marker,
        skip_url_spec(s, i + 1),
    ) {
        Some(s.subrange(i + 1, skip_url_spec(s, i + 1)))
    } else {
        find_rel_url_from(s, marker, i + 1)
    }
}

/// The URL of the `rel="next"` link of a `Link` response header, if any.
pub open spec fn next_url_spec(header: Seq<char>) -> Option<Seq<char>> {
    find_rel_url_from(header, ">; rel=\"next\""@, 0)
}

/// The URL of the `rel="last"` link of a `Link` response header, if any.
pub open spec fn last_url_spec(header: Seq<char>) -> Option<Seq<char>> {
    find_rel_url_from(header, ">; rel=\"last\""@, 0)
}

proof fn lemma_find_rel_url_len(s: Seq<char>, marker: Seq<char>, i: int)
    requires
        0 <= i,
    ensures
        find_rel_url_from(s, marker, i) is Some ==> find_rel_url_from(s, marker, i).unwrap().len()
            > 0,
    decreases s.len() - i,
{
    if 0 <= i && i < s.len() {
        if !(s[i] == '<' && skip_url_spec(s, i + 1) > i + 1 && match_at(
            s,
            marker,
            skip_url_spec(s, i + 1),
        )) {
            lemma_find_rel_url_len(s, marker, i + 1);
        }
    }
}

fn find_rel_url(s: &str, marker: &str) -> (r: Option<String>)
    ensures
        (r is Some) == (find_rel_url_from(s@, marker@, 0) is Some),
        r is Some ==> r.unwrap()@ == find_rel_url_from(s@, marker@, 0).unwrap(),
{
    let n: usize = s.unicode_len();
    let m: usize = marker.unicode_len();
    let mut i: usize = 0;
    while i < n
        invariant
            i <= n,
            n == s@.len(),
            m == marker@.len(),
            find_rel_url_from(s@, marker@, 0) == find_rel_url_from(s@, marker@, i as int),
        decreases n - i,
    {
        if s.get_char(i) == '<' {
            let e: usize = skip_url(s, i + 1, n);
            if e > i + 1 && is_match_at(s, marker, e, n, m) {
                let url = s.substring_char(i + 1, e).to_owned();
                return Some(url);
            }
        }
        i = i + 1;
    }
    None
}

/// Parses a `Link` response header into the `rel="next"` and `rel="last"`
/// URLs, the empty string standing for an absent link.
pub fn parse_link_header(link_header: &str) -> (r: (String, String))
    ensures
        match next_url_spec(link_header@) {
            Some(u) => r.0@ == u,
            None => r.0@.len() == 0,
        },
        match last_url_spec(link_header@) {
            Some(u) => r.1@ == u,
            None => r.1@.len() == 0,
        },
{
    let next = find_rel_url(link_header, ">; rel=\"next\"");
    let last = find_rel_url(link_header, ">; rel=\"last\"");
    let next_s = match next {
        Some(u) => u,
        None => String::new(),
    };
    let last_s = match last {
        Some(u) => u,
        None => String::new(),
    };
    (next_s, last_s)
}

/// The pagination decision: the URL to fetch next, or `None` when the
/// listing is exhausted. The loop continues exactly when the header
/// offers a `rel="next"` link and the page just fetched is not the
/// `rel="last"` one (an absent `rel="last"` counts as the empty URL), so
/// a `next` that keeps pointing at the `last` page cannot refetch it.
pub open spec fn next_page_spec(current: Seq<char>, header: Seq<char>) -> Option<Seq<char>> {
    let last = match last_url_spec(header) {
        Some(u) => u,
        None => Seq::empty(),
    };
    match next_url_spec(header) {
        Some(next) => if current != last {
            Some(next)
        } else {
            None
        },
        None => None,
    }
}

/// Decides, from the URL just fetched and its `Link` response header,
/// which page to request next.
pub fn next_page_url(current_url: &str, link_header: &str) -> (r: Option<String>)
    ensures
        (r is Some) == (next_page_spec(current_url@, link_header@) is Some),
        r is Some ==> r.unwrap()@ == next_page_spec(current_url@, link_header@).unwrap(),
{
    let (next, last) = parse_link_header(link_header);
    proof {
        lemma_find_rel_url_len(link_header@, ">; rel=\"next\""@, 0);
        if last_url_spec(link_header@) is None {
            assert(last@ =~= Seq::<char>::empty());
        }
        if next_url_spec(link_header@) is None {
            assert(next@ =~= Seq::<char>::empty());
        }
    }
    if next.as_str().unicode_len() > 0 && !str_eq(current_url, last.as_str()) {
        Some(next)
    } else {
        None
    }
}

/// The GitHub backend handle: the credential and the repository
/// coordinates it lists and creates issues for.
pub struct GitHubAPI {
    config: GitHubConfig,
    owner: String,
    repo: String,
}

pub ghost struct GitHubApiView {
    pub token: Seq<char>,
    pub owner: Seq<char>,
    pub repo: Seq<char>,
}

impl View for GitHubAPI {
    type V = GitHubApiView;

    closed spec fn view(&self) -> GitHubApiView {
        GitHubApiView { token: self.config.token@, owner: self.owner@, repo: self.repo@ }
    }
}

impl GitHubAPI {
    pub fn new(config: GitHubConfig, owner: String, repo: String) -> (r: GitHubAPI)
        ensures
            r@.token == config@.token,
            r@.owner == owner@,
            r@.repo == repo@,
    {
        GitHubAPI { config, owner, repo }
    }

    /// The diagnostic label `GitHub <owner>/<repo>`.
    pub fn repo(&self) -> (r: String)
        ensures
            r@ == "GitHub "@ + self@.owner + "/"@ + self@.repo,
    {
        let mut r = "GitHub ".to_owned();
        r.append(self.owner.as_str());
        r.append("/");
        r.append(self.repo.as_str());
        r
    }

    /// The issue-listing URL for a state filter (`open`, `closed` or
    /// `all`); the same endpoint serves creation.
    pub fn issues_url(&self, state: &str) -> (r: String)
        ensures
            r@ == "https://api.github.com/repos/"@ + self@.owner + "/"@ + self@.repo
                + "/issues?state="@ + state@,
    {
        let mut r = "https://api.github.com/repos/".to_owned();
        r.append(self.owner.as_str());
        r.append("/");
        r.append(self.repo.as_str());
        r.append("/issues?state=");
        r.append(state);
        r
    }

    /// The issue-creation URL.
    pub fn create_url(&self) -> (r: String)
        ensures
            r@ == "https://api.github.com/repos/"@ + self@.owner + "/"@ + self@.repo
                + "/issues?state="@ + "all"@,
    {
        self.issues_url("all")
    }

    /// The bearer token for the `Authorization: token <t>` header.
    pub fn token(&self) -> (r: &str)
        ensures
            r@ == self@.token,
    {
        self.config.token.as_str()
    }
}

} // verus!

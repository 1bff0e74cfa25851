//! Choosing the tracker backend for a run: parsing the git remote origin
//! URL into host, owner and repository, and selecting the configured
//! provider for that host.

use vstd::prelude::*;

use crate::config::{Config, GitLabConfigView};
use crate::github::GitHubAPI;
use crate::gitlab::GitLabAPI;
use crate::iniparser::{find_section_spec, section_get_spec, Ini};
use crate::strings::{
    find_char, find_char_from, is_match_at, lemma_rfind_char, match_at, rfind_char,
    rfind_char_exec, skip_digits, skip_digits_spec, str_eq,
};

verus! {

/// The index of the first `:` or `/` at or after `i`: the end of the host
/// part of a URL.
pub open spec fn host_end_spec(s: Seq<char>, i: int) -> int
    decreases s.len() - i,
{
    if 0 <= i && i < s.len() && s[i] != ':' && s[i] != '/' {
        host_end_spec(s, i + 1)
    } else {
        i
    }
}

fn host_end(s: &str, from: usize, n: usize) -> (r: usize)
    requires
        n == s@.len(),
        from <= n,
    ensures
        r == host_end_spec(s@, from as int),
        from <= r <= n,
{
    let mut i: usize = from;
    while i < n && s.get_char(i) != ':' && s.get_char(i) != '/'
        invariant
            from <= i <= n,
            n == s@.len(),
            host_end_spec(s@, from as int) == host_end_spec(s@, i as int),
        decreases n - i,
    {
        i = i + 1;
    }
    i
}

/// Splits `host[:port]/path` into host and path: the host runs to the
/// first `:` or `/` and must not be empty; a `:` may carry port digits
/// and must be followed by `/`.
pub open spec fn hostport_split(r: Seq<char>) -> Option<(Seq<char>, Seq<char>)> {
    let h = host_end_spec(r, 0);
    if h == 0 || h >= r.len() {
        None
    } else if r[h] == '/' {
        Some((r.take(h), r.skip(h + 1)))
    } else {
        let p = skip_digits_spec(r, h + 1);
        if p < r.len() && r[p] == '/' {
            Some((r.take(h), r.skip(p + 1)))
        } else {
            None
        }
    }
}

/// Splits an `owner/repo.git` path: it must end in `.git`, and the stem
/// must hold a `/` with text on both sides. The owner may itself contain
/// `/` (nested groups); the repository is the last segment.
pub open spec fn owner_repo_split(path: Seq<char>) -> Option<(Seq<char>, Seq<char>)> {
    if path.len() < 4 || !match_at(path, ".git"@, path.len() - 4) {
        None
    } else {
        let stem = path.take(path.len() - 4);
        match rfind_char(stem, '/') {
            None => None,
            Some(i) => if 0 < i && i + 1 < stem.len() {
                Some((stem.take(i), stem.skip(i + 1)))
            } else {
                None
            },
        }
    }
}

/// The parse of a git remote origin URL into host, owner and repository.
/// Three shapes are recognized: `ssh://git@host[:port]/owner/repo.git`,
/// `https://host[:port]/owner/repo.git`, and `git@host:owner/repo.git`.
pub open spec fn parse_git_url_spec(url: Seq<char>) -> Option<(Seq<char>, Seq<char>, Seq<char>)> {
    if match_at(url, "ssh://"@, 0) {
        if match_at(url, "ssh://git@"@, 0) {
            match hostport_split(url.skip("ssh://git@"@.len() as int)) {
                None => None,
                Some(hp) => match owner_repo_split(hp.1) {
                    None => None,
                    Some(or) => Some((hp.0, or.0, or.1)),
                },
            }
        } else {
            None
        }
    } else if match_at(url, "https://"@, 0) {
        match hostport_split(url.skip("https://"@.len() as int)) {
            None => None,
            Some(hp) => match owner_repo_split(hp.1) {
                None => None,
                Some(or) => Some((hp.0, or.0, or.1)),
            },
        }
    } else if match_at(url, "git@"@, 0) {
        let r = url.skip("git@"@.len() as int);
        match find_char_from(r, ':', 0) {
            None => None,
            Some(h) => if h == 0 {
                None
            } else {
                match owner_repo_split(r.skip(h + 1)) {
                    None => None,
                    Some(or) => Some((r.take(h), or.0, or.1)),
                }
            },
        }
    } else {
        None
    }
}

/// Splits the path part `owner/repo.git`; `None` exactly when
/// `owner_repo_split` yields none.
fn owner_repo_exec(path: &str) -> (r: Option<(String, String)>)
    ensures
        (r is Some) == (owner_repo_split(path@) is Some),
        r is Some ==> r.unwrap().0@ == owner_repo_split(path@).unwrap().0 && r.unwrap().1@
            == owner_repo_split(path@).unwrap().1,
{
    let n: usize = path.unicode_len();
    if n < 4 {
        return None;
    }
    if !is_match_at(path, ".git", n - 4, n, ".git".unicode_len()) {
        return None;
    }
    let stem_len: usize = n - 4;
    let ghost stem = path@.take(stem_len as int);
    let stem_str = path.substring_char(0, stem_len);
    proof {
        assert(stem_str@ =~= stem);
    }
    let found = rfind_char_exec(stem_str, '/', stem_len);
    proof {
        lemma_rfind_char(stem, '/');
    }
    match found {
        None => None,
        Some(i) => {
            if 0 < i && i + 1 < stem_len {
                let owner = path.substring_char(0, i).to_owned();
                let repo = path.substring_char(i + 1, stem_len).to_owned();
                proof {
                    assert(owner@ =~= stem.take(i as int));
                    assert(repo@ =~= stem.skip(i + 1));
                }
                Some((owner, repo))
            } else {
                None
            }
        },
    }
}

/// Splits `host[:port]/path`; `None` exactly when `hostport_split`
/// yields none.
fn hostport_exec(s: &str, from: usize) -> (r: Option<(String, String)>)
    requires
        from <= s@.len(),
    ensures
        (r is Some) == (hostport_split(s@.skip(from as int)) is Some),
        r is Some ==> r.unwrap().0@ == hostport_split(s@.skip(from as int)).unwrap().0 && r.unwrap(
        ).1@ == hostport_split(s@.skip(from as int)).unwrap().1,
{
    let ghost rr = s@.skip(from as int);
    let n: usize = s.unicode_len();
    let h: usize = host_end(s, from, n);
    proof {
        assert forall|k: int| 0 <= k < rr.len() implies rr[k] == s@[from + k] by {}
        lemma_host_end_skip(s@, from as int, from as int);
        assert(host_end_spec(rr, 0) == h - from);
    }
    if h == from || h >= n {
        return None;
    }
    if s.get_char(h) == '/' {
        let host = s.substring_char(from, h).to_owned();
        let path = s.substring_char(h + 1, n).to_owned();
        proof {
            assert(host@ =~= rr.take(h - from));
            assert(path@ =~= rr.skip(h - from + 1));
        }
        Some((host, path))
    } else {
        let p: usize = skip_digits(s, h + 1, n);
        proof {
            lemma_skip_digits_skip(s@, (h + 1) as int, from as int);
        }
        if p < n && s.get_char(p) == '/' {
            let host = s.substring_char(from, h).to_owned();
            let path = s.substring_char(p + 1, n).to_owned();
            proof {
                assert(host@ =~= rr.take(h - from));
                assert(path@ =~= rr.skip(p - from + 1));
            }
            Some((host, path))
        } else {
            None
        }
    }
}

proof fn lemma_host_end_skip(s: Seq<char>, a: int, i: int)
    requires
        0 <= a <= i <= s.len(),
    ensures
        host_end_spec(s.skip(a), i - a) == host_end_spec(s, i) - a,
    decreases s.len() - i,
{
    assert forall|k: int| 0 <= k < s.skip(a).len() implies s.skip(a)[k] == s[a + k] by {}
    if i < s.len() && s[i] != ':' && s[i] != '/' {
        lemma_host_end_skip(s, a, i + 1);
    }
}

proof fn lemma_skip_digits_skip(s: Seq<char>, i: int, a: int)
    requires
        0 <= a <= i <= s.len(),
    ensures
        skip_digits_spec(s.skip(a), i - a) == skip_digits_spec(s, i) - a,
    decreases s.len() - i,
{
    assert forall|k: int| 0 <= k < s.skip(a).len() implies s.skip(a)[k] == s[a + k] by {}
    if i < s.len() && crate::strings::is_digit_char(s[i]) {
        lemma_skip_digits_skip(s, i + 1, a);
    }
}

/// Parses a git remote origin URL into `(host, owner, repo)`.
pub fn parse_git_config(url: &str) -> (r: Result<(String, String, String), String>)
    ensures
        (r is Ok) == (parse_git_url_spec(url@) is Some),
        r is Ok ==> r->Ok_0.0@ == parse_git_url_spec(url@).unwrap().0 && r->Ok_0.1@
            == parse_git_url_spec(url@).unwrap().1 && r->Ok_0.2@ == parse_git_url_spec(
            url@,
        ).unwrap().2,
        r is Err ==> r->Err_0@ == "Could not extract origin URL"@,
{
    let n: usize = url.unicode_len();
    if is_match_at(url, "ssh://", 0, n, "ssh://".unicode_len()) {
        if is_match_at(url, "ssh://git@", 0, n, "ssh://git@".unicode_len()) {
            let m: usize = "ssh://git@".unicode_len();
            match hostport_exec(url, m) {
                None => Err("Could not extract origin URL".to_owned()),
                Some((host, path)) => match owner_repo_exec(path.as_str()) {
                    None => Err("Could not extract origin URL".to_owned()),
                    Some((owner, repo)) => Ok((host, owner, repo)),
                },
            }
        } else {
            Err("Could not extract origin URL".to_owned())
        }
    } else if is_match_at(url, "https://", 0, n, "https://".unicode_len()) {
        let m: usize = "https://".unicode_len();
        match hostport_exec(url, m) {
            None => Err("Could not extract origin URL".to_owned()),
            Some((host, path)) => match owner_repo_exec(path.as_str()) {
                None => Err("Could not extract origin URL".to_owned()),
                Some((owner, repo)) => Ok((host, owner, repo)),
            },
        }
    } else if is_match_at(url, "git@", 0, n, "git@".unicode_len()) {
        let m: usize = "git@".unicode_len();
        let ghost rr = url@.skip(m as int);
        let found = find_char(url, ':', m, n);
        proof {
            assert forall|k: int| 0 <= k < rr.len() implies rr[k] == url@[m + k] by {}
            lemma_find_char_skip_off(url@, ':', m as int, m as int);
        }
        proof {
            crate::strings::lemma_find_char_from(url@, ':', m as int);
        }
        match found {
            None => Err("Could not extract origin URL".to_owned()),
            Some(h) => {
                if h == m {
                    Err("Could not extract origin URL".to_owned())
                } else {
                    let path = url.substring_char(h + 1, n).to_owned();
                    proof {
                        assert(path@ =~= rr.skip(h - m + 1));
                    }
                    match owner_repo_exec(path.as_str()) {
                        None => Err("Could not extract origin URL".to_owned()),
                        Some((owner, repo)) => {
                            let host = url.substring_char(m, h).to_owned();
                            proof {
                                assert(host@ =~= rr.take(h - m));
                            }
                            Ok((host, owner, repo))
                        },
                    }
                }
            },
        }
    } else {
        Err("Could not extract origin URL".to_owned())
    }
}

proof fn lemma_find_char_skip_off(s: Seq<char>, c: char, a: int, i: int)
    requires
        0 <= a <= i <= s.len(),
    ensures
        match find_char_from(s, c, i) {
            Some(j) => find_char_from(s.skip(a), c, i - a) == Some(j - a),
            None => find_char_from(s.skip(a), c, i - a) is None,
        },
    decreases s.len() - i,
{
    assert forall|k: int| 0 <= k < s.skip(a).len() implies s.skip(a)[k] == s[a + k] by {}
    if i < s.len() && s[i] != c {
        lemma_find_char_skip_off(s, c, a, i + 1);
    }
}

/// The coordinates of the tracked repository, read from the parsed
/// `.git/config`: the `url` of the `remote "origin"` section, parsed as a
/// git URL.
pub fn get_git_config_host_owner_repo(ini: &Ini) -> (r: Result<(String, String, String), String>)
    ensures
        match find_section_spec(ini@, "remote \"origin\""@) {
            None => r is Err && r->Err_0@ == "The git repo does not have an origin remote."@,
            Some(sec) => match section_get_spec(sec.keys, "url"@) {
                None => r is Err && r->Err_0@ == "The git repo origin remote url does not exist."@,
                Some(url) => ((r is Ok) == (parse_git_url_spec(url) is Some)) && (r is Ok
                    ==> r->Ok_0.0@ == parse_git_url_spec(url).unwrap().0 && r->Ok_0.1@
                    == parse_git_url_spec(url).unwrap().1 && r->Ok_0.2@ == parse_git_url_spec(
                    url,
                ).unwrap().2),
            },
        },
{
    let section = match ini.section("remote \"origin\"") {
        Ok(section) => section,
        Err(_) => {
            return Err("The git repo does not have an origin remote.".to_owned());
        },
    };
    let url = match section.get("url") {
        Ok(url) => url,
        Err(_) => {
            return Err("The git repo origin remote url does not exist.".to_owned());
        },
    };
    parse_git_config(url)
}

/// The chosen tracker backend, selected once at startup.
pub enum ProviderApi {
    GitHub(GitHubAPI),
    GitLab(GitLabAPI),
}

/// What the selection decides: which backend serves the run, with which
/// credential and repository coordinates.
pub ghost enum ProviderSelView {
    GitHub { token: Seq<char>, owner: Seq<char>, repo: Seq<char> },
    GitLab { host: Seq<char>, token: Seq<char>, owner: Seq<char>, repo: Seq<char> },
}

impl View for ProviderApi {
    type V = ProviderSelView;

    open spec fn view(&self) -> ProviderSelView {
        match self {
            ProviderApi::GitHub(api) => ProviderSelView::GitHub {
                token: api@.token,
                owner: api@.owner,
                repo: api@.repo,
            },
            ProviderApi::GitLab(api) => ProviderSelView::GitLab {
                host: api@.host,
                token: api@.token,
                owner: api@.owner,
                repo: api@.repo,
            },
        }
    }
}

/// The first configured GitLab credential for this host, if any.
pub open spec fn find_gitlab_spec(configs: Seq<GitLabConfigView>, host: Seq<char>) -> Option<
    GitLabConfigView,
>
    decreases configs.len(),
{
    if configs.len() == 0 {
        None
    } else if configs[0].host == host {
        Some(configs[0])
    } else {
        find_gitlab_spec(configs.drop_first(), host)
    }
}

/// The backend that the configuration selects for a host: GitHub for
/// `github.com` when a GitHub credential exists; the default-host GitLab
/// credential for `gitlab.com`; the matching GitLab credential for any
/// other host.
pub open spec fn select_provider_spec(
    cfg: crate::config::ConfigView,
    host: Seq<char>,
    owner: Seq<char>,
    repo: Seq<char>,
) -> Option<ProviderSelView> {
    if host == "github.com"@ {
        match cfg.github {
            Some(gh) => Some(ProviderSelView::GitHub { token: gh.token, owner, repo }),
            None => None,
        }
    } else {
        let wanted = if host == "gitlab.com"@ {
            Seq::<char>::empty()
        } else {
            host
        };
        match find_gitlab_spec(cfg.gitlab, wanted) {
            Some(gl) => Some(
                ProviderSelView::GitLab { host: gl.host, token: gl.token, owner, repo },
            ),
            None => None,
        }
    }
}

fn find_gitlab(configs: &Vec<crate::config::GitLabConfig>, host: &str) -> (r: Option<
    crate::config::GitLabConfig,
>)
    ensures
        (r is Some) == (find_gitlab_spec(configs.deep_view(), host@) is Some),
        r is Some ==> r.unwrap()@ == find_gitlab_spec(configs.deep_view(), host@).unwrap(),
{
    let n: usize = configs.len();
    let mut i: usize = 0;
    proof {
        assert(configs.deep_view().skip(0) =~= configs.deep_view());
    }
    while i < n
        invariant
            i <= n,
            n == configs@.len(),
            find_gitlab_spec(configs.deep_view(), host@) == find_gitlab_spec(
                configs.deep_view().skip(i as int),
                host@,
            ),
        decreases n - i,
    {
        proof {
            assert(configs.deep_view().skip(i as int)[0] == configs.deep_view()[i as int]);
            assert(configs.deep_view().skip(i as int).drop_first() =~= configs.deep_view().skip(
                i + 1,
            ));
        }
        if str_eq(configs[i].host.as_str(), host) {
            let c = &configs[i];
            return Some(crate::config::GitLabConfig::new(c.host.as_str(), c.token.as_str()));
        }
        i = i + 1;
    }
    proof {
        assert(configs.deep_view().skip(n as int) =~= Seq::<GitLabConfigView>::empty());
    }
    None
}

/// Selects the tracker backend for the repository's host, or fails when
/// no credential is configured for it.
pub fn get_project_api(config: &Config, host: &str, owner: &str, repo: &str) -> (r: Result<
    ProviderApi,
    String,
>)
    ensures
        (r is Ok) == (select_provider_spec(config@, host@, owner@, repo@) is Some),
        r is Ok ==> r->Ok_0@ == select_provider_spec(config@, host@, owner@, repo@).unwrap(),
{
    if str_eq(host, "github.com") {
        match &config.github {
            Some(gh) => {
                let api = GitHubAPI::new(
                    crate::config::GitHubConfig::new(gh.token.as_str()),
                    owner.to_owned(),
                    repo.to_owned(),
                );
                Ok(ProviderApi::GitHub(api))
            },
            None => Err(no_remote_message()),
        }
    } else {
        let found = if str_eq(host, "gitlab.com") {
            find_gitlab(&config.gitlab, "")
        } else {
            find_gitlab(&config.gitlab, host)
        };
        proof {
            reveal_strlit("");
            if host@ == "gitlab.com"@ {
                assert(""@ =~= Seq::<char>::empty());
            }
        }
        match found {
            Some(gl) => {
                let api = GitLabAPI::new(gl, owner.to_owned(), repo.to_owned());
                Ok(ProviderApi::GitLab(api))
            },
            None => Err(no_remote_message()),
        }
    }
}

fn no_remote_message() -> (r: String)
    ensures
        r@
            == "No valid GitHub or GitLab remote origin found or token not specified. Check README.md how to set up issuefer."@,
{
    "No valid GitHub or GitLab remote origin found or token not specified. Check README.md how to set up issuefer.".to_owned()
}

} // verus!

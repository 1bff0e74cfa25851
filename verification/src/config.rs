//! Per-host tracker credentials and general options, loaded either from an
//! INI-style configuration file or from environment values that the caller
//! reads and hands in.

use vstd::prelude::*;

use crate::iniparser::{section_get_spec, Ini, SectionView};
use crate::strings::{split_char, split_char_spec, str_eq};

verus! {

/// The GitHub credential: a bearer token.
#[derive(Debug, Clone)]
pub struct GitHubConfig {
    pub token: String,
}

pub ghost struct GitHubConfigView {
    pub token: Seq<char>,
}

impl View for GitHubConfig {
    type V = GitHubConfigView;

    open spec fn view(&self) -> GitHubConfigView {
        GitHubConfigView { token: self.token@ }
    }
}

impl DeepView for GitHubConfig {
    type V = GitHubConfigView;

    open spec fn deep_view(&self) -> GitHubConfigView {
        self.view()
    }
}

impl GitHubConfig {
    pub fn new(token: &str) -> (r: GitHubConfig)
        ensures
            r@.token == token@,
    {
        GitHubConfig { token: token.to_owned() }
    }

    /// Builds the GitHub credential from the value of the `GITHUB_TOKEN`
    /// environment variable, when it is set.
    pub fn from_env(github_token: Option<&str>) -> (r: Option<GitHubConfig>)
        ensures
            (r is Some) == (github_token is Some),
            r is Some ==> r.unwrap()@.token == github_token.unwrap()@,
    {
        match github_token {
            Some(token) => Some(GitHubConfig::new(token)),
            None => None,
        }
    }
}

/// One GitLab credential: the instance host (empty for the default
/// `gitlab.com`) and its token.
#[derive(Debug, Clone)]
pub struct GitLabConfig {
    pub host: String,
    pub token: String,
}

pub ghost struct GitLabConfigView {
    pub host: Seq<char>,
    pub token: Seq<char>,
}

impl View for GitLabConfig {
    type V = GitLabConfigView;

    open spec fn view(&self) -> GitLabConfigView {
        GitLabConfigView { host: self.host@, token: self.token@ }
    }
}

impl DeepView for GitLabConfig {
    type V = GitLabConfigView;

    open spec fn deep_view(&self) -> GitLabConfigView {
        self.view()
    }
}

/// Some entry of the list already claims this host.
pub open spec fn has_gitlab_host(configs: Seq<GitLabConfigView>, host: Seq<char>) -> bool {
    exists|i: int| 0 <= i < configs.len() && configs[i].host == host
}

/// The GitLab entry taken from one `host:token` segment of the
/// `GITLAB_TOKEN` environment value: a plain segment is a token for the
/// default host (overridden by `GITLAB_HOST` when set), a two-part
/// segment names its host, and anything else is malformed.
pub open spec fn gitlab_segment_spec(seg: Seq<char>, default_host: Seq<char>) -> Option<
    GitLabConfigView,
> {
    let parts = split_char_spec(seg, ':');
    if parts.len() == 1 {
        Some(GitLabConfigView { host: default_host, token: parts[0] })
    } else if parts.len() == 2 {
        Some(GitLabConfigView { host: parts[0], token: parts[1] })
    } else {
        None
    }
}

/// The GitLab entries of the first `upto` segments; `None` when any of
/// them is malformed. A segment whose host an earlier entry already
/// claims is skipped, keeping the hosts distinct.
pub open spec fn gitlab_configs_spec(
    segs: Seq<Seq<char>>,
    default_host: Seq<char>,
    upto: int,
) -> Option<Seq<GitLabConfigView>>
    decreases upto,
{
    if upto <= 0 {
        Some(Seq::empty())
    } else {
        match gitlab_configs_spec(segs, default_host, upto - 1) {
            None => None,
            Some(prev) => match gitlab_segment_spec(segs[upto - 1], default_host) {
                None => None,
                Some(c) => if has_gitlab_host(prev, c.host) {
                    Some(prev)
                } else {
                    Some(prev.push(c))
                },
            },
        }
    }
}

/// The parse of the whole `GITLAB_TOKEN` environment value: its
/// `;`-separated segments, each a credential.
pub open spec fn gitlab_env_spec(env: Seq<char>, default_host: Seq<char>) -> Option<
    Seq<GitLabConfigView>,
> {
    let segs = split_char_spec(env, ';');
    gitlab_configs_spec(segs, default_host, segs.len() as int)
}

proof fn lemma_gitlab_configs_none(segs: Seq<Seq<char>>, default_host: Seq<char>, i: int, j: int)
    requires
        0 <= i <= j,
        gitlab_configs_spec(segs, default_host, i) is None,
    ensures
        gitlab_configs_spec(segs, default_host, j) is None,
    decreases j - i,
{
    if i < j {
        lemma_gitlab_configs_none(segs, default_host, i + 1, j);
    }
}

fn has_host(configs: &Vec<GitLabConfig>, host: &str) -> (r: bool)
    ensures
        r == has_gitlab_host(configs.deep_view(), host@),
{
    let n: usize = configs.len();
    let mut i: usize = 0;
    while i < n
        invariant
            i <= n,
            n == configs@.len(),
            forall|k: int| 0 <= k < i ==> configs.deep_view()[k].host != host@,
        decreases n - i,
    {
        if str_eq(configs[i].host.as_str(), host) {
            assert(configs.deep_view()[i as int].host == host@);
            return true;
        }
        i = i + 1;
    }
    false
}

impl GitLabConfig {
    pub fn new(host: &str, token: &str) -> (r: GitLabConfig)
        ensures
            r@.host == host@,
            r@.token == token@,
    {
        GitLabConfig { host: host.to_owned(), token: token.to_owned() }
    }

    /// Builds the GitLab credentials from the values of the
    /// `GITLAB_TOKEN` and `GITLAB_HOST` environment variables. An unset
    /// token value yields no entries; a malformed one (a segment with
    /// more than one `:`) is an error.
    pub fn from_env(gitlab_token: Option<&str>, gitlab_host: Option<&str>) -> (r: Result<
        Vec<GitLabConfig>,
        String,
    >)
        ensures
            gitlab_token is None ==> r is Ok && r->Ok_0@.len() == 0,
            gitlab_token is Some ==> {
                let parsed = gitlab_env_spec(gitlab_token.unwrap()@, default_host_view(gitlab_host));
                ((r is Ok) == (parsed is Some)) && (r is Ok ==> r->Ok_0.deep_view()
                    == parsed.unwrap())
            },
            r is Err ==> r->Err_0@ == "Error parsing GITLAB_TOKEN. Read README.md and check it"@,
    {
        let mut gitlab_configs: Vec<GitLabConfig> = Vec::new();
        let env = match gitlab_token {
            None => {
                proof {
                    assert(gitlab_configs.deep_view() =~= Seq::<GitLabConfigView>::empty());
                }
                return Ok(gitlab_configs);
            },
            Some(env) => env,
        };
        let default_host: &str = match gitlab_host {
            Some(h) => h,
            None => "",
        };
        proof {
            reveal_strlit("");
            assert(default_host@ =~= default_host_view(gitlab_host));
        }
        let segments = split_char(env, ';');
        let n: usize = segments.len();
        let ghost segs = split_char_spec(env@, ';');
        let mut i: usize = 0;
        proof {
            assert(gitlab_configs.deep_view() =~= Seq::<GitLabConfigView>::empty());
        }
        while i < n
            invariant
                i <= n,
                n == segs.len(),
                gitlab_token == Some(env),
                segs == segments.deep_view(),
                segs == split_char_spec(env@, ';'),
                default_host@ == default_host_view(gitlab_host),
                gitlab_configs_spec(segs, default_host@, i as int) == Some(
                    gitlab_configs.deep_view(),
                ),
            decreases n - i,
        {
            let parts = split_char(segments[i].as_str(), ':');
            proof {
                assert(segments@[i as int]@ == segs[i as int]);
                assert(parts.deep_view() == split_char_spec(segs[i as int], ':'));
            }
            if parts.len() == 1 {
                proof {
                    assert(parts.deep_view()[0] == parts@[0]@);
                }
                let entry = GitLabConfig::new(default_host, parts[0].as_str());
                if !has_host(&gitlab_configs, entry.host.as_str()) {
                    let ghost prev = gitlab_configs.deep_view();
                    gitlab_configs.push(entry);
                    proof {
                        assert(gitlab_configs.deep_view() =~= prev.push(entry@));
                    }
                }
            } else if parts.len() == 2 {
                proof {
                    assert(parts.deep_view()[0] == parts@[0]@);
                    assert(parts.deep_view()[1] == parts@[1]@);
                }
                let entry = GitLabConfig::new(parts[0].as_str(), parts[1].as_str());
                if !has_host(&gitlab_configs, entry.host.as_str()) {
                    let ghost prev = gitlab_configs.deep_view();
                    gitlab_configs.push(entry);
                    proof {
                        assert(gitlab_configs.deep_view() =~= prev.push(entry@));
                    }
                }
            } else {
                proof {
                    lemma_gitlab_configs_none(segs, default_host@, i + 1, n as int);
                }
                return Err("Error parsing GITLAB_TOKEN. Read README.md and check it".to_owned());
            }
            i = i + 1;
        }
        Ok(gitlab_configs)
    }
}

/// The host that a plain (non-pair) token segment is assigned: the value
/// of `GITLAB_HOST` when set, else the empty default-host sentinel.
pub open spec fn default_host_view(gitlab_host: Option<&str>) -> Seq<char> {
    match gitlab_host {
        Some(h) => h@,
        None => Seq::empty(),
    }
}

/// The general options: file extensions excluded from scanning.
#[derive(Debug)]
pub struct GeneralConfig {
    pub ignored_extensions: Vec<String>,
}

pub ghost struct GeneralConfigView {
    pub ignored_extensions: Seq<Seq<char>>,
}

impl View for GeneralConfig {
    type V = GeneralConfigView;

    open spec fn view(&self) -> GeneralConfigView {
        GeneralConfigView { ignored_extensions: self.ignored_extensions.deep_view() }
    }
}

impl GeneralConfig {
    fn new() -> (r: GeneralConfig)
        ensures
            r@.ignored_extensions.len() == 0,
    {
        let r = GeneralConfig { ignored_extensions: Vec::new() };
        proof {
            assert(r@.ignored_extensions =~= Seq::<Seq<char>>::empty());
        }
        r
    }
}

/// The whole process configuration: general options, an optional GitHub
/// credential, and the GitLab credentials, hosts pairwise distinct.
#[derive(Debug)]
pub struct Config {
    pub general: GeneralConfig,
    pub github: Option<GitHubConfig>,
    pub gitlab: Vec<GitLabConfig>,
}

pub ghost struct ConfigView {
    pub general: GeneralConfigView,
    pub github: Option<GitHubConfigView>,
    pub gitlab: Seq<GitLabConfigView>,
}

impl View for Config {
    type V = ConfigView;

    open spec fn view(&self) -> ConfigView {
        ConfigView {
            general: self.general@,
            github: self.github.deep_view(),
            gitlab: self.gitlab.deep_view(),
        }
    }
}

/// The well-formedness of a configuration: GitLab hosts are pairwise
/// distinct (the empty default-host sentinel occurs at most once).
pub open spec fn config_wf(c: ConfigView) -> bool {
    forall|a: int, b: int|
        0 <= a < b < c.gitlab.len() ==> c.gitlab[a].host != c.gitlab[b].host
}

impl Config {
    /// Builds the configuration from environment values. Fails when the
    /// GitLab token value is malformed, or when neither a GitHub nor a
    /// GitLab credential results.
    pub fn from_env(
        github_token: Option<&str>,
        gitlab_token: Option<&str>,
        gitlab_host: Option<&str>,
    ) -> (r: Result<Config, String>)
        ensures
            r is Ok ==> r->Ok_0@.github == spec_github_of(github_token)
                && Some(r->Ok_0@.gitlab) == spec_gitlab_of(gitlab_token, gitlab_host)
                && r->Ok_0@.general.ignored_extensions.len() == 0,
            (r is Ok) == (spec_gitlab_of(gitlab_token, gitlab_host) is Some && (github_token
                is Some || spec_gitlab_of(gitlab_token, gitlab_host).unwrap().len() > 0)),
            r is Err && spec_gitlab_of(gitlab_token, gitlab_host) is None ==> r->Err_0@
                == "Error parsing GITLAB_TOKEN. Read README.md and check it"@,
            r is Err && spec_gitlab_of(gitlab_token, gitlab_host) is Some ==> r->Err_0@
                == "Could not construct any config from env variables"@,
    {
        let github = GitHubConfig::from_env(github_token);
        let gitlab = match GitLabConfig::from_env(gitlab_token, gitlab_host) {
            Ok(gitlab) => gitlab,
            Err(e) => {
                return Err(e);
            },
        };
        if github.is_none() && gitlab.is_empty() {
            return Err("Could not construct any config from env variables".to_owned());
        }
        let config = Config { general: GeneralConfig::new(), github, gitlab };
        Ok(config)
    }
}

/// The configuration before any section is applied: no credentials, no
/// ignored extensions.
pub open spec fn empty_config_view() -> ConfigView {
    ConfigView {
        general: GeneralConfigView { ignored_extensions: Seq::empty() },
        github: None,
        gitlab: Seq::empty(),
    }
}

/// One configuration-file section applied to the configuration built so
/// far. A section with an empty name, or without the key it is read for,
/// is skipped; `general` carries the `;`-separated ignored extensions;
/// `github.com` carries the GitHub token (a later section wins); any
/// other name is a GitLab host with its token (an earlier section wins,
/// keeping hosts distinct).
pub open spec fn config_step(cfg: ConfigView, sec: SectionView) -> ConfigView {
    if sec.name.len() == 0 {
        cfg
    } else if sec.name == "general"@ {
        match section_get_spec(sec.keys, "ignored_extensions"@) {
            Some(v) => ConfigView {
                general: GeneralConfigView { ignored_extensions: split_char_spec(v, ';') },
                github: cfg.github,
                gitlab: cfg.gitlab,
            },
            None => cfg,
        }
    } else {
        match section_get_spec(sec.keys, "token"@) {
            None => cfg,
            Some(tok) => if sec.name == "github.com"@ {
                ConfigView {
                    general: cfg.general,
                    github: Some(GitHubConfigView { token: tok }),
                    gitlab: cfg.gitlab,
                }
            } else if has_gitlab_host(cfg.gitlab, sec.name) {
                cfg
            } else {
                ConfigView {
                    general: cfg.general,
                    github: cfg.github,
                    gitlab: cfg.gitlab.push(GitLabConfigView { host: sec.name, token: tok }),
                }
            },
        }
    }
}

/// The configuration after the first `upto` sections.
pub open spec fn config_of_sections(sections: Seq<SectionView>, upto: int) -> ConfigView
    decreases upto,
{
    if upto <= 0 {
        empty_config_view()
    } else {
        config_step(config_of_sections(sections, upto - 1), sections[upto - 1])
    }
}

/// The configuration that a parsed configuration file yields.
pub open spec fn config_from_ini_spec(sections: Seq<SectionView>) -> ConfigView {
    config_of_sections(sections, sections.len() as int)
}

impl Config {
    /// Builds the configuration from a parsed configuration file.
    pub fn from_ini(ini: &Ini) -> (r: Config)
        ensures
            r@ == config_from_ini_spec(ini@),
    {
        let mut config = Config { general: GeneralConfig::new(), github: None, gitlab: Vec::new() };
        proof {
            assert(config@.general.ignored_extensions =~= Seq::<Seq<char>>::empty());
            assert(config@.gitlab =~= Seq::<GitLabConfigView>::empty());
            assert(config@ == empty_config_view());
        }
        let sections = ini.sections();
        let n: usize = sections.len();
        let mut i: usize = 0;
        while i < n
            invariant
                i <= n,
                n == sections@.len(),
                sections.deep_view() == ini@,
                config@ == config_of_sections(ini@, i as int),
            decreases n - i,
        {
            let section = &sections[i];
            proof {
                assert(section@ == ini@[i as int]);
            }
            let name = section.name();
            let name_len: usize = name.unicode_len();
            if name_len > 0 {
                if str_eq(name, "general") {
                    let got = section.get("ignored_extensions");
                    match got {
                        Ok(v) => {
                            let ignored_extensions = split_char(v, ';');
                            config.general = GeneralConfig { ignored_extensions };
                        },
                        Err(_) => {},
                    }
                } else {
                    let got = section.get("token");
                    match got {
                        Ok(token) => {
                            if str_eq(name, "github.com") {
                                config.github = Some(GitHubConfig::new(token));
                            } else {
                                if !has_host(&config.gitlab, name) {
                                    let ghost prev = config@.gitlab;
                                    let entry = GitLabConfig::new(name, token);
                                    config.gitlab.push(entry);
                                    proof {
                                        assert(config@.gitlab =~= prev.push(entry@));
                                    }
                                }
                            }
                        },
                        Err(_) => {},
                    }
                }
            }
            i = i + 1;
        }
        config
    }
}

/// The GitLab hosts of a list are pairwise distinct.
pub open spec fn distinct_hosts(configs: Seq<GitLabConfigView>) -> bool {
    forall|a: int, b: int| 0 <= a < b < configs.len() ==> configs[a].host != configs[b].host
}

/// The configuration invariant holds of what a configuration file
/// yields: the GitLab hosts are pairwise distinct (the default-host
/// sentinel occurs at most once).
pub proof fn lemma_from_ini_wf(sections: Seq<SectionView>, upto: int)
    ensures
        config_wf(config_of_sections(sections, upto)),
    decreases upto,
{
    if upto > 0 {
        lemma_from_ini_wf(sections, upto - 1);
        let prev = config_of_sections(sections, upto - 1);
        let cur = config_of_sections(sections, upto);
        assert forall|a: int, b: int|
            0 <= a < b < cur.gitlab.len() implies cur.gitlab[a].host != cur.gitlab[b].host by {
            if b == prev.gitlab.len() {
                assert(!has_gitlab_host(prev.gitlab, cur.gitlab[b].host));
                assert(prev.gitlab[a] == cur.gitlab[a]);
            }
        }
    }
}

/// The configuration invariant holds of what the environment yields.
pub proof fn lemma_from_env_wf(segs: Seq<Seq<char>>, default_host: Seq<char>, upto: int)
    ensures
        match gitlab_configs_spec(segs, default_host, upto) {
            Some(l) => distinct_hosts(l),
            None => true,
        },
    decreases upto,
{
    if upto > 0 {
        lemma_from_env_wf(segs, default_host, upto - 1);
        match gitlab_configs_spec(segs, default_host, upto) {
            Some(cur) => {
                let prev = gitlab_configs_spec(segs, default_host, upto - 1)->Some_0;
                assert forall|a: int, b: int|
                    0 <= a < b < cur.len() implies cur[a].host != cur[b].host by {
                    if b == prev.len() {
                        assert(!has_gitlab_host(prev, cur[b].host));
                        assert(prev[a] == cur[a]);
                    }
                }
            },
            None => {},
        }
    }
}

/// The GitHub credential view that an environment value yields.
pub open spec fn spec_github_of(github_token: Option<&str>) -> Option<GitHubConfigView> {
    match github_token {
        Some(t) => Some(GitHubConfigView { token: t@ }),
        None => None,
    }
}

/// The GitLab credential views that the environment values yield; `None`
/// when the token value is malformed.
pub open spec fn spec_gitlab_of(
    gitlab_token: Option<&str>,
    gitlab_host: Option<&str>,
) -> Option<Seq<GitLabConfigView>> {
    match gitlab_token {
        None => Some(Seq::empty()),
        Some(env) => gitlab_env_spec(env@, default_host_view(gitlab_host)),
    }
}

} // verus!

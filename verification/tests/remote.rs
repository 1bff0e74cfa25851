use issuefer::config::{Config, GeneralConfig, GitHubConfig, GitLabConfig};
use issuefer::iniparser::parse_ini;
use issuefer::remote::{
    get_git_config_host_owner_repo, get_project_api, parse_git_config, ProviderApi,
};

fn lines(v: &[&str]) -> Vec<String> {
    v.iter().map(|s| s.to_string()).collect()
}

#[test]
fn parse_https_url() {
    let (host, owner, repo) = parse_git_config("https://github.com/torlenor/issuefer.git").unwrap();
    assert_eq!(host, "github.com");
    assert_eq!(owner, "torlenor");
    assert_eq!(repo, "issuefer");
}

#[test]
fn parse_https_url_with_port() {
    let (host, owner, repo) = parse_git_config("https://git.example.org:8443/o/r.git").unwrap();
    assert_eq!(host, "git.example.org");
    assert_eq!(owner, "o");
    assert_eq!(repo, "r");
}

#[test]
fn parse_ssh_url() {
    let (host, owner, repo) = parse_git_config("ssh://git@github.com/o/r.git").unwrap();
    assert_eq!(host, "github.com");
    assert_eq!(owner, "o");
    assert_eq!(repo, "r");
}

#[test]
fn parse_ssh_url_with_port() {
    let (host, owner, repo) = parse_git_config("ssh://git@git.example.org:2222/o/r.git").unwrap();
    assert_eq!(host, "git.example.org");
    assert_eq!(owner, "o");
    assert_eq!(repo, "r");
}

#[test]
fn parse_scp_style_url() {
    let (host, owner, repo) = parse_git_config("git@gitlab.com:o/r.git").unwrap();
    assert_eq!(host, "gitlab.com");
    assert_eq!(owner, "o");
    assert_eq!(repo, "r");
}

#[test]
fn parse_nested_group_url_takes_last_segment_as_repo() {
    let (host, owner, repo) = parse_git_config("https://gitlab.com/group/sub/r.git").unwrap();
    assert_eq!(host, "gitlab.com");
    assert_eq!(owner, "group/sub");
    assert_eq!(repo, "r");
}

#[test]
fn parse_rejects_malformed_urls() {
    assert_eq!(parse_git_config("ftp://x/y.git").unwrap_err(), "Could not extract origin URL");
    assert!(parse_git_config("https://host/justname.git").is_err());
    assert!(parse_git_config("https://host/o/r").is_err());
    assert!(parse_git_config("git@host:or.git").is_err());
}

#[test]
fn origin_coordinates_from_git_config() {
    let ini = parse_ini(&lines(&[
        "[core]",
        "\trepositoryformatversion = 0",
        "[remote \"origin\"]",
        "\turl = https://github.com/o/r.git",
        "\tfetch = +refs/heads/*:refs/remotes/origin/*",
    ]));
    let (host, owner, repo) = get_git_config_host_owner_repo(&ini).unwrap();
    assert_eq!(host, "github.com");
    assert_eq!(owner, "o");
    assert_eq!(repo, "r");
}

#[test]
fn origin_lookup_reports_missing_pieces() {
    let no_origin = parse_ini(&lines(&["[core]", "bare = false"]));
    assert_eq!(
        get_git_config_host_owner_repo(&no_origin).unwrap_err(),
        "The git repo does not have an origin remote."
    );
    let no_url = parse_ini(&lines(&["[remote \"origin\"]", "fetch = +refs/heads/*"]));
    assert_eq!(
        get_git_config_host_owner_repo(&no_url).unwrap_err(),
        "The git repo origin remote url does not exist."
    );
}

fn config(github: Option<&str>, gitlab: &[(&str, &str)]) -> Config {
    Config {
        general: GeneralConfig { ignored_extensions: Vec::new() },
        github: github.map(GitHubConfig::new),
        gitlab: gitlab.iter().map(|(h, t)| GitLabConfig::new(h, t)).collect(),
    }
}

#[test]
fn project_api_selects_github() {
    let cfg = config(Some("tok"), &[]);
    let api = get_project_api(&cfg, "github.com", "o", "r").unwrap();
    match api {
        ProviderApi::GitHub(gh) => {
            assert_eq!(gh.repo(), "GitHub o/r");
            assert_eq!(gh.token(), "tok");
        }
        ProviderApi::GitLab(_) => panic!("expected the GitHub backend"),
    }
}

#[test]
fn project_api_selects_default_gitlab_host() {
    let cfg = config(None, &[("", "tok")]);
    let api = get_project_api(&cfg, "gitlab.com", "o", "r").unwrap();
    match api {
        ProviderApi::GitLab(gl) => {
            assert_eq!(gl.repo(), "GitLab o/r");
            assert_eq!(gl.token(), "tok");
            assert_eq!(gl.issues_url(), "https://gitlab.com/api/v4/projects/o%2Fr/issues");
        }
        ProviderApi::GitHub(_) => panic!("expected the GitLab backend"),
    }
}

#[test]
fn project_api_selects_matching_gitlab_host() {
    let cfg = config(None, &[("", "a"), ("git.example.org", "b")]);
    let api = get_project_api(&cfg, "git.example.org", "o", "r").unwrap();
    match api {
        ProviderApi::GitLab(gl) => {
            assert_eq!(gl.token(), "b");
            assert_eq!(gl.issues_url(), "https://git.example.org/api/v4/projects/o%2Fr/issues");
        }
        ProviderApi::GitHub(_) => panic!("expected the GitLab backend"),
    }
}

#[test]
fn project_api_fails_without_credential_for_host() {
    let cfg = config(None, &[("other.example.org", "t")]);
    assert!(get_project_api(&cfg, "github.com", "o", "r").is_err());
    assert!(get_project_api(&cfg, "gitlab.com", "o", "r").is_err());
    assert!(get_project_api(&cfg, "git.example.org", "o", "r").is_err());
}

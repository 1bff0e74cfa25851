use issuefer::config::{Config, GitHubConfig, GitLabConfig};
use issuefer::iniparser::parse_ini;

fn lines(v: &[&str]) -> Vec<String> {
    v.iter().map(|s| s.to_string()).collect()
}

#[test]
fn ini_sections_and_keys() {
    let ini = parse_ini(&lines(&[
        "# leading comment",
        "",
        "[general]",
        "ignored_extensions = md;txt",
        "; another comment",
        "[github.com]",
        "token = abc",
    ]));
    let general = ini.section("general").unwrap();
    assert_eq!(general.name(), "general");
    assert_eq!(general.get("ignored_extensions").unwrap(), "md;txt");
    let github = ini.section("github.com").unwrap();
    assert_eq!(github.get("token").unwrap(), "abc");
    assert!(ini.section("missing").is_err());
    assert_eq!(github.get("missing").unwrap_err(), "Not found");
}

#[test]
fn ini_trims_names_and_values() {
    let ini = parse_ini(&lines(&["[ spaced ]", "  key  =  value  "]));
    let section = ini.section("spaced").unwrap();
    assert_eq!(section.get("key").unwrap(), "value");
}

#[test]
fn ini_value_stops_at_second_equals() {
    let ini = parse_ini(&lines(&["[s]", "k = a = b"]));
    assert_eq!(ini.section("s").unwrap().get("k").unwrap(), "a");
}

#[test]
fn ini_drops_sections_without_keys() {
    let ini = parse_ini(&lines(&["[empty]", "[kept]", "k = v"]));
    assert!(ini.section("empty").is_err());
    assert!(ini.section("kept").is_ok());
    assert_eq!(ini.sections().len(), 1);
}

#[test]
fn ini_skips_lines_without_equals() {
    let ini = parse_ini(&lines(&["[s]", "not a key line", "k = v"]));
    let section = ini.section("s").unwrap();
    assert!(section.get("not a key line").is_err());
    assert_eq!(section.get("k").unwrap(), "v");
}

#[test]
fn ini_keys_before_any_header_form_unnamed_section() {
    let ini = parse_ini(&lines(&["k = v", "[s]", "a = b"]));
    assert_eq!(ini.sections().len(), 2);
    assert_eq!(ini.section("").unwrap().get("k").unwrap(), "v");
}

#[test]
fn config_from_ini_reads_all_sections() {
    let ini = parse_ini(&lines(&[
        "[general]",
        "ignored_extensions = md;lock",
        "[github.com]",
        "token = ghtoken",
        "[gitlab.example.org]",
        "token = gltoken",
    ]));
    let config = Config::from_ini(&ini);
    assert_eq!(config.general.ignored_extensions, vec!["md", "lock"]);
    assert_eq!(config.github.unwrap().token, "ghtoken");
    assert_eq!(config.gitlab.len(), 1);
    assert_eq!(config.gitlab[0].host, "gitlab.example.org");
    assert_eq!(config.gitlab[0].token, "gltoken");
}

#[test]
fn config_from_ini_skips_section_without_token() {
    let ini = parse_ini(&lines(&["[gitlab.example.org]", "user = nobody"]));
    let config = Config::from_ini(&ini);
    assert!(config.github.is_none());
    assert!(config.gitlab.is_empty());
}

#[test]
fn config_from_ini_keeps_first_of_duplicate_hosts() {
    let ini = parse_ini(&lines(&[
        "[gitlab.example.org]",
        "token = first",
        "[gitlab.example.org]",
        "token = second",
    ]));
    let config = Config::from_ini(&ini);
    assert_eq!(config.gitlab.len(), 1);
    assert_eq!(config.gitlab[0].token, "first");
}

#[test]
fn config_from_ini_last_github_token_wins() {
    let ini = parse_ini(&lines(&["[github.com]", "token = a", "[github.com]", "token = b"]));
    let config = Config::from_ini(&ini);
    assert_eq!(config.github.unwrap().token, "b");
}

#[test]
fn github_config_from_env() {
    assert!(GitHubConfig::from_env(None).is_none());
    assert_eq!(GitHubConfig::from_env(Some("tok")).unwrap().token, "tok");
}

#[test]
fn gitlab_config_from_env_pairs() {
    let configs = GitLabConfig::from_env(Some("host1:t1;host2:t2"), None).unwrap();
    assert_eq!(configs.len(), 2);
    assert_eq!(configs[0].host, "host1");
    assert_eq!(configs[0].token, "t1");
    assert_eq!(configs[1].host, "host2");
    assert_eq!(configs[1].token, "t2");
}

#[test]
fn gitlab_config_from_env_plain_token_uses_default_host() {
    let configs = GitLabConfig::from_env(Some("justatoken"), None).unwrap();
    assert_eq!(configs.len(), 1);
    assert_eq!(configs[0].host, "");
    assert_eq!(configs[0].token, "justatoken");
}

#[test]
fn gitlab_config_from_env_plain_token_honors_host_override() {
    let configs = GitLabConfig::from_env(Some("justatoken"), Some("git.example.org")).unwrap();
    assert_eq!(configs[0].host, "git.example.org");
}

#[test]
fn gitlab_config_from_env_rejects_malformed_segment() {
    assert!(GitLabConfig::from_env(Some("a:b:c"), None).is_err());
}

#[test]
fn gitlab_config_from_env_unset_is_empty() {
    assert!(GitLabConfig::from_env(None, None).unwrap().is_empty());
}

#[test]
fn config_from_env_requires_some_credential() {
    assert!(Config::from_env(None, None, None).is_err());
    let with_github = Config::from_env(Some("gh"), None, None).unwrap();
    assert_eq!(with_github.github.unwrap().token, "gh");
    assert!(with_github.gitlab.is_empty());
    let with_gitlab = Config::from_env(None, Some("h:t"), None).unwrap();
    assert!(with_gitlab.github.is_none());
    assert_eq!(with_gitlab.gitlab[0].host, "h");
}

#[test]
fn config_from_env_propagates_malformed_gitlab_token() {
    assert!(Config::from_env(Some("gh"), Some("a:b:c"), None).is_err());
}

use grgry::commands::{alias, Regex};
use grgry::config::{Config, Profile};

fn profile(provider: &str, active: bool) -> Profile {
    Profile {
        active,
        pulloption: "ssh".to_string(),
        username: "jo".to_string(),
        email: "jo@example.com".to_string(),
        baseaddress: format!("https://{}.example.com", provider),
        provider: provider.to_string(),
        token: "tok".to_string(),
        targetbasepath: "/repos".to_string(),
    }
}

fn sample_config() -> Config {
    let mut c = Config::new();
    c.reload(vec![
        ("hub".to_string(), profile("github", false)),
        ("lab".to_string(), profile("gitlab", true)),
        ("hub2".to_string(), profile("github", false)),
    ]);
    c
}

#[test]
fn new_config_is_empty_and_reload_replaces_it() {
    let mut c = Config::new();
    assert!(c.profiles.is_empty());
    assert!(c.active_profile().is_none());
    c.reload(vec![("hub".to_string(), profile("github", true))]);
    assert_eq!(c.profiles.len(), 1);
    assert_eq!(c.active_profile().unwrap().provider, "github");
}

#[test]
fn activate_profile_flips_exactly_the_chosen_one() {
    let mut c = sample_config();
    c.activate_profile("hub");
    let actives: Vec<&str> =
        c.profiles.iter().filter(|(_, p)| p.active).map(|(k, _)| k.as_str()).collect();
    assert_eq!(actives, vec!["hub"]);
    assert_eq!(c.active_profile().unwrap().provider, "github");
    // Activating an unknown name leaves no profile active.
    c.activate_profile("nobody");
    assert!(c.active_profile().is_none());
}

#[test]
fn delete_profile_removes_only_the_chosen_name() {
    let mut c = sample_config();
    c.delete_profile("lab");
    let keys: Vec<&str> = c.profiles.iter().map(|(k, _)| k.as_str()).collect();
    assert_eq!(keys, vec!["hub", "hub2"]);
    c.delete_profile("nobody");
    assert_eq!(c.profiles.len(), 2);
}

#[test]
fn profiles_match_by_provider_name_inside_the_remote_url() {
    let c = sample_config();
    let keys = c.find_profiles_by_provider("https://github.com/o/r.git");
    assert_eq!(keys, vec!["hub".to_string(), "hub2".to_string()]);
    let keys = c.find_profiles_by_provider("git@gitlab.example.com:g/p.git");
    assert_eq!(keys, vec!["lab".to_string()]);
    let keys = c.find_profiles_by_provider("https://bitbucket.org/o/r.git");
    assert!(keys.is_empty());
}

#[test]
fn regex_args_prefer_the_reverse_pattern() {
    let both = Regex { regex: Some("a".to_string()), rev_regex: Some("b".to_string()) };
    assert_eq!(both.get_regex_args(".*"), ("b".to_string(), true));
    let plain = Regex { regex: Some("a".to_string()), rev_regex: None };
    assert_eq!(plain.get_regex_args(".*"), ("a".to_string(), false));
    let neither = Regex { regex: None, rev_regex: None };
    assert_eq!(neither.get_regex_args(".*"), (".*".to_string(), false));
}

#[test]
fn alias_wraps_a_git_command_line_into_mass() {
    let args: Vec<String> =
        ["commit", "-m", "msg", "--dry-run", "--regex", "abc"].iter().map(|s| s.to_string()).collect();
    assert_eq!(
        alias(args),
        vec![
            "grgry".to_string(),
            "mass".to_string(),
            "commit -m msg".to_string(),
            "--dry-run".to_string(),
            "--regex".to_string(),
            "abc".to_string(),
        ]
    );
}

#[test]
fn alias_keeps_a_trailing_pattern_flag_without_its_argument() {
    let args: Vec<String> = ["status", "-s", "--rev-regex"].iter().map(|s| s.to_string()).collect();
    assert_eq!(
        alias(args),
        vec![
            "grgry".to_string(),
            "mass".to_string(),
            "status".to_string(),
            "-s".to_string(),
            "--rev-regex".to_string(),
        ]
    );
}

#[test]
fn alias_of_no_arguments_is_an_empty_mass_command() {
    assert_eq!(
        alias(Vec::new()),
        vec!["grgry".to_string(), "mass".to_string(), "".to_string()]
    );
}

use coreutils::cat::config::CatConfig;
use coreutils::config::gather;
use coreutils::config::has_argument;
use coreutils::config::option_like;
use coreutils::config::Config;
use coreutils::ls::config::LsConfig;
use coreutils::yes::config::YesConfig;

fn string_vec(items: &[&str]) -> Vec<String> {
    items.iter().map(|s| s.to_string()).collect()
}

#[test]
fn names_and_usage() {
    assert_eq!(CatConfig::new().bin_name(), "cat");
    assert_eq!(LsConfig::new().bin_name(), "ls");
    assert_eq!(YesConfig::new().bin_name(), "yes");
    assert!(CatConfig::new().usage().starts_with("Usage: cat "));
    assert!(LsConfig::new().usage().starts_with("Usage: ls "));
    assert!(YesConfig::new().usage().starts_with("Usage: yes "));
}

#[test]
fn base_parse_sorts_arguments() {
    let config = LsConfig::new();
    let args = string_vec(&["-prog", "a", "-x", "", "b", "--long", "-"]);
    let base = Config::parse(&config, &args).unwrap();
    assert_eq!(base.parameters, string_vec(&["a", "", "b"]));
    assert_eq!(base.options, string_vec(&["-x", "--long", "-"]));
    assert_eq!(config.gather_options(&args), base.options);
    assert_eq!(config.gather_parameters(&args), base.parameters);
}

#[test]
fn base_parse_of_nothing() {
    let config = CatConfig::new();
    let base = Config::parse(&config, &[]).unwrap();
    assert!(base.parameters.is_empty());
    assert!(base.options.is_empty());
}

#[test]
fn check_help_and_version() {
    let config = CatConfig::new();
    let args = string_vec(&["cat", "--version", "--help"]);
    assert_eq!(config.check_help(&args).unwrap(), config.usage());
    assert_eq!(config.check_version(&args).unwrap(), "cat (Win32CoreUtils) v0.1.0");
    assert_eq!(Config::parse(&config, &args).unwrap_err(), config.usage());
    let plain = string_vec(&["cat", "-help", "version"]);
    assert!(config.check_help(&plain).is_none());
    assert!(config.check_version(&plain).is_none());
}

#[test]
fn helpers() {
    assert!(option_like("-"));
    assert!(option_like("--x"));
    assert!(!option_like(""));
    assert!(!option_like("x-"));
    let args = string_vec(&["a", "b"]);
    assert!(has_argument(&args, "b"));
    assert!(!has_argument(&args, "c"));
    assert_eq!(gather(&args, false), string_vec(&["b"]));
    assert!(gather(&args, true).is_empty());
}

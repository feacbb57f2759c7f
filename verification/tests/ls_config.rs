use coreutils::config::VERSION;
use coreutils::ls::config::LsConfig;
use coreutils::ls::options::DisplayMode;
use coreutils::ls::options::ListingOptions;
use coreutils::ls::options::SortKey;
use coreutils::ls::options::Visibility;

fn string_vec(items: &[&str]) -> Vec<String> {
    items.iter().map(|s| s.to_string()).collect()
}

#[test]
fn config_help() {
    let mut config = LsConfig::new();
    let parse_result = config.parse(string_vec(&["ls.exe", "myfile.txt", "--help"]));
    assert!(parse_result.unwrap_err().contains("Usage:"));
}

#[test]
fn config_version() {
    let mut config = LsConfig::new();
    let parse_result = config.parse(string_vec(&["ls.exe", "myfile.txt", "--version"]));
    assert!(parse_result.unwrap_err().contains(VERSION));
}

#[test]
fn normal_paths() {
    let mut config = LsConfig::new();
    config
        .parse(string_vec(&["ls.exe", "myfile.txt", "mydir/"]))
        .unwrap();
    assert!(config.paths.len() == 2)
}

#[test]
fn option_all() {
    let mut config = LsConfig::new();
    config
        .parse(string_vec(&["ls.exe", "myfile.txt", "--all"]))
        .unwrap();
    assert!(config.all);
    config
        .parse(string_vec(&["ls.exe", "myfile.txt", "-a"]))
        .unwrap();
    assert!(config.all);
}

#[test]
fn option_almost_all() {
    let mut config = LsConfig::new();
    config
        .parse(string_vec(&["ls.exe", "myfile.txt", "--almost-all"]))
        .unwrap();
    assert!(config.almost_all);
    config
        .parse(string_vec(&["ls.exe", "myfile.txt", "-A"]))
        .unwrap();
    assert!(config.almost_all);
}

#[test]
fn option_creation_time() {
    let mut config = LsConfig::new();
    config
        .parse(string_vec(&["ls.exe", "myfile.txt", "-c"]))
        .unwrap();
    assert!(config.creation_time);
}

#[test]
fn option_directory_view() {
    let mut config = LsConfig::new();
    config
        .parse(string_vec(&["ls.exe", "myfile.txt", "--directory"]))
        .unwrap();
    assert!(config.directory_view);
    config
        .parse(string_vec(&["ls.exe", "myfile.txt", "-d"]))
        .unwrap();
    assert!(config.directory_view);
}

#[test]
fn option_group_view() {
    let mut config = LsConfig::new();
    config.parse(string_vec(&["ls.exe", "myfile.txt"])).unwrap();
    assert!(config.group_view);
    config
        .parse(string_vec(&["ls.exe", "myfile.txt", "--no-group"]))
        .unwrap();
    assert!(!config.group_view);
    config
        .parse(string_vec(&["ls.exe", "myfile.txt", "-G"]))
        .unwrap();
    assert!(!config.group_view);
}

#[test]
fn option_reverse() {
    let mut config = LsConfig::new();
    config
        .parse(string_vec(&["ls.exe", "myfile.txt", "--reverse"]))
        .unwrap();
    assert!(config.reverse);
    config
        .parse(string_vec(&["ls.exe", "myfile.txt", "-r"]))
        .unwrap();
    assert!(config.reverse);
}

#[test]
fn option_recursive() {
    let mut config = LsConfig::new();
    config
        .parse(string_vec(&["ls.exe", "myfile.txt", "--recursive"]))
        .unwrap();
    assert!(config.recurse);
    config
        .parse(string_vec(&["ls.exe", "myfile.txt", "-R"]))
        .unwrap();
    assert!(config.recurse);
}

#[test]
fn option_size_sort() {
    let mut config = LsConfig::new();
    config
        .parse(string_vec(&["ls.exe", "myfile.txt", "-S"]))
        .unwrap();
    assert!(config.size_sort);
}

#[test]
fn option_modify_sort() {
    let mut config = LsConfig::new();
    config
        .parse(string_vec(&["ls.exe", "myfile.txt", "-t"]))
        .unwrap();
    assert!(config.modify_sort);
}

#[test]
fn option_access_sort() {
    let mut config = LsConfig::new();
    config
        .parse(string_vec(&["ls.exe", "myfile.txt", "-u"]))
        .unwrap();
    assert!(config.access_sort);
}

#[test]
fn option_one_per_line() {
    let mut config = LsConfig::new();
    config
        .parse(string_vec(&["ls.exe", "myfile.txt", "-1"]))
        .unwrap();
    assert!(config.one_per_line);
}

#[test]
fn option_full_time() {
    let mut config = LsConfig::new();
    config
        .parse(string_vec(&["ls.exe", "--full-time", "myfile.txt"]))
        .unwrap();
    assert!(config.full_time);
}

#[test]
fn ls_version_line_is_exact() {
    let mut config = LsConfig::new();
    let parse_result = config.parse(string_vec(&["ls.exe", "--version"]));
    assert_eq!(parse_result.unwrap_err(), "ls (Win32CoreUtils) v0.1.0");
}

#[test]
fn ls_invalid_option_is_reported_after_earlier_ones_apply() {
    let mut config = LsConfig::new();
    let parse_result = config.parse(string_vec(&["ls.exe", "-a", "dir", "--bogus", "-1"]));
    assert_eq!(
        parse_result.unwrap_err(),
        "invalid option: --bogus\n Try ls --help for more information"
    );
    assert_eq!(config.paths, vec!["dir".to_string()]);
    assert!(config.all);
    assert!(!config.one_per_line);
}

#[test]
fn ls_without_paths_is_accepted() {
    let mut config = LsConfig::new();
    config.parse(string_vec(&["ls.exe"])).unwrap();
    assert!(config.paths.is_empty());
    config.parse(Vec::new()).unwrap();
    assert!(config.paths.is_empty());
}

#[test]
fn default_options_keep_the_order_read() {
    let config = LsConfig::new();
    let options = ListingOptions::from_config(&config);
    assert_eq!(options.display_mode, DisplayMode::Long);
    assert_eq!(options.visibility, Visibility::Default);
    assert_eq!(options.sort_key, None);
    assert!(!options.reverse);
    assert!(!options.recursive);
    assert!(!options.directory_as_entry);
}

#[test]
fn options_follow_the_switches() {
    let mut config = LsConfig::new();
    config
        .parse(string_vec(&["ls.exe", "-1", "-A", "-t", "-r", "-R", "-d"]))
        .unwrap();
    let options = ListingOptions::from_config(&config);
    assert_eq!(options.display_mode, DisplayMode::OnePerLine);
    assert_eq!(options.visibility, Visibility::AlmostAll);
    assert_eq!(options.sort_key, Some(SortKey::ByModifiedTime));
    assert!(options.reverse);
    assert!(options.recursive);
    assert!(options.directory_as_entry);
}

#[test]
fn options_precedence() {
    let mut config = LsConfig::new();
    config.parse(string_vec(&["ls.exe", "-A", "-a", "-t", "-u"])).unwrap();
    let options = ListingOptions::from_config(&config);
    assert_eq!(options.visibility, Visibility::All);
    assert_eq!(options.sort_key, Some(SortKey::ByAccessTime));
    config.parse(string_vec(&["ls.exe", "-S"])).unwrap();
    let options = ListingOptions::from_config(&config);
    assert_eq!(options.sort_key, Some(SortKey::BySize));
}

use coreutils::yes::config::YesConfig;

fn string_vec(items: &[&str]) -> Vec<String> {
    items.iter().map(|s| s.to_string()).collect()
}

#[test]
fn yes_without_words_says_y() {
    let mut config = YesConfig::new();
    config.parse(string_vec(&["yes.exe"])).unwrap();
    assert_eq!(config.output_string, "y");
}

#[test]
fn yes_joins_words_with_spaces() {
    let mut config = YesConfig::new();
    config.parse(string_vec(&["yes.exe", "one", "two", "three"])).unwrap();
    assert_eq!(config.output_string, "one two three");
}

#[test]
fn yes_passes_options_over() {
    let mut config = YesConfig::new();
    config.parse(string_vec(&["yes.exe", "-n", "no", "--way"])).unwrap();
    assert_eq!(config.output_string, "no");
    let mut config = YesConfig::new();
    config.parse(string_vec(&["yes.exe", "-n"])).unwrap();
    assert_eq!(config.output_string, "y");
}

#[test]
fn yes_help_and_version() {
    let mut config = YesConfig::new();
    let help = config.parse(string_vec(&["yes.exe", "word", "--help"])).unwrap_err();
    assert!(help.starts_with("Usage: yes [STRING]..."));
    let version = config.parse(string_vec(&["yes.exe", "--version"])).unwrap_err();
    assert_eq!(version, "yes (Win32CoreUtils) v0.1.0");
    assert_eq!(config.output_string, "");
}

#[test]
fn yes_adds_to_the_line_held() {
    let mut config = YesConfig::new();
    config.parse(string_vec(&["yes.exe", "a"])).unwrap();
    config.parse(string_vec(&["yes.exe", "b", "c"])).unwrap();
    assert_eq!(config.output_string, "ab c");
}

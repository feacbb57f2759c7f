use coreutils::cat::config::CatConfig;
use coreutils::config::VERSION;

fn string_vec(items: &[&str]) -> Vec<String> {
    items.iter().map(|s| s.to_string()).collect()
}

#[test]
fn no_args() {
    let args = string_vec(&["cat.exe"]);
    assert!(CatConfig::new().parse(args).unwrap_err().contains("Usage:"));
}

#[test]
fn one_file() {
    let mut config = CatConfig::new();
    config.parse(string_vec(&["cat.exe", "myfile.txt"])).unwrap();

    assert!(config.files.iter().any(|x| x == "myfile.txt"));
    assert!(!config.number);
    assert!(!config.number_nonblank);
    assert!(!config.show_ends);
    assert!(!config.squeeze_blank);
    assert!(!config.show_tabs);
    assert!(!config.show_nonprinting);
}

#[test]
fn multiple_files() {
    let mut config = CatConfig::new();
    config
        .parse(string_vec(&["cat.exe", "myfile.txt", "other.txt"]))
        .unwrap();
    assert_eq!(config.files.len(), 2);
    assert!(config.files.iter().any(|x| x == "myfile.txt"));
    assert!(config.files.iter().any(|x| x == "other.txt"));
}

#[test]
fn show_all() {
    let mut config = CatConfig::new();
    config
        .parse(string_vec(&["cat.exe", "myfile.txt", "--show-all"]))
        .unwrap();
    assert!(config.show_nonprinting);
    assert!(config.show_ends);
    assert!(config.show_tabs);

    config
        .parse(string_vec(&["cat.exe", "-A", "myfile.txt"]))
        .unwrap();
    assert!(config.show_nonprinting);
    assert!(config.show_ends);
    assert!(config.show_tabs);
}

#[test]
fn config_number_nonblank() {
    let mut config = CatConfig::new();
    config
        .parse(string_vec(&["cat.exe", "myfile.txt", "--number-nonblank"]))
        .unwrap();
    assert!(config.number_nonblank);

    config
        .parse(string_vec(&["cat.exe", "myfile.txt", "-b"]))
        .unwrap();
    assert!(config.number_nonblank);
}

#[test]
fn number_nonblank_override() {
    let mut config = CatConfig::new();
    config
        .parse(string_vec(&["cat.exe", "myfile.txt", "-b", "-n"]))
        .unwrap();
    assert!(config.number_nonblank);
    assert!(!config.number);

    config
        .parse(string_vec(&["cat.exe", "-n", "myfile.txt", "--number-nonblank"]))
        .unwrap();
    assert!(config.number_nonblank);
    assert!(!config.number);
}

#[test]
fn e_flag() {
    let mut config = CatConfig::new();
    config
        .parse(string_vec(&["cat.exe", "myfile.txt", "-e"]))
        .unwrap();
    assert!(config.show_nonprinting);
    assert!(config.show_ends);
}

#[test]
fn config_show_ends() {
    let mut config = CatConfig::new();
    config
        .parse(string_vec(&["cat.exe", "myfile.txt", "--show-ends"]))
        .unwrap();
    assert!(config.show_ends);

    config
        .parse(string_vec(&["cat.exe", "myfile.txt", "-E"]))
        .unwrap();
    assert!(config.show_ends);
}

#[test]
fn number() {
    let mut config = CatConfig::new();
    config
        .parse(string_vec(&["cat.exe", "myfile.txt", "--number"]))
        .unwrap();
    assert!(config.number);

    config
        .parse(string_vec(&["cat.exe", "myfile.txt", "-n"]))
        .unwrap();
    assert!(config.number);
}

#[test]
fn config_squeeze_blank() {
    let mut config = CatConfig::new();
    config
        .parse(string_vec(&["cat.exe", "myfile.txt", "--squeeze-blank"]))
        .unwrap();
    assert!(config.squeeze_blank);

    config
        .parse(string_vec(&["cat.exe", "myfile.txt", "-s"]))
        .unwrap();
    assert!(config.squeeze_blank);
}

#[test]
fn t_flag() {
    let mut config = CatConfig::new();
    config
        .parse(string_vec(&["cat.exe", "myfile.txt", "-t"]))
        .unwrap();
    assert!(config.show_nonprinting);
    assert!(config.show_tabs);
}

#[test]
fn config_show_tabs() {
    let mut config = CatConfig::new();
    config
        .parse(string_vec(&["cat.exe", "myfile.txt", "--show-tabs"]))
        .unwrap();
    assert!(config.show_tabs);

    config
        .parse(string_vec(&["cat.exe", "myfile.txt", "-T"]))
        .unwrap();
    assert!(config.show_tabs);
}

#[test]
fn config_show_nonprinting() {
    let mut config = CatConfig::new();
    config
        .parse(string_vec(&["cat.exe", "myfile.txt", "--show-nonprinting"]))
        .unwrap();
    assert!(config.show_nonprinting);

    config
        .parse(string_vec(&["cat.exe", "myfile.txt", "-v"]))
        .unwrap();
    assert!(config.show_nonprinting);
}

#[test]
fn help() {
    let mut config = CatConfig::new();
    let parse_result = config.parse(string_vec(&["cat.exe", "myfile.txt", "--help"]));
    assert!(parse_result.unwrap_err().contains("Usage:"));
}

#[test]
fn version() {
    let mut config = CatConfig::new();
    let parse_result = config.parse(string_vec(&["cat.exe", "myfile.txt", "--version"]));
    assert!(parse_result.unwrap_err().contains(VERSION));
}

#[test]
fn cat_version_line_is_exact() {
    let mut config = CatConfig::new();
    let parse_result = config.parse(string_vec(&["cat.exe", "--version"]));
    assert_eq!(parse_result.unwrap_err(), "cat (Win32CoreUtils) v0.1.0");
    assert!(config.files.is_empty());
}

#[test]
fn cat_help_wins_over_version_and_changes_nothing() {
    let mut config = CatConfig::new();
    let parse_result = config.parse(string_vec(&["cat.exe", "--version", "a.txt", "-n", "--help"]));
    assert!(parse_result.unwrap_err().starts_with("Usage: cat [OPTION]... [FILE]..."));
    assert!(config.files.is_empty());
    assert!(!config.number);
}

#[test]
fn cat_help_as_program_name_counts() {
    let mut config = CatConfig::new();
    let parse_result = config.parse(string_vec(&["--help", "a.txt"]));
    assert!(parse_result.unwrap_err().contains("Usage:"));
}

#[test]
fn cat_invalid_option_is_reported_after_earlier_ones_apply() {
    let mut config = CatConfig::new();
    let parse_result = config.parse(string_vec(&["cat.exe", "-n", "a.txt", "-x", "-s"]));
    assert_eq!(
        parse_result.unwrap_err(),
        "invalid option: -x\n Try cat --help for more information"
    );
    assert_eq!(config.files, vec!["a.txt".to_string()]);
    assert!(config.number);
    assert!(!config.squeeze_blank);
}

#[test]
fn cat_options_without_file_give_usage() {
    let mut config = CatConfig::new();
    let parse_result = config.parse(string_vec(&["cat.exe", "-n"]));
    assert!(parse_result.unwrap_err().contains("Usage:"));
    assert!(!config.number);
}

#[test]
fn cat_empty_command_line_gives_usage() {
    let mut config = CatConfig::new();
    assert!(config.parse(Vec::new()).unwrap_err().contains("Usage:"));
}

#[test]
fn cat_files_accumulate_over_calls() {
    let mut config = CatConfig::new();
    config.parse(string_vec(&["cat.exe", "a.txt"])).unwrap();
    config.parse(string_vec(&["cat.exe", "b.txt", "-"])).unwrap_err();
    assert_eq!(config.files, vec!["a.txt".to_string(), "b.txt".to_string()]);
}

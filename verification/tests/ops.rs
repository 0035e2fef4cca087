//! Commands that operators may run.
use qq_maid_core::ops::config::{
    config_error, config_path, read_error, valid_command_name, validate_capture_limit,
    validate_id_list, without_file, OpsCommandConfig, OpsCommands, OpsConfig, PathFacts,
};
use qq_maid_core::ops::rules::{
    can_be_argument, full_match_pattern, takes_more, OpsArgRule, OpsArgRules,
};

fn facts() -> PathFacts {
    PathFacts {
        absolute: vec!["/bin/tool".to_owned()],
        files: vec!["/bin/tool".to_owned()],
        directories: Vec::new(),
        program_directory: None,
        working_directory: None,
    }
}

fn command(pattern: Option<&str>, allowed: &[&str]) -> OpsCommandConfig {
    let rule = OpsArgRule {
        allowed_values: allowed.iter().map(|s| (*s).to_owned()).collect(),
        pattern: pattern.map(str::to_owned),
    };
    OpsCommandConfig {
        program: "/bin/tool".to_owned(),
        timeout_seconds: 10,
        max_stdout_bytes: 1024,
        max_stderr_bytes: 1024,
        min_args: 1,
        max_args: 1,
        args: OpsArgRules::new().insert(0, rule),
    }
}

fn args(values: &[&str]) -> Vec<String> {
    values.iter().map(|s| (*s).to_owned()).collect()
}

#[test]
fn patterns_fit_whole_arguments() {
    let command = command(Some("[a-z]+"), &[]);
    assert!(command.validate("status", &facts()).is_ok());
    assert!(command.check_args(&args(&["abc"])).unwrap().is_ok());
    assert!(command.check_args(&args(&["abc1"])).unwrap().is_err());
    assert!(command.check_args(&args(&[])).unwrap().is_err());
    assert!(command.check_args(&args(&["a", "b"])).unwrap().is_err());
}

#[test]
fn alternatives_are_kept_together() {
    let command = command(Some("a|b"), &[]);
    assert!(command.check_args(&args(&["b"])).unwrap().is_ok());
    assert!(command.check_args(&args(&["bx"])).unwrap().is_err());
    assert!(full_match_pattern("a|b").contains("a|b"));
}

#[test]
fn broken_patterns_are_refused() {
    let command = command(Some("("), &[]);
    assert!(command.validate("status", &facts()).is_err());
    assert!(command.check_args(&args(&["a"])).is_none());
}

#[test]
fn listed_values_are_the_only_ones() {
    let command = command(None, &["on", "off"]);
    assert!(command.validate("switch", &facts()).is_ok());
    assert!(command.check_args(&args(&["on"])).unwrap().is_ok());
    assert!(command.check_args(&args(&["On"])).unwrap().is_err());
}

#[test]
fn programs_have_to_be_there() {
    let mut absent = command(None, &["on"]);
    absent.program = "/bin/other".to_owned();
    assert!(absent.validate("switch", &facts()).is_err());
    let mut relative = command(None, &["on"]);
    relative.program = "tool".to_owned();
    assert!(relative.validate("switch", &facts()).is_err());
}

#[test]
fn names_are_plain() {
    assert!(valid_command_name("restart-bot"));
    assert!(!valid_command_name("重启"));
    assert!(!valid_command_name(""));
    let (commands, added) = OpsCommands::new().push("status".to_owned(), command(None, &["on"]));
    assert!(added);
    let (commands, again) = commands.push("status".to_owned(), command(None, &["off"]));
    assert!(!again);
    assert_eq!(commands.len(), 1);
    assert!(commands.get("status").is_some());
    assert!(commands.get("other").is_none());
}

#[test]
fn arguments_hold_no_control_characters() {
    assert!(can_be_argument("a b"));
    assert!(!can_be_argument("a\nb"));
    assert!(takes_more("中文", 5));
    assert!(!takes_more("中文", 6));
}

#[test]
fn limits_and_lists_are_checked() {
    assert!(validate_capture_limit("stdout", usize::MAX).is_err());
    assert!(validate_capture_limit("stdout", 1024).is_ok());
    assert!(validate_id_list("ids", &args(&["u1"])).is_ok());
    assert!(validate_id_list("ids", &args(&[" "])).is_err());
}

#[test]
fn a_missing_file_counts_only_where_it_was_named() {
    let usual = config_path(&None);
    assert!(!usual.is_override);
    let default = without_file(&usual).unwrap();
    assert!(!default.enabled);
    assert_eq!(default.codex.timeout_seconds, 1800);
    assert_eq!(default.codex.max_stdout_bytes, 32768);
    assert_eq!(default.codex.max_concurrent_tasks, 1);
    let named = config_path(&Some("/etc/ops.toml".to_owned()));
    assert!(named.is_override);
    assert_eq!(named.path, "/etc/ops.toml");
    assert!(without_file(&named).is_err());
    assert!(read_error(&named, "denied").contains("/etc/ops.toml"));
    assert!(config_error(&named, "bad").contains("bad"));
}

#[test]
fn the_default_is_off_and_valid() {
    let config = OpsConfig::default();
    assert!(!config.enabled);
    assert!(config.validate(&facts()).is_ok());
}

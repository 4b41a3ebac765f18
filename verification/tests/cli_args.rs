use tmux_jump::cli::{parse_args, CliError};

fn argv(items: &[&str]) -> Vec<String> {
    items.iter().map(|s| s.to_string()).collect()
}

#[test]
fn process_name_alone() {
    let a = parse_args(&argv(&["tmux-jump", "vim"])).unwrap();
    assert_eq!(a.process_name, "vim");
    assert_eq!(a.directory, None);
    assert_eq!(a.keys, None);
}

#[test]
fn flags_before_and_after_name() {
    let a = parse_args(&argv(&["tmux-jump", "-d", "/tmp", "vim", "-k", "Enter"])).unwrap();
    assert_eq!(a.process_name, "vim");
    assert_eq!(a.directory, Some("/tmp".to_string()));
    assert_eq!(a.keys, Some("Enter".to_string()));
}

#[test]
fn long_flags() {
    let a = parse_args(&argv(&["tmux-jump", "vim", "--directory", "/tmp", "--keys", "q"]))
        .unwrap();
    assert_eq!(a.directory, Some("/tmp".to_string()));
    assert_eq!(a.keys, Some("q".to_string()));
}

#[test]
fn missing_process_name() {
    let e = parse_args(&argv(&["tmux-jump"])).unwrap_err();
    assert!(matches!(e, CliError::MissingProcessName));
}

#[test]
fn unknown_flag_is_a_usage_error() {
    let e = parse_args(&argv(&["tmux-jump", "--bogus", "vim"])).unwrap_err();
    match e {
        CliError::UnknownOption(s) => assert_eq!(s, "--bogus"),
        _ => panic!("expected an unknown-option error"),
    }
}

#[test]
fn single_dash_is_unknown() {
    let e = parse_args(&argv(&["tmux-jump", "-x"])).unwrap_err();
    assert!(matches!(e, CliError::UnknownOption(_)));
}

#[test]
fn keys_flag_needs_a_value() {
    let e = parse_args(&argv(&["tmux-jump", "vim", "-k"])).unwrap_err();
    assert!(matches!(e, CliError::MissingKeysValue));
}

#[test]
fn directory_flag_needs_a_value() {
    let e = parse_args(&argv(&["tmux-jump", "--directory"])).unwrap_err();
    assert!(matches!(e, CliError::MissingDirectoryValue));
}

#[test]
fn extra_positionals_are_ignored() {
    let a = parse_args(&argv(&["tmux-jump", "vim", "emacs"])).unwrap();
    assert_eq!(a.process_name, "vim");
}

#[test]
fn later_flag_overrides_earlier() {
    let a = parse_args(&argv(&["tmux-jump", "vim", "-k", "a", "-k", "b"])).unwrap();
    assert_eq!(a.keys, Some("b".to_string()));
}

#[test]
fn flag_value_may_start_with_dash() {
    let a = parse_args(&argv(&["tmux-jump", "vim", "-k", "-x"])).unwrap();
    assert_eq!(a.keys, Some("-x".to_string()));
}

#[test]
fn empty_argv_reports_missing_name() {
    let e = parse_args(&Vec::new()).unwrap_err();
    assert!(matches!(e, CliError::MissingProcessName));
}

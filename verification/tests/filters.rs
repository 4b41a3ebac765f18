use tmux_jump::dirs::path_starts_within;
use tmux_jump::matching::{
    command_matches, matching_panes, pane_effective_command, CommandSource, MatchPolicy,
};
use tmux_jump::panes::PaneRecord;
use tmux_jump::procs::ProcessRecord;

fn rec(pid: &str, ppid: &str, command: &str) -> ProcessRecord {
    ProcessRecord {
        pid: pid.to_string(),
        ppid: ppid.to_string(),
        command: command.to_string(),
    }
}

fn pane(pane_id: &str, locator: &str, path: &str) -> PaneRecord {
    PaneRecord {
        pane_id: pane_id.to_string(),
        locator: locator.to_string(),
        path: path.to_string(),
    }
}

#[test]
fn substring_matches_command_with_arguments() {
    assert!(command_matches("/usr/bin/vim file.txt", "vim", MatchPolicy::Substring));
}

#[test]
fn substring_matches_inside_other_names() {
    assert!(command_matches("nvim", "vim", MatchPolicy::Substring));
}

#[test]
fn substring_rejects_absent_pattern() {
    assert!(!command_matches("emacs notes.org", "vim", MatchPolicy::Substring));
}

#[test]
fn empty_pattern_matches_everything() {
    assert!(command_matches("anything", "", MatchPolicy::Substring));
    assert!(command_matches("", "", MatchPolicy::Substring));
}

#[test]
fn exact_distinguishes_vim_from_nvim() {
    assert!(!command_matches("nvim", "vim", MatchPolicy::Exact));
    assert!(command_matches("vim", "vim", MatchPolicy::Exact));
    assert!(!command_matches("/usr/bin/vim file.txt", "vim", MatchPolicy::Exact));
}

#[test]
fn effective_command_resolved_from_table() {
    let table = vec![rec("7", "1", "sh"), rec("8", "7", "vim notes.txt")];
    let p = pane("%1", "7", "/home/u");
    assert_eq!(
        pane_effective_command(&p, &table, CommandSource::Foreground),
        Some("vim notes.txt".to_string())
    );
    assert_eq!(
        pane_effective_command(&p, &table, CommandSource::Reported),
        Some("7".to_string())
    );
}

#[test]
fn matching_panes_filters_by_foreground_command() {
    let table = vec![
        rec("10", "1", "sh"),
        rec("11", "10", "vim a.txt"),
        rec("20", "1", "sh"),
        rec("21", "20", "less b.txt"),
    ];
    let panes = vec![pane("%0", "10", "/a"), pane("%1", "20", "/b"), pane("%2", "30", "/c")];
    let kept = matching_panes(&panes, &table, "vim", MatchPolicy::Substring, CommandSource::Foreground);
    assert_eq!(kept.len(), 1);
    assert_eq!(kept[0].pane_id, "%0");
}

#[test]
fn matching_panes_reported_source_trusts_listing() {
    let table: Vec<ProcessRecord> = Vec::new();
    let panes = vec![pane("%0", "weechat", "/a"), pane("%1", "vim x", "/b")];
    let kept = matching_panes(&panes, &table, "vim", MatchPolicy::Substring, CommandSource::Reported);
    assert_eq!(kept.len(), 1);
    assert_eq!(kept[0].pane_id, "%1");
}

#[test]
fn directory_contains_subdirectory() {
    assert!(path_starts_within("/home/user/proj", "/home/user"));
}

#[test]
fn directory_contains_itself() {
    assert!(path_starts_within("/home/user/proj", "/home/user/proj"));
}

#[test]
fn sibling_with_shared_spelling_is_rejected() {
    assert!(!path_starts_within("/home/user/proj2", "/home/user/proj"));
    assert!(!path_starts_within("/home/foobar", "/home/foo"));
}

#[test]
fn root_contains_every_absolute_path() {
    assert!(path_starts_within("/", "/"));
    assert!(path_starts_within("/home", "/"));
}

#[test]
fn unrelated_directory_is_rejected() {
    assert!(!path_starts_within("/var/log", "/home/user"));
    assert!(!path_starts_within("/home", "/home/user"));
}

use tmux_jump::procs::ProcessRecord;
use tmux_jump::resolve::get_foreground_cmd;

fn rec(pid: &str, ppid: &str, command: &str) -> ProcessRecord {
    ProcessRecord {
        pid: pid.to_string(),
        ppid: ppid.to_string(),
        command: command.to_string(),
    }
}

#[test]
fn no_children_means_no_resolution() {
    let table = vec![rec("1", "0", "init"), rec("7", "1", "sh")];
    assert_eq!(get_foreground_cmd("7", &table), None);
}

#[test]
fn empty_table_means_no_resolution() {
    let table: Vec<ProcessRecord> = Vec::new();
    assert_eq!(get_foreground_cmd("7", &table), None);
}

#[test]
fn resolves_single_child() {
    let table = vec![rec("7", "1", "sh"), rec("8", "7", "vim notes.txt")];
    assert_eq!(get_foreground_cmd("7", &table), Some("vim notes.txt".to_string()));
}

#[test]
fn resolves_two_levels_deep() {
    let table = vec![
        rec("7", "1", "sh"),
        rec("8", "7", "make test"),
        rec("9", "8", "cc -c main.c"),
    ];
    assert_eq!(get_foreground_cmd("7", &table), Some("cc -c main.c".to_string()));
}

#[test]
fn first_child_in_table_order_wins() {
    let table = vec![
        rec("7", "1", "sh"),
        rec("8", "7", "vim a"),
        rec("9", "7", "vim b"),
    ];
    assert_eq!(get_foreground_cmd("7", &table), Some("vim a".to_string()));
}

#[test]
fn descends_through_first_child() {
    let table = vec![
        rec("8", "7", "make"),
        rec("9", "7", "tail -f log"),
        rec("10", "8", "cc x.c"),
    ];
    assert_eq!(get_foreground_cmd("7", &table), Some("cc x.c".to_string()));
}

#[test]
fn self_referential_entry_terminates() {
    let table = vec![rec("5", "5", "strange")];
    assert_eq!(get_foreground_cmd("5", &table), Some("strange".to_string()));
}

#[test]
fn two_cycle_terminates() {
    let table = vec![rec("5", "6", "a"), rec("6", "5", "b")];
    let r = get_foreground_cmd("5", &table);
    assert!(r == Some("a".to_string()) || r == Some("b".to_string()));
}

use tmux_jump::matching::{matching_panes, CommandSource, MatchPolicy};
use tmux_jump::panes::panes_from_output;
use tmux_jump::procs::process_table_from_output;
use tmux_jump::rank::{pick_pane, Candidate};

// The whole run, minus I/O: listing and enumeration in, pane id out.
// Canonicalization is the caller's job; here paths pass through as-is,
// except where a test drops one to model a vanished directory.
fn run(
    listing: &str,
    enumeration: &str,
    pattern: &str,
    dir: Option<&str>,
    cwd: Option<&str>,
) -> Option<String> {
    let panes = panes_from_output(listing);
    let table = process_table_from_output(enumeration);
    let matched = matching_panes(
        &panes,
        &table,
        pattern,
        MatchPolicy::Substring,
        CommandSource::Foreground,
    );
    let candidates: Vec<Candidate> = matched
        .into_iter()
        .map(|p| Candidate { pane_id: p.pane_id, path: p.path })
        .collect();
    pick_pane(
        &candidates,
        &dir.map(|s| s.to_string()),
        &cwd.map(|s| s.to_string()),
    )
}

#[test]
fn empty_listing_is_a_no_match() {
    assert_eq!(run("", "100 1 sh\n101 100 vim a\n", "vim", None, Some("/x")), None);
}

#[test]
fn empty_enumeration_is_a_no_match() {
    assert_eq!(run("%0|100|/x\n", "", "vim", None, Some("/x")), None);
}

#[test]
fn full_run_picks_the_pane_nearest_the_cwd() {
    let listing = "%0|100|/home/u/proj\n%1|200|/home/u/other\n%2|300|/home/u\n";
    let enumeration = "\
100 1 -zsh
101 100 vim main.rs
200 1 -zsh
201 200 vim notes.md
300 1 -zsh
301 300 less README
";
    let r = run(listing, enumeration, "vim", None, Some("/home/u/other"));
    assert_eq!(r, Some("%1".to_string()));
}

#[test]
fn directory_filter_narrows_the_full_run() {
    let listing = "%0|100|/home/u/proj\n%1|200|/home/u/other\n";
    let enumeration = "\
100 1 sh
101 100 vim a
200 1 sh
201 200 vim b
";
    let r = run(listing, enumeration, "vim", Some("/home/u/other"), Some("/tmp"));
    assert_eq!(r, Some("%1".to_string()));
}

#[test]
fn pane_without_foreground_job_is_skipped() {
    let listing = "%0|100|/home/u\n%1|200|/home/u\n";
    let enumeration = "\
100 1 sh
200 1 sh
201 200 vim b
";
    let r = run(listing, enumeration, "sh", None, None);
    // Neither shell has "sh" as its foreground command: %0 has no job
    // at all, and %1 is running vim.
    assert_eq!(r, None);
}

#[test]
fn vanished_pane_path_falls_through_to_no_match() {
    let listing = "%0|100|/gone\n";
    let enumeration = "100 1 sh\n101 100 vim a\n";
    let panes = panes_from_output(listing);
    let table = process_table_from_output(enumeration);
    let matched = matching_panes(
        &panes,
        &table,
        "vim",
        MatchPolicy::Substring,
        CommandSource::Foreground,
    );
    assert_eq!(matched.len(), 1);
    // The one match's path fails to canonicalize: it is dropped, and
    // selection over the survivors reports no match.
    let survivors: Vec<Candidate> = Vec::new();
    assert_eq!(pick_pane(&survivors, &None, &None), None);
}

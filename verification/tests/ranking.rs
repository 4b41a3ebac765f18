use tmux_jump::rank::{narrow_by_directory, pick_pane, select_pane, Candidate};

fn cand(pane_id: &str, path: &str) -> Candidate {
    Candidate { pane_id: pane_id.to_string(), path: path.to_string() }
}

fn abc() -> Vec<Candidate> {
    vec![cand("A", "/x/y"), cand("B", "/x"), cand("C", "/z")]
}

#[test]
fn exact_cwd_match_wins() {
    let r = select_pane(&abc(), &Some("/x".to_string()));
    assert_eq!(r, Some("B".to_string()));
}

#[test]
fn no_candidate_under_cwd_falls_back_to_first() {
    let r = select_pane(&abc(), &Some("/x/y/z".to_string()));
    assert_eq!(r, Some("A".to_string()));
}

#[test]
fn unrelated_cwd_falls_back_to_first() {
    let r = select_pane(&abc(), &Some("/q".to_string()));
    assert_eq!(r, Some("A".to_string()));
}

#[test]
fn first_candidate_inside_cwd_wins_without_exact_match() {
    let cands = vec![cand("A", "/z"), cand("B", "/x/y"), cand("C", "/x/w")];
    let r = select_pane(&cands, &Some("/x".to_string()));
    assert_eq!(r, Some("B".to_string()));
}

#[test]
fn without_cwd_first_candidate_wins() {
    let r = select_pane(&abc(), &None);
    assert_eq!(r, Some("A".to_string()));
}

#[test]
fn empty_candidate_list_selects_nothing() {
    let r = select_pane(&Vec::new(), &Some("/x".to_string()));
    assert_eq!(r, None);
    let r = select_pane(&Vec::new(), &None);
    assert_eq!(r, None);
}

#[test]
fn directory_filter_narrows_candidates() {
    let kept = narrow_by_directory(&abc(), &Some("/x".to_string()));
    assert_eq!(kept.len(), 2);
    assert_eq!(kept[0].pane_id, "A");
    assert_eq!(kept[1].pane_id, "B");
}

#[test]
fn directory_filter_absent_keeps_all() {
    let kept = narrow_by_directory(&abc(), &None);
    assert_eq!(kept.len(), 3);
}

#[test]
fn directory_filter_is_boundary_safe() {
    let cands = vec![cand("A", "/home/user/proj2"), cand("B", "/home/user/proj/sub")];
    let kept = narrow_by_directory(&cands, &Some("/home/user/proj".to_string()));
    assert_eq!(kept.len(), 1);
    assert_eq!(kept[0].pane_id, "B");
}

#[test]
fn pick_pane_combines_filter_and_rank() {
    let r = pick_pane(&abc(), &Some("/x".to_string()), &Some("/x".to_string()));
    assert_eq!(r, Some("B".to_string()));
}

#[test]
fn pick_pane_with_excluding_filter_finds_nothing() {
    let r = pick_pane(&abc(), &Some("/nowhere".to_string()), &Some("/x".to_string()));
    assert_eq!(r, None);
}

#[test]
fn dropped_only_candidate_leaves_no_match() {
    // A pane whose path no longer canonicalizes is excluded before
    // ranking; with it gone, selection reports no match.
    let survivors: Vec<Candidate> = Vec::new();
    assert_eq!(pick_pane(&survivors, &None, &Some("/x".to_string())), None);
}

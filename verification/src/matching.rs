//! The matcher: which panes are running the wanted process.
//!
//! A pane's effective command is either the resolved foreground
//! command of its shell (the locator is a pid) or the command the
//! multiplexer itself reports (the locator is that command). The
//! process-name filter then takes the pane when the effective command
//! contains the pattern (substring policy, the default: it still
//! matches commands invoked with extra arguments) or equals it
//! exactly (exact policy).

use vstd::prelude::*;

use crate::panes::{panes_view, PaneFields, PaneRecord};
use crate::procs::{records_view, ProcessRecord, RecordFields};
use crate::resolve::{foreground, get_foreground_cmd};
use crate::text::{contains_seq, str_contains, str_eq};

verus! {

/// The process-name filter's two policies.
#[derive(Clone, Copy)]
pub enum MatchPolicy {
    /// The pattern occurs anywhere in the effective command.
    Substring,
    /// The effective command is the pattern, character for character.
    Exact,
}

/// How a pane's locator field is to be read.
#[derive(Clone, Copy)]
pub enum CommandSource {
    /// The locator is the pane shell's pid: resolve its foreground
    /// process through the table.
    Foreground,
    /// The locator is the command the multiplexer reports: take it as
    /// it stands.
    Reported,
}

/// Does `command` satisfy the filter `pattern` under `policy`?
pub open spec fn command_matches_spec(
    command: Seq<char>,
    pattern: Seq<char>,
    policy: MatchPolicy,
) -> bool {
    match policy {
        MatchPolicy::Substring => contains_seq(command, pattern),
        MatchPolicy::Exact => command == pattern,
    }
}

/// Filter test on views.
pub fn command_matches(command: &str, pattern: &str, policy: MatchPolicy) -> (r: bool)
    ensures
        r == command_matches_spec(command@, pattern@, policy),
{
    match policy {
        MatchPolicy::Substring => str_contains(command, pattern),
        MatchPolicy::Exact => str_eq(command, pattern),
    }
}

/// The pane's effective command: the resolved foreground command of
/// its shell, or the reported one, per `source`.
pub open spec fn effective_command_spec(
    recs: Seq<RecordFields>,
    pane: PaneFields,
    source: CommandSource,
) -> Option<Seq<char>> {
    match source {
        CommandSource::Foreground => foreground(recs, pane.locator, recs.len()),
        CommandSource::Reported => Some(pane.locator),
    }
}

/// Obtains the pane's effective command; `None` when the pane's shell
/// has no foreground process to resolve.
pub fn pane_effective_command(
    pane: &PaneRecord,
    table: &Vec<ProcessRecord>,
    source: CommandSource,
) -> (r: Option<String>)
    ensures
        match r {
            Some(c) => effective_command_spec(records_view(table@), pane@, source) == Some(c@),
            None => effective_command_spec(records_view(table@), pane@, source) is None,
        },
{
    match source {
        CommandSource::Foreground => get_foreground_cmd(pane.locator.as_str(), table),
        CommandSource::Reported => Some(pane.locator.clone()),
    }
}

/// The pane passes the process-name filter: it has an effective
/// command and that command matches the pattern.
pub open spec fn pane_matches(
    recs: Seq<RecordFields>,
    pane: PaneFields,
    pattern: Seq<char>,
    policy: MatchPolicy,
    source: CommandSource,
) -> bool {
    match effective_command_spec(recs, pane, source) {
        Some(c) => command_matches_spec(c, pattern, policy),
        None => false,
    }
}

/// The panes that pass the filter, in listing order.
pub open spec fn matching_spec(
    panes: Seq<PaneFields>,
    recs: Seq<RecordFields>,
    pattern: Seq<char>,
    policy: MatchPolicy,
    source: CommandSource,
) -> Seq<PaneFields>
    decreases panes.len(),
{
    if panes.len() == 0 {
        Seq::empty()
    } else {
        let rest = matching_spec(panes.drop_last(), recs, pattern, policy, source);
        if pane_matches(recs, panes.last(), pattern, policy, source) {
            rest.push(panes.last())
        } else {
            rest
        }
    }
}

/// The filter keeps only matching panes: every entry of the filtered
/// list passes the process-name filter.
pub proof fn lemma_matching_sound(
    panes: Seq<PaneFields>,
    recs: Seq<RecordFields>,
    pattern: Seq<char>,
    policy: MatchPolicy,
    source: CommandSource,
    i: int,
)
    requires
        0 <= i < matching_spec(panes, recs, pattern, policy, source).len(),
    ensures
        pane_matches(recs, matching_spec(panes, recs, pattern, policy, source)[i], pattern, policy, source),
    decreases panes.len(),
{
    let m = matching_spec(panes, recs, pattern, policy, source);
    let rest = matching_spec(panes.drop_last(), recs, pattern, policy, source);
    if pane_matches(recs, panes.last(), pattern, policy, source) && i == rest.len() {
    } else {
        lemma_matching_sound(panes.drop_last(), recs, pattern, policy, source, i);
    }
}

/// The filter loses no matching pane: every pane that passes the
/// process-name filter is in the filtered list.
pub proof fn lemma_matching_complete(
    panes: Seq<PaneFields>,
    recs: Seq<RecordFields>,
    pattern: Seq<char>,
    policy: MatchPolicy,
    source: CommandSource,
    i: int,
)
    requires
        0 <= i < panes.len(),
        pane_matches(recs, panes[i], pattern, policy, source),
    ensures
        matching_spec(panes, recs, pattern, policy, source).contains(panes[i]),
    decreases panes.len(),
{
    let m = matching_spec(panes, recs, pattern, policy, source);
    let rest = matching_spec(panes.drop_last(), recs, pattern, policy, source);
    if i == panes.len() - 1 {
        assert(m[rest.len() as int] == panes[i]);
    } else {
        lemma_matching_complete(panes.drop_last(), recs, pattern, policy, source, i);
        let j = choose|j: int|
            0 <= j < rest.len() && rest[j] == panes.drop_last()[i];
        assert(panes.drop_last()[i] == panes[i]);
        assert(m[j] == panes[i]);
    }
}

/// Narrows the pane list to those running the wanted process,
/// preserving the listing's order.
pub fn matching_panes(
    panes: &Vec<PaneRecord>,
    table: &Vec<ProcessRecord>,
    pattern: &str,
    policy: MatchPolicy,
    source: CommandSource,
) -> (r: Vec<PaneRecord>)
    ensures
        panes_view(r@) == matching_spec(
            panes_view(panes@),
            records_view(table@),
            pattern@,
            policy,
            source,
        ),
{
    let ghost pv = panes_view(panes@);
    let ghost recs = records_view(table@);
    let mut r: Vec<PaneRecord> = Vec::new();
    proof {
        assert(pv.take(0) =~= Seq::<PaneFields>::empty());
        assert(panes_view(r@) =~= matching_spec(pv.take(0), recs, pattern@, policy, source));
    }
    let mut i: usize = 0;
    while i < panes.len()
        invariant
            0 <= i <= panes.len(),
            pv == panes_view(panes@),
            recs == records_view(table@),
            pv.len() == panes@.len(),
            panes_view(r@) == matching_spec(pv.take(i as int), recs, pattern@, policy, source),
        decreases panes.len() - i,
    {
        proof {
            assert(pv[i as int] == panes@[i as int]@);
            assert(pv.take(i + 1).drop_last() =~= pv.take(i as int));
            assert(pv.take(i + 1).last() == pv[i as int]);
        }
        let keep = match pane_effective_command(&panes[i], table, source) {
            Some(c) => command_matches(c.as_str(), pattern, policy),
            None => false,
        };
        if keep {
            let ghost old_r = r@;
            let pane = &panes[i];
            r.push(
                PaneRecord {
                    pane_id: pane.pane_id.clone(),
                    locator: pane.locator.clone(),
                    path: pane.path.clone(),
                },
            );
            proof {
                assert(r@.last()@ == pv[i as int]);
                assert(panes_view(r@) =~= panes_view(old_r).push(pv[i as int]));
            }
        }
        i = i + 1;
    }
    proof {
        assert(pv.take(pv.len() as int) =~= pv);
    }
    r
}

} // verus!

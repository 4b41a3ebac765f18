//! Foreground resolution: from a pane's shell process down to the
//! process the user actually sees.
//!
//! The resolver walks the table from a shell's pid to its first child
//! (first in table order, which follows the enumeration's own order —
//! a deterministic best-effort stand-in for "the foreground child"),
//! then recurses. It stops at a leaf and returns that process's
//! command. Recursion is fuel-bounded by the table's size, so a
//! malformed, cyclic table cannot make it loop: when the fuel runs out
//! the current child's command is returned.

use vstd::prelude::*;

use crate::procs::{records_view, ProcessRecord, RecordFields};
use crate::text::str_eq;

verus! {

/// Index of the first record whose parent is `pid`, searching from `i`.
pub open spec fn first_child_from(recs: Seq<RecordFields>, pid: Seq<char>, i: int) -> Option<
    int,
>
    decreases recs.len() - i when 0 <= i <= recs.len()
{
    if i >= recs.len() {
        None
    } else if recs[i].ppid == pid {
        Some(i)
    } else {
        first_child_from(recs, pid, i + 1)
    }
}

/// Index of the first record whose parent is `pid`.
pub open spec fn first_child(recs: Seq<RecordFields>, pid: Seq<char>) -> Option<int> {
    first_child_from(recs, pid, 0)
}

/// The command of the foreground process under `pid`: descend to the
/// first child, recurse while fuel remains, and fall back to the
/// deepest child reached. `None` exactly when `pid` has no child.
pub open spec fn foreground(recs: Seq<RecordFields>, pid: Seq<char>, fuel: nat) -> Option<
    Seq<char>,
>
    decreases fuel,
{
    match first_child(recs, pid) {
        None => None,
        Some(j) => {
            let child = recs[j];
            if fuel == 0 {
                Some(child.command)
            } else {
                match foreground(recs, child.pid, (fuel - 1) as nat) {
                    Some(cmd) => Some(cmd),
                    None => Some(child.command),
                }
            }
        },
    }
}

/// Finds the first record in `table` whose parent field is `pid`.
fn find_first_child(table: &Vec<ProcessRecord>, pid: &str) -> (r: Option<usize>)
    ensures
        match r {
            Some(j) => j < table@.len() && first_child(records_view(table@), pid@) == Some(
                j as int,
            ),
            None => first_child(records_view(table@), pid@) is None,
        },
{
    let ghost recs = records_view(table@);
    let mut i: usize = 0;
    while i < table.len()
        invariant
            0 <= i <= table@.len(),
            recs == records_view(table@),
            recs.len() == table@.len(),
            first_child_from(recs, pid@, 0) == first_child_from(recs, pid@, i as int),
        decreases table@.len() - i,
    {
        proof {
            assert(recs[i as int] == table@[i as int]@);
        }
        if str_eq(table[i].ppid.as_str(), pid) {
            return Some(i);
        }
        i = i + 1;
    }
    None
}

/// Descends from `pid` with the given recursion budget.
fn resolve_with_fuel(table: &Vec<ProcessRecord>, pid: &str, fuel: usize) -> (r: Option<String>)
    ensures
        match r {
            Some(c) => foreground(records_view(table@), pid@, fuel as nat) == Some(c@),
            None => foreground(records_view(table@), pid@, fuel as nat) is None,
        },
    decreases fuel,
{
    match find_first_child(table, pid) {
        None => None,
        Some(j) => {
            proof {
                assert(records_view(table@)[j as int] == table@[j as int]@);
            }
            let child_command = table[j].command.clone();
            if fuel == 0 {
                Some(child_command)
            } else {
                match resolve_with_fuel(table, table[j].pid.as_str(), fuel - 1) {
                    Some(c) => Some(c),
                    None => Some(child_command),
                }
            }
        },
    }
}

/// The foreground command under `shell_pid`, with the table's size as
/// the recursion budget — enough to reach the leaf of any acyclic
/// chain, and a hard bound against malformed cyclic tables.
pub fn get_foreground_cmd(shell_pid: &str, table: &Vec<ProcessRecord>) -> (r: Option<String>)
    ensures
        match r {
            Some(c) => foreground(records_view(table@), shell_pid@, table@.len() as nat) == Some(
                c@,
            ),
            None => foreground(records_view(table@), shell_pid@, table@.len() as nat) is None,
        },
{
    resolve_with_fuel(table, shell_pid, table.len())
}

/// No record of `recs` names `pid` as its parent: there is no first
/// child, from any starting point.
proof fn lemma_first_child_none(recs: Seq<RecordFields>, pid: Seq<char>, i: int)
    requires
        0 <= i <= recs.len(),
        forall|j: int| 0 <= j < recs.len() ==> recs[j].ppid != pid,
    ensures
        first_child_from(recs, pid, i) is None,
    decreases recs.len() - i,
{
    if i < recs.len() {
        lemma_first_child_none(recs, pid, i + 1);
    }
}

/// A process with no children resolves to nothing, whatever the
/// recursion budget: panes whose shell runs no job yield no candidate.
pub proof fn lemma_no_children_no_foreground(recs: Seq<RecordFields>, pid: Seq<char>, fuel: nat)
    requires
        forall|j: int| 0 <= j < recs.len() ==> recs[j].ppid != pid,
    ensures
        foreground(recs, pid, fuel) is None,
{
    lemma_first_child_none(recs, pid, 0);
}

/// When the first child of `pid` is itself childless, resolution
/// returns that child's command, whatever the recursion budget: the
/// deepest descendant's command is the one reported.
pub proof fn lemma_leaf_child_resolves(
    recs: Seq<RecordFields>,
    pid: Seq<char>,
    j: int,
    fuel: nat,
)
    requires
        first_child(recs, pid) == Some(j),
        0 <= j < recs.len(),
        forall|k: int| 0 <= k < recs.len() ==> recs[k].ppid != recs[j].pid,
    ensures
        foreground(recs, pid, fuel) == Some(recs[j].command),
{
    if fuel > 0 {
        lemma_no_children_no_foreground(recs, recs[j].pid, (fuel - 1) as nat);
    }
}

} // verus!

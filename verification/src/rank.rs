//! The ranker: narrowing candidates to a directory and choosing one
//! winner by proximity to the caller's working directory.
//!
//! Precedence is strict: a candidate whose path equals the working
//! directory exactly beats the first candidate lying within it, which
//! beats the first candidate outright. The listing's order is the
//! tie-break throughout, and an empty candidate list yields no winner
//! — a normal outcome, not an error.

use vstd::prelude::*;

use crate::dirs::{path_starts_within, path_within};
use crate::text::{opt_str_view, str_eq};

verus! {

/// A pane that passed the process-name filter, with its canonical
/// (symlink-resolved, absolute) path.
pub struct Candidate {
    pub pane_id: String,
    pub path: String,
}

/// The mathematical content of a candidate.
pub ghost struct CandidateFields {
    pub pane_id: Seq<char>,
    pub path: Seq<char>,
}

impl View for Candidate {
    type V = CandidateFields;

    open spec fn view(&self) -> CandidateFields {
        CandidateFields { pane_id: self.pane_id@, path: self.path@ }
    }
}

/// The views of a sequence of candidates.
pub open spec fn candidates_view(t: Seq<Candidate>) -> Seq<CandidateFields> {
    t.map_values(|c: Candidate| c@)
}

/// The candidates whose path lies within `dir` (all of them when no
/// directory filter is given), in order.
pub open spec fn narrowed_spec(cands: Seq<CandidateFields>, dir: Option<Seq<char>>) -> Seq<
    CandidateFields,
>
    decreases cands.len(),
{
    if cands.len() == 0 {
        Seq::empty()
    } else {
        let rest = narrowed_spec(cands.drop_last(), dir);
        if passes_dir(cands.last(), dir) {
            rest.push(cands.last())
        } else {
            rest
        }
    }
}

/// Applies the optional directory filter, preserving order.
pub fn narrow_by_directory(cands: &Vec<Candidate>, dir: &Option<String>) -> (r: Vec<Candidate>)
    ensures
        candidates_view(r@) == narrowed_spec(candidates_view(cands@), opt_str_view(*dir)),
{
    let ghost cv = candidates_view(cands@);
    let ghost dv = opt_str_view(*dir);
    let mut r: Vec<Candidate> = Vec::new();
    proof {
        assert(cv.take(0) =~= Seq::<CandidateFields>::empty());
        assert(candidates_view(r@) =~= narrowed_spec(cv.take(0), dv));
    }
    let mut i: usize = 0;
    while i < cands.len()
        invariant
            0 <= i <= cands.len(),
            cv == candidates_view(cands@),
            dv == opt_str_view(*dir),
            cv.len() == cands@.len(),
            candidates_view(r@) == narrowed_spec(cv.take(i as int), dv),
        decreases cands.len() - i,
    {
        proof {
            assert(cv[i as int] == cands@[i as int]@);
            assert(cv.take(i + 1).drop_last() =~= cv.take(i as int));
            assert(cv.take(i + 1).last() == cv[i as int]);
        }
        let keep = match dir {
            Some(d) => path_starts_within(cands[i].path.as_str(), d.as_str()),
            None => true,
        };
        if keep {
            let ghost old_r = r@;
            let c = &cands[i];
            r.push(Candidate { pane_id: c.pane_id.clone(), path: c.path.clone() });
            proof {
                assert(candidates_view(r@) =~= candidates_view(old_r).push(cv[i as int]));
            }
        }
        i = i + 1;
    }
    proof {
        assert(cv.take(cv.len() as int) =~= cv);
    }
    r
}

/// Whether the directory filter keeps a candidate.
pub open spec fn passes_dir(c: CandidateFields, dir: Option<Seq<char>>) -> bool {
    match dir {
        Some(d) => path_within(d, c.path),
        None => true,
    }
}

/// The directory filter keeps only candidates inside the directory.
pub proof fn lemma_narrowed_sound(cands: Seq<CandidateFields>, dir: Option<Seq<char>>, i: int)
    requires
        0 <= i < narrowed_spec(cands, dir).len(),
    ensures
        passes_dir(narrowed_spec(cands, dir)[i], dir),
    decreases cands.len(),
{
    let rest = narrowed_spec(cands.drop_last(), dir);
    if passes_dir(cands.last(), dir) && i == rest.len() {
    } else {
        lemma_narrowed_sound(cands.drop_last(), dir, i);
    }
}

/// The directory filter loses no candidate inside the directory.
pub proof fn lemma_narrowed_complete(cands: Seq<CandidateFields>, dir: Option<Seq<char>>, i: int)
    requires
        0 <= i < cands.len(),
        passes_dir(cands[i], dir),
    ensures
        narrowed_spec(cands, dir).contains(cands[i]),
    decreases cands.len(),
{
    let m = narrowed_spec(cands, dir);
    let rest = narrowed_spec(cands.drop_last(), dir);
    if i == cands.len() - 1 {
        assert(m[rest.len() as int] == cands[i]);
    } else {
        lemma_narrowed_complete(cands.drop_last(), dir, i);
        let j = choose|j: int| 0 <= j < rest.len() && rest[j] == cands.drop_last()[i];
        assert(cands.drop_last()[i] == cands[i]);
        assert(m[j] == cands[i]);
    }
}

/// Index of the first candidate at or after `i` whose path is exactly
/// `cwd`.
pub open spec fn first_exact_from(cands: Seq<CandidateFields>, cwd: Seq<char>, i: int) -> Option<
    int,
>
    decreases cands.len() - i when 0 <= i <= cands.len()
{
    if i >= cands.len() {
        None
    } else if cands[i].path == cwd {
        Some(i)
    } else {
        first_exact_from(cands, cwd, i + 1)
    }
}

/// Index of the first candidate at or after `i` whose path lies
/// within `cwd`.
pub open spec fn first_within_from(cands: Seq<CandidateFields>, cwd: Seq<char>, i: int) -> Option<
    int,
>
    decreases cands.len() - i when 0 <= i <= cands.len()
{
    if i >= cands.len() {
        None
    } else if path_within(cwd, cands[i].path) {
        Some(i)
    } else {
        first_within_from(cands, cwd, i + 1)
    }
}

/// The winning index: exact working-directory match first, then the
/// first candidate inside the working directory, then the first
/// candidate; `None` only on an empty list.
pub open spec fn winner(cands: Seq<CandidateFields>, cwd: Option<Seq<char>>) -> Option<int> {
    if cands.len() == 0 {
        None
    } else {
        match cwd {
            None => Some(0),
            Some(c) => match first_exact_from(cands, c, 0) {
                Some(i) => Some(i),
                None => match first_within_from(cands, c, 0) {
                    Some(i) => Some(i),
                    None => Some(0),
                },
            },
        }
    }
}

/// Finds the first candidate whose path is exactly `cwd`.
fn find_exact(cands: &Vec<Candidate>, cwd: &str) -> (r: Option<usize>)
    ensures
        match r {
            Some(j) => j < cands@.len() && first_exact_from(candidates_view(cands@), cwd@, 0)
                == Some(j as int),
            None => first_exact_from(candidates_view(cands@), cwd@, 0) is None,
        },
{
    let ghost cv = candidates_view(cands@);
    let mut i: usize = 0;
    while i < cands.len()
        invariant
            0 <= i <= cands.len(),
            cv == candidates_view(cands@),
            cv.len() == cands@.len(),
            first_exact_from(cv, cwd@, 0) == first_exact_from(cv, cwd@, i as int),
        decreases cands.len() - i,
    {
        proof {
            assert(cv[i as int] == cands@[i as int]@);
        }
        if str_eq(cands[i].path.as_str(), cwd) {
            return Some(i);
        }
        i = i + 1;
    }
    None
}

/// Finds the first candidate whose path lies within `cwd`.
fn find_within(cands: &Vec<Candidate>, cwd: &str) -> (r: Option<usize>)
    ensures
        match r {
            Some(j) => j < cands@.len() && first_within_from(candidates_view(cands@), cwd@, 0)
                == Some(j as int),
            None => first_within_from(candidates_view(cands@), cwd@, 0) is None,
        },
{
    let ghost cv = candidates_view(cands@);
    let mut i: usize = 0;
    while i < cands.len()
        invariant
            0 <= i <= cands.len(),
            cv == candidates_view(cands@),
            cv.len() == cands@.len(),
            first_within_from(cv, cwd@, 0) == first_within_from(cv, cwd@, i as int),
        decreases cands.len() - i,
    {
        proof {
            assert(cv[i as int] == cands@[i as int]@);
        }
        if path_starts_within(cands[i].path.as_str(), cwd) {
            return Some(i);
        }
        i = i + 1;
    }
    None
}

/// Selects the winning pane's id, per `winner`'s precedence.
pub fn select_pane(cands: &Vec<Candidate>, cwd: &Option<String>) -> (r: Option<String>)
    ensures
        match winner(candidates_view(cands@), opt_str_view(*cwd)) {
            Some(i) => r matches Some(id) && id@ == candidates_view(cands@)[i].pane_id,
            None => r is None,
        },
        (r is None) <==> cands@.len() == 0,
{
    proof {
        assert(candidates_view(cands@).len() == cands@.len());
    }
    if cands.len() == 0 {
        return None;
    }
    match cwd {
        None => {
            proof {
                assert(candidates_view(cands@)[0] == cands@[0]@);
            }
            Some(cands[0].pane_id.clone())
        },
        Some(c) => {
            let j = match find_exact(cands, c.as_str()) {
                Some(j) => j,
                None => match find_within(cands, c.as_str()) {
                    Some(j) => j,
                    None => 0,
                },
            };
            proof {
                assert(candidates_view(cands@)[j as int] == cands@[j as int]@);
            }
            Some(cands[j].pane_id.clone())
        },
    }
}

/// What `first_exact_from` finds: the first exact match at or after
/// `i`, or a guarantee that none exists.
proof fn lemma_first_exact_from(cands: Seq<CandidateFields>, cwd: Seq<char>, i: int)
    requires
        0 <= i <= cands.len(),
    ensures
        match first_exact_from(cands, cwd, i) {
            Some(j) => i <= j < cands.len() && cands[j].path == cwd && (forall|k: int|
                i <= k < j ==> cands[k].path != cwd),
            None => forall|k: int| i <= k < cands.len() ==> cands[k].path != cwd,
        },
    decreases cands.len() - i,
{
    if i < cands.len() && cands[i].path != cwd {
        lemma_first_exact_from(cands, cwd, i + 1);
    }
}

/// What `first_within_from` finds: the first candidate inside `cwd`
/// at or after `i`, or a guarantee that none exists.
proof fn lemma_first_within_from(cands: Seq<CandidateFields>, cwd: Seq<char>, i: int)
    requires
        0 <= i <= cands.len(),
    ensures
        match first_within_from(cands, cwd, i) {
            Some(j) => i <= j < cands.len() && path_within(cwd, cands[j].path) && (forall|k: int|
                i <= k < j ==> !path_within(cwd, cands[k].path)),
            None => forall|k: int| i <= k < cands.len() ==> !path_within(cwd, cands[k].path),
        },
    decreases cands.len() - i,
{
    if i < cands.len() && !path_within(cwd, cands[i].path) {
        lemma_first_within_from(cands, cwd, i + 1);
    }
}

/// The ranker's strict precedence, spelled out. The chosen index is
/// in range; it is the first exact working-directory match whenever
/// one exists; failing that, the first candidate lying within the
/// working directory whenever one exists; failing both, the first
/// candidate outright.
pub proof fn lemma_winner_precedence(cands: Seq<CandidateFields>, cwd: Seq<char>, i: int)
    requires
        winner(cands, Some(cwd)) == Some(i),
    ensures
        0 <= i < cands.len(),
        (exists|j: int| 0 <= j < cands.len() && cands[j].path == cwd) ==> cands[i].path == cwd
            && (forall|k: int| 0 <= k < i ==> cands[k].path != cwd),
        (forall|j: int| 0 <= j < cands.len() ==> cands[j].path != cwd) && (exists|j: int|
            0 <= j < cands.len() && path_within(cwd, cands[j].path)) ==> path_within(
            cwd,
            cands[i].path,
        ) && (forall|k: int| 0 <= k < i ==> !path_within(cwd, cands[k].path)),
        (forall|j: int| 0 <= j < cands.len() ==> cands[j].path != cwd) && (forall|j: int|
            0 <= j < cands.len() ==> !path_within(cwd, cands[j].path)) ==> i == 0,
{
    lemma_first_exact_from(cands, cwd, 0);
    lemma_first_within_from(cands, cwd, 0);
}

/// Applies the directory filter and selects the winner in one step:
/// the pane id the whole run switches to, or `None` — the no-match
/// outcome.
pub fn pick_pane(cands: &Vec<Candidate>, dir: &Option<String>, cwd: &Option<String>) -> (r:
    Option<String>)
    ensures
        ({
            let kept = narrowed_spec(candidates_view(cands@), opt_str_view(*dir));
            match winner(kept, opt_str_view(*cwd)) {
                Some(i) => r matches Some(id) && id@ == kept[i].pane_id,
                None => r is None,
            }
        }),
{
    let kept = narrow_by_directory(cands, dir);
    select_pane(&kept, cwd)
}

} // verus!

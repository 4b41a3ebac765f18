//! The pane collector: one record per line of the multiplexer's pane
//! listing.
//!
//! Each line carries the pane id, a locator (the pane's shell pid, to
//! be resolved, or the command the multiplexer itself reports) and the
//! pane's current working directory, separated by a pipe character —
//! a delimiter not expected inside any field. Lines with other than
//! exactly three fields are discarded; the listing's own order is
//! kept, since it is the ranker's final tie-break.

use vstd::prelude::*;

use crate::lines::{lines_from, split_lines};
use crate::text::find_char;
use crate::text::scan_to_char;

verus! {

/// One pane: its id, its locator field and its reported directory.
pub struct PaneRecord {
    pub pane_id: String,
    pub locator: String,
    pub path: String,
}

/// The mathematical content of a pane record.
pub ghost struct PaneFields {
    pub pane_id: Seq<char>,
    pub locator: Seq<char>,
    pub path: Seq<char>,
}

impl View for PaneRecord {
    type V = PaneFields;

    open spec fn view(&self) -> PaneFields {
        PaneFields { pane_id: self.pane_id@, locator: self.locator@, path: self.path@ }
    }
}

/// How one listing line splits on its two pipes; `None` unless the
/// line holds exactly two pipes, i.e. exactly three (possibly empty)
/// fields.
pub open spec fn split_pane_fields(s: Seq<char>) -> Option<PaneFields> {
    let p = find_char(s, 0, '|');
    if p >= s.len() {
        None
    } else {
        let q = find_char(s, p + 1, '|');
        if q >= s.len() {
            None
        } else if find_char(s, q + 1, '|') < s.len() {
            None
        } else {
            Some(
                PaneFields {
                    pane_id: s.subrange(0, p),
                    locator: s.subrange(p + 1, q),
                    path: s.subrange(q + 1, s.len() as int),
                },
            )
        }
    }
}

/// Parses one listing line into a pane record, exactly as
/// `split_pane_fields` says.
pub fn parse_pane_line(line: &str) -> (r: Option<PaneRecord>)
    ensures
        match r {
            Some(rec) => split_pane_fields(line@) == Some(rec@),
            None => split_pane_fields(line@) is None,
        },
{
    let n = line.unicode_len();
    let p = scan_to_char(line, 0, '|');
    if p >= n {
        return None;
    }
    let q = scan_to_char(line, p + 1, '|');
    if q >= n {
        return None;
    }
    let r = scan_to_char(line, q + 1, '|');
    if r < n {
        return None;
    }
    let pane_id = line.substring_char(0, p).to_owned();
    let locator = line.substring_char(p + 1, q).to_owned();
    let path = line.substring_char(q + 1, n).to_owned();
    Some(PaneRecord { pane_id, locator, path })
}

/// The fields of every well-formed line among `lines`, in order.
pub open spec fn parsed_panes(lines: Seq<Seq<char>>) -> Seq<PaneFields>
    decreases lines.len(),
{
    if lines.len() == 0 {
        Seq::empty()
    } else {
        let rest = parsed_panes(lines.drop_last());
        match split_pane_fields(lines.last()) {
            Some(f) => rest.push(f),
            None => rest,
        }
    }
}

/// The views of a sequence of pane records.
pub open spec fn panes_view(t: Seq<PaneRecord>) -> Seq<PaneFields> {
    t.map_values(|r: PaneRecord| r@)
}

/// Builds the pane list from the listing's lines, keeping every
/// well-formed line in order and discarding the rest.
pub fn collect_panes(lines: &Vec<String>) -> (t: Vec<PaneRecord>)
    ensures
        panes_view(t@) == parsed_panes(lines.deep_view()),
{
    let ghost dv = lines.deep_view();
    let mut t: Vec<PaneRecord> = Vec::new();
    proof {
        assert(dv.take(0) =~= Seq::<Seq<char>>::empty());
        assert(panes_view(t@) =~= parsed_panes(dv.take(0)));
    }
    let mut i: usize = 0;
    while i < lines.len()
        invariant
            0 <= i <= lines.len(),
            dv == lines.deep_view(),
            dv.len() == lines@.len(),
            panes_view(t@) == parsed_panes(dv.take(i as int)),
        decreases lines.len() - i,
    {
        let parsed = parse_pane_line(lines[i].as_str());
        proof {
            assert(dv[i as int] == lines@[i as int]@);
            assert(dv.take(i + 1).drop_last() =~= dv.take(i as int));
            assert(dv.take(i + 1).last() == dv[i as int]);
        }
        match parsed {
            Some(rec) => {
                let ghost old_t = t@;
                t.push(rec);
                proof {
                    assert(panes_view(t@) =~= panes_view(old_t).push(rec@));
                }
            },
            None => {},
        }
        i = i + 1;
    }
    proof {
        assert(dv.take(dv.len() as int) =~= dv);
    }
    t
}

/// Builds the pane list straight from the listing's raw output.
pub fn panes_from_output(out: &str) -> (t: Vec<PaneRecord>)
    ensures
        panes_view(t@) == parsed_panes(lines_from(out@, 0)),
{
    let lines = split_lines(out);
    collect_panes(&lines)
}

} // verus!

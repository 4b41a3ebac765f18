//! The process table: one record per line of the system's process
//! enumeration.
//!
//! Each line carries a process id, a parent id and the full command,
//! separated by whitespace; the command is the whole remainder of the
//! line and may itself contain spaces. Malformed lines (fewer than
//! three fields) are skipped, never an error: an empty table is valid.

use vstd::prelude::*;

use crate::lines::{lines_from, split_lines};
use crate::text::{is_space, skip_spaces, skip_token};
use crate::text::{scan_spaces, scan_token};

verus! {

/// One process: its id, its parent's id and its command line.
pub struct ProcessRecord {
    pub pid: String,
    pub ppid: String,
    pub command: String,
}

/// The mathematical content of a record: the three fields as
/// character sequences.
pub ghost struct RecordFields {
    pub pid: Seq<char>,
    pub ppid: Seq<char>,
    pub command: Seq<char>,
}

impl View for ProcessRecord {
    type V = RecordFields;

    open spec fn view(&self) -> RecordFields {
        RecordFields { pid: self.pid@, ppid: self.ppid@, command: self.command@ }
    }
}

/// How one enumeration line splits into its three fields: leading
/// whitespace, the pid token, whitespace, the parent-pid token,
/// whitespace, and the rest of the line verbatim as the command.
/// `None` when the line does not yield three non-empty fields.
pub open spec fn split_fields(s: Seq<char>) -> Option<RecordFields> {
    let a = skip_spaces(s, 0);
    let b = skip_token(s, a);
    let c = skip_spaces(s, b);
    let d = skip_token(s, c);
    let e = skip_spaces(s, d);
    if a == b || c == d || e >= s.len() {
        None
    } else {
        Some(
            RecordFields {
                pid: s.subrange(a, b),
                ppid: s.subrange(c, d),
                command: s.subrange(e, s.len() as int),
            },
        )
    }
}

/// Parses one enumeration line into a record, exactly as
/// `split_fields` says.
pub fn parse_process_line(line: &str) -> (r: Option<ProcessRecord>)
    ensures
        match r {
            Some(rec) => split_fields(line@) == Some(rec@),
            None => split_fields(line@) is None,
        },
{
    let n = line.unicode_len();
    let a = scan_spaces(line, 0);
    let b = scan_token(line, a);
    let c = scan_spaces(line, b);
    let d = scan_token(line, c);
    let e = scan_spaces(line, d);
    if a == b || c == d || e >= n {
        return None;
    }
    let pid = line.substring_char(a, b).to_owned();
    let ppid = line.substring_char(c, d).to_owned();
    let command = line.substring_char(e, n).to_owned();
    Some(ProcessRecord { pid, ppid, command })
}

/// The fields of every well-formed line among `lines`, in order.
pub open spec fn parsed_table(lines: Seq<Seq<char>>) -> Seq<RecordFields>
    decreases lines.len(),
{
    if lines.len() == 0 {
        Seq::empty()
    } else {
        let rest = parsed_table(lines.drop_last());
        match split_fields(lines.last()) {
            Some(f) => rest.push(f),
            None => rest,
        }
    }
}

/// The views of a sequence of records.
pub open spec fn records_view(t: Seq<ProcessRecord>) -> Seq<RecordFields> {
    t.map_values(|r: ProcessRecord| r@)
}

/// Builds the table from the enumeration's lines, keeping every
/// well-formed line in order and skipping the rest.
pub fn build_process_table(lines: &Vec<String>) -> (t: Vec<ProcessRecord>)
    ensures
        records_view(t@) == parsed_table(lines.deep_view()),
{
    let ghost dv = lines.deep_view();
    let mut t: Vec<ProcessRecord> = Vec::new();
    proof {
        assert(dv.take(0) =~= Seq::<Seq<char>>::empty());
        assert(records_view(t@) =~= parsed_table(dv.take(0)));
    }
    let mut i: usize = 0;
    while i < lines.len()
        invariant
            0 <= i <= lines.len(),
            dv == lines.deep_view(),
            dv.len() == lines@.len(),
            records_view(t@) == parsed_table(dv.take(i as int)),
        decreases lines.len() - i,
    {
        let parsed = parse_process_line(lines[i].as_str());
        proof {
            assert(dv[i as int] == lines@[i as int]@);
            assert(dv.take(i + 1).drop_last() =~= dv.take(i as int));
            assert(dv.take(i + 1).last() == dv[i as int]);
        }
        match parsed {
            Some(rec) => {
                let ghost old_t = t@;
                t.push(rec);
                proof {
                    assert(records_view(t@) =~= records_view(old_t).push(rec@));
                }
            },
            None => {},
        }
        i = i + 1;
    }
    proof {
        assert(dv.take(dv.len() as int) =~= dv);
    }
    t
}

/// Builds the table straight from the enumeration's raw output.
pub fn process_table_from_output(out: &str) -> (t: Vec<ProcessRecord>)
    ensures
        records_view(t@) == parsed_table(lines_from(out@, 0)),
{
    let lines = split_lines(out);
    build_process_table(&lines)
}

/// A non-empty run of non-space characters.
pub open spec fn is_token(t: Seq<char>) -> bool {
    t.len() > 0 && (forall|k: int| 0 <= k < t.len() ==> !is_space(t[k]))
}

/// Splitting is exact on well-formed lines: a line assembled from two
/// tokens and a command (itself starting with a non-space) parses back
/// to exactly those fields — the command verbatim, embedded spaces and
/// all.
pub proof fn lemma_split_round_trip(pid: Seq<char>, ppid: Seq<char>, command: Seq<char>)
    requires
        is_token(pid),
        is_token(ppid),
        command.len() > 0,
        !is_space(command[0]),
    ensures
        split_fields(pid + seq![' '] + ppid + seq![' '] + command) == Some(
            RecordFields { pid, ppid, command },
        ),
{
    let s = pid + seq![' '] + ppid + seq![' '] + command;
    let p = pid.len() as int;
    let q = ppid.len() as int;
    let n = s.len() as int;
    assert(n == p + 1 + q + 1 + command.len());
    assert(forall|k: int| 0 <= k < p ==> s[k] == pid[k]);
    assert(s[p] == ' ');
    assert(forall|k: int| 0 <= k < q ==> s[p + 1 + k] == ppid[k]);
    assert(s[p + 1 + q] == ' ');
    assert(forall|k: int| 0 <= k < command.len() ==> s[p + 1 + q + 1 + k] == command[k]);

    lemma_skip_spaces_exact(s, 0, 0);
    assert(skip_spaces(s, 0) == 0);
    lemma_skip_token_exact(s, 0, p);
    assert(skip_token(s, 0) == p);
    lemma_skip_spaces_exact(s, p, p + 1);
    assert(skip_spaces(s, p) == p + 1);
    lemma_skip_token_exact(s, p + 1, p + 1 + q);
    assert(skip_token(s, p + 1) == p + 1 + q);
    lemma_skip_spaces_exact(s, p + 1 + q, p + 1 + q + 1);
    assert(skip_spaces(s, p + 1 + q) == p + 1 + q + 1);

    assert(s.subrange(0, p) =~= pid);
    assert(s.subrange(p + 1, p + 1 + q) =~= ppid);
    assert(s.subrange(p + 1 + q + 1, n) =~= command);
}

/// `skip_spaces` lands exactly on `j` when everything before `j` (from
/// `i`) is a space and `j` itself is not (or is the end).
proof fn lemma_skip_spaces_exact(s: Seq<char>, i: int, j: int)
    requires
        0 <= i <= j <= s.len(),
        forall|k: int| i <= k < j ==> is_space(s[k]),
        j < s.len() ==> !is_space(s[j]),
    ensures
        skip_spaces(s, i) == j,
    decreases j - i,
{
    if i < j {
        lemma_skip_spaces_exact(s, i + 1, j);
    }
}

/// `skip_token` lands exactly on `j` when everything before `j` (from
/// `i`) is a non-space and `j` itself is a space (or the end).
proof fn lemma_skip_token_exact(s: Seq<char>, i: int, j: int)
    requires
        0 <= i <= j <= s.len(),
        forall|k: int| i <= k < j ==> !is_space(s[k]),
        j < s.len() ==> is_space(s[j]),
    ensures
        skip_token(s, i) == j,
    decreases j - i,
{
    if i < j {
        lemma_skip_token_exact(s, i + 1, j);
    }
}

} // verus!

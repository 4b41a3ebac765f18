//! Splitting a collaborator's raw output into lines.
//!
//! Lines end at `\n`; a final fragment without a newline is a line
//! too, and a `\r` just before the newline is stripped, so output with
//! either line ending parses the same way.

use vstd::prelude::*;

use crate::text::{find_char, lemma_find_char};
use crate::text::scan_to_char;

verus! {

/// A line with any trailing carriage return removed.
pub open spec fn strip_cr(t: Seq<char>) -> Seq<char> {
    if t.len() > 0 && t[t.len() - 1] == '\r' {
        t.drop_last()
    } else {
        t
    }
}

/// The lines of `s` from index `i` on.
pub open spec fn lines_from(s: Seq<char>, i: int) -> Seq<Seq<char>>
    decreases s.len() - i when 0 <= i <= s.len() via lines_from_dec
{
    if i >= s.len() {
        Seq::empty()
    } else {
        let p = find_char(s, i, '\n');
        if p >= s.len() {
            seq![strip_cr(s.subrange(i, s.len() as int))]
        } else {
            seq![strip_cr(s.subrange(i, p))] + lines_from(s, p + 1)
        }
    }
}

#[via_fn]
proof fn lines_from_dec(s: Seq<char>, i: int) {
    lemma_find_char(s, i, '\n');
}

/// Splits `s` into its lines.
pub fn split_lines(s: &str) -> (r: Vec<String>)
    ensures
        r.deep_view() == lines_from(s@, 0),
{
    let n = s.unicode_len();
    let mut r: Vec<String> = Vec::new();
    proof {
        assert(r.deep_view() =~= Seq::<Seq<char>>::empty());
    }
    let mut i: usize = 0;
    while i < n
        invariant
            0 <= i <= n,
            n == s@.len(),
            lines_from(s@, 0) == r.deep_view() + lines_from(s@, i as int),
        decreases n - i,
    {
        let p = scan_to_char(s, i, '\n');
        let end = if p > i && s.get_char(p - 1) == '\r' {
            p - 1
        } else {
            p
        };
        let ghost old_dv = r.deep_view();
        let line = s.substring_char(i, end).to_owned();
        r.push(line);
        proof {
            assert(strip_cr(s@.subrange(i as int, p as int)) =~= s@.subrange(
                i as int,
                end as int,
            ));
            assert(r.deep_view() =~= old_dv.push(s@.subrange(i as int, end as int)));
            if p < n {
                assert(lines_from(s@, i as int) =~= seq![
                    strip_cr(s@.subrange(i as int, p as int)),
                ] + lines_from(s@, p + 1));
            }
        }
        if p < n {
            i = p + 1;
        } else {
            i = n;
        }
    }
    proof {
        assert(r.deep_view() + Seq::<Seq<char>>::empty() =~= r.deep_view());
    }
    r
}

} // verus!

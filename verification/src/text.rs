//! Character-level scanning over strings, shared by the parsers.
//!
//! Specs work on `Seq<char>` (the view of `str`); the executable
//! functions walk the string with `get_char` and are proved against the
//! recursive scanning specs below.

use vstd::prelude::*;

verus! {

/// Field separators in the process enumeration's output.
pub open spec fn is_space(c: char) -> bool {
    c == ' ' || c == '\t'
}

/// First index at or after `i` holding a non-space character, or `s.len()`.
pub open spec fn skip_spaces(s: Seq<char>, i: int) -> int
    decreases s.len() - i when 0 <= i <= s.len()
{
    if i >= s.len() {
        s.len() as int
    } else if is_space(s[i]) {
        skip_spaces(s, i + 1)
    } else {
        i
    }
}

/// First index at or after `i` holding a space, or `s.len()`.
pub open spec fn skip_token(s: Seq<char>, i: int) -> int
    decreases s.len() - i when 0 <= i <= s.len()
{
    if i >= s.len() {
        s.len() as int
    } else if !is_space(s[i]) {
        skip_token(s, i + 1)
    } else {
        i
    }
}

/// First index at or after `i` holding `ch`, or `s.len()`.
pub open spec fn find_char(s: Seq<char>, i: int, ch: char) -> int
    decreases s.len() - i when 0 <= i <= s.len()
{
    if i >= s.len() {
        s.len() as int
    } else if s[i] == ch {
        i
    } else {
        find_char(s, i + 1, ch)
    }
}

pub proof fn lemma_skip_spaces(s: Seq<char>, i: int)
    requires
        0 <= i <= s.len(),
    ensures
        i <= skip_spaces(s, i) <= s.len(),
        forall|k: int| i <= k < skip_spaces(s, i) ==> is_space(s[k]),
        skip_spaces(s, i) < s.len() ==> !is_space(s[skip_spaces(s, i)]),
    decreases s.len() - i,
{
    if i < s.len() && is_space(s[i]) {
        lemma_skip_spaces(s, i + 1);
    }
}

pub proof fn lemma_skip_token(s: Seq<char>, i: int)
    requires
        0 <= i <= s.len(),
    ensures
        i <= skip_token(s, i) <= s.len(),
        forall|k: int| i <= k < skip_token(s, i) ==> !is_space(s[k]),
        skip_token(s, i) < s.len() ==> is_space(s[skip_token(s, i)]),
    decreases s.len() - i,
{
    if i < s.len() && !is_space(s[i]) {
        lemma_skip_token(s, i + 1);
    }
}

pub proof fn lemma_find_char(s: Seq<char>, i: int, ch: char)
    requires
        0 <= i <= s.len(),
    ensures
        i <= find_char(s, i, ch) <= s.len(),
        forall|k: int| i <= k < find_char(s, i, ch) ==> s[k] != ch,
        find_char(s, i, ch) < s.len() ==> s[find_char(s, i, ch)] == ch,
    decreases s.len() - i,
{
    if i < s.len() && s[i] != ch {
        lemma_find_char(s, i + 1, ch);
    }
}

/// Executable mirror of `is_space`.
pub fn space_char(c: char) -> (b: bool)
    ensures
        b == is_space(c),
{
    c == ' ' || c == '\t'
}

/// Walks `s` from `from` past any run of spaces.
pub fn scan_spaces(s: &str, from: usize) -> (r: usize)
    requires
        from <= s@.len(),
    ensures
        r == skip_spaces(s@, from as int),
        from <= r <= s@.len(),
{
    proof {
        lemma_skip_spaces(s@, from as int);
    }
    let n = s.unicode_len();
    let mut i = from;
    loop
        invariant
            from <= i <= n,
            n == s@.len(),
            skip_spaces(s@, from as int) == skip_spaces(s@, i as int),
        ensures
            i == skip_spaces(s@, from as int),
        decreases n - i,
    {
        if i >= n {
            break;
        }
        let c = s.get_char(i);
        if !space_char(c) {
            break;
        }
        i = i + 1;
    }
    i
}

/// Walks `s` from `from` past any run of non-space characters.
pub fn scan_token(s: &str, from: usize) -> (r: usize)
    requires
        from <= s@.len(),
    ensures
        r == skip_token(s@, from as int),
        from <= r <= s@.len(),
{
    proof {
        lemma_skip_token(s@, from as int);
    }
    let n = s.unicode_len();
    let mut i = from;
    loop
        invariant
            from <= i <= n,
            n == s@.len(),
            skip_token(s@, from as int) == skip_token(s@, i as int),
        ensures
            i == skip_token(s@, from as int),
        decreases n - i,
    {
        if i >= n {
            break;
        }
        let c = s.get_char(i);
        if space_char(c) {
            break;
        }
        i = i + 1;
    }
    i
}

/// Walks `s` from `from` to the next occurrence of `ch`.
pub fn scan_to_char(s: &str, from: usize, ch: char) -> (r: usize)
    requires
        from <= s@.len(),
    ensures
        r == find_char(s@, from as int, ch),
        from <= r <= s@.len(),
{
    proof {
        lemma_find_char(s@, from as int, ch);
    }
    let n = s.unicode_len();
    let mut i = from;
    loop
        invariant
            from <= i <= n,
            n == s@.len(),
            find_char(s@, from as int, ch) == find_char(s@, i as int, ch),
        ensures
            i == find_char(s@, from as int, ch),
        decreases n - i,
    {
        if i >= n {
            break;
        }
        let c = s.get_char(i);
        if c == ch {
            break;
        }
        i = i + 1;
    }
    i
}

/// The view of an optional string.
pub open spec fn opt_str_view(o: Option<String>) -> Option<Seq<char>> {
    match o {
        Some(s) => Some(s@),
        None => None,
    }
}

/// String equality on views.
pub fn str_eq(a: &str, b: &str) -> (r: bool)
    ensures
        r == (a@ == b@),
{
    let na = a.unicode_len();
    let nb = b.unicode_len();
    if na != nb {
        return false;
    }
    let mut i: usize = 0;
    while i < na
        invariant
            0 <= i <= na,
            na == a@.len(),
            na == b@.len(),
            forall|k: int| 0 <= k < i ==> a@[k] == b@[k],
        decreases na - i,
    {
        if a.get_char(i) != b.get_char(i) {
            return false;
        }
        i = i + 1;
    }
    proof {
        assert(a@ =~= b@);
    }
    true
}

/// `p` is an initial segment of `s`.
pub open spec fn is_prefix_of(p: Seq<char>, s: Seq<char>) -> bool {
    p.len() <= s.len() && (forall|k: int| 0 <= k < p.len() ==> s[k] == p[k])
}

/// Prefix test on views.
pub fn str_starts_with(s: &str, p: &str) -> (r: bool)
    ensures
        r == is_prefix_of(p@, s@),
{
    let ns = s.unicode_len();
    let np = p.unicode_len();
    if np > ns {
        return false;
    }
    let mut i: usize = 0;
    while i < np
        invariant
            0 <= i <= np,
            np <= ns,
            ns == s@.len(),
            np == p@.len(),
            forall|k: int| 0 <= k < i ==> s@[k] == p@[k],
        decreases np - i,
    {
        if s.get_char(i) != p.get_char(i) {
            return false;
        }
        i = i + 1;
    }
    true
}

/// `n` occurs in `h` starting at index `i`.
pub open spec fn occurs_at(h: Seq<char>, n: Seq<char>, i: int) -> bool {
    0 <= i && i + n.len() <= h.len() && (forall|k: int| 0 <= k < n.len() ==> h[i + k] == n[k])
}

/// `n` occurs somewhere in `h` (every string contains the empty one).
pub open spec fn contains_seq(h: Seq<char>, n: Seq<char>) -> bool {
    exists|i: int| occurs_at(h, n, i)
}

/// Does `n` occur in `h` starting exactly at `i`?
fn occurs_at_exec(h: &str, n: &str, i: usize) -> (r: bool)
    requires
        i + n@.len() <= h@.len(),
    ensures
        r == occurs_at(h@, n@, i as int),
{
    let nh = h.unicode_len();
    let nn = n.unicode_len();
    let mut k: usize = 0;
    while k < nn
        invariant
            0 <= k <= nn,
            nn == n@.len(),
            nh == h@.len(),
            i + nn <= nh,
            forall|j: int| 0 <= j < k ==> h@[i + j] == n@[j],
        decreases nn - k,
    {
        if h.get_char(i + k) != n.get_char(k) {
            return false;
        }
        k = k + 1;
    }
    true
}

/// Substring search: does `n` occur anywhere in `h`?
pub fn str_contains(h: &str, n: &str) -> (r: bool)
    ensures
        r == contains_seq(h@, n@),
{
    let nh = h.unicode_len();
    let nn = n.unicode_len();
    if nn > nh {
        proof {
            assert(forall|i: int| !occurs_at(h@, n@, i));
        }
        return false;
    }
    let mut i: usize = 0;
    while i <= nh - nn
        invariant
            0 <= i <= nh - nn + 1,
            nn <= nh,
            nh == h@.len(),
            nn == n@.len(),
            forall|j: int| 0 <= j < i ==> !occurs_at(h@, n@, j),
        decreases nh - nn - i + 1,
    {
        if occurs_at_exec(h, n, i) {
            return true;
        }
        i = i + 1;
    }
    proof {
        assert(forall|j: int| occurs_at(h@, n@, j) ==> 0 <= j <= nh - nn);
    }
    false
}

} // verus!

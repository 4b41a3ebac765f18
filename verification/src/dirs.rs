//! Directory containment on canonical paths.
//!
//! A bare string-prefix test would let `/home/user/proj` claim
//! `/home/user/proj2` as its own. Containment here is
//! segment-aware: the candidate path must be the directory itself, or
//! continue it right at a path-separator boundary.

use vstd::prelude::*;

use crate::text::is_prefix_of;
use crate::text::str_starts_with;

verus! {

/// `path` lies within `dir`: it is `dir` itself, or extends it at a
/// `/` boundary (a directory written with a trailing `/` already ends
/// on a boundary).
pub open spec fn path_within(dir: Seq<char>, path: Seq<char>) -> bool {
    is_prefix_of(dir, path) && (path.len() == dir.len() || (dir.len() > 0 && dir[dir.len() - 1]
        == '/') || path[dir.len() as int] == '/')
}

/// Segment-aware containment test on views.
pub fn path_starts_within(path: &str, dir: &str) -> (r: bool)
    ensures
        r == path_within(dir@, path@),
{
    if !str_starts_with(path, dir) {
        return false;
    }
    let np = path.unicode_len();
    let nd = dir.unicode_len();
    if np == nd {
        return true;
    }
    if nd > 0 && dir.get_char(nd - 1) == '/' {
        return true;
    }
    path.get_char(nd) == '/'
}

/// Containment is boundary-safe: a path lying strictly within a
/// directory (one not written with a trailing `/`) continues it with a
/// `/` — so a sibling that merely shares the directory's spelling,
/// such as `/home/user/proj2` against `/home/user/proj`, never
/// qualifies.
pub proof fn lemma_path_within_boundary(dir: Seq<char>, path: Seq<char>)
    requires
        dir.len() > 0,
        dir[dir.len() - 1] != '/',
        path_within(dir, path),
        path != dir,
    ensures
        path.len() > dir.len(),
        path[dir.len() as int] == '/',
{
    if path.len() == dir.len() {
        assert(path =~= dir);
    }
}

} // verus!

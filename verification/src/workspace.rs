//! The boundary of the working directory for tools that write: a path a
//! tool may touch is relative and never climbs out through a `..` segment.

use vstd::prelude::*;

use crate::text::chars_of;

verus! {

/// Whether a `..` segment of `p` starts at `i`: two dots standing between
/// separators or the ends of the path.
pub open spec fn parent_at(p: Seq<char>, i: int) -> bool {
    &&& 0 <= i
    &&& i + 2 <= p.len()
    &&& p[i] == '.'
    &&& p[i + 1] == '.'
    &&& (i == 0 || p[i - 1] == '/')
    &&& (i + 2 == p.len() || p[i + 2] == '/')
}

/// A path inside the working directory: not rooted at `/`, and with no
/// `..` segment anywhere.
pub open spec fn inside_workspace_spec(p: Seq<char>) -> bool {
    &&& !(p.len() > 0 && p[0] == '/')
    &&& !(exists|i: int| #[trigger] parent_at(p, i))
}

/// Whether a tool may write at `path`; see [`inside_workspace_spec`].
pub fn inside_workspace(path: &str) -> (r: bool)
    ensures
        r == inside_workspace_spec(path@),
{
    let cs = chars_of(path);
    let n = cs.len();
    if n > 0 && cs[0] == '/' {
        return false;
    }
    let mut i: usize = 0;
    while i < n && i + 1 < n
        invariant
            n == cs@.len(),
            cs@ == path@,
            i <= n,
            forall|j: int| 0 <= j < i ==> !#[trigger] parent_at(path@, j),
        decreases n - i,
    {
        if cs[i] == '.' && cs[i + 1] == '.' && (i == 0 || cs[i - 1] == '/') && (i + 2 == n || cs[i + 2] == '/') {
            assert(parent_at(path@, i as int));
            return false;
        }
        assert(!parent_at(path@, i as int));
        i += 1;
    }
    assert forall|j: int| !#[trigger] parent_at(path@, j) by {
        if j >= i as int && parent_at(path@, j) {
            assert(j + 2 <= n);
        }
    }
    true
}

} // verus!

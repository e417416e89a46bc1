//! The sandbox guard: decides whether an already-canonicalized path lies
//! under one of the configured allow-roots.
//!
//! Containment is component-wise: a path is under a root when the root is a
//! prefix of the path and the prefix ends on a component boundary (the paths
//! are equal, the next character of the path is a separator, or the root
//! itself ends with a separator, as the filesystem root does).

use vstd::prelude::*;

verus! {

/// `path` is equal to `root` or a descendant of it, component-wise.
pub open spec fn is_under(path: Seq<char>, root: Seq<char>) -> bool {
    &&& root.len() <= path.len()
    &&& path.subrange(0, root.len() as int) == root
    &&& (path.len() == root.len() || path[root.len() as int] == '/' || (root.len() > 0
        && root[root.len() - 1] == '/'))
}

/// `path` lies under at least one of the configured roots.
pub open spec fn in_sandbox(path: Seq<char>, roots: Seq<String>) -> bool {
    exists|k: int| 0 <= k < roots.len() && is_under(path, #[trigger] roots[k]@)
}

/// Decides `is_under` for one root.
pub fn path_is_under(path: &String, root: &String) -> (r: bool)
    ensures
        r == is_under(path@, root@),
{
    let plen = path.as_str().unicode_len();
    let rlen = root.as_str().unicode_len();
    if rlen > plen {
        return false;
    }
    let mut i: usize = 0;
    while i < rlen
        invariant
            0 <= i <= rlen,
            rlen <= plen,
            plen == path@.len(),
            rlen == root@.len(),
            forall|k: int| 0 <= k < i ==> #[trigger] path@[k] == root@[k],
        decreases rlen - i,
    {
        if path.as_str().get_char(i) != root.as_str().get_char(i) {
            assert(path@.subrange(0, rlen as int)[i as int] != root@[i as int]);
            return false;
        }
        i = i + 1;
    }
    assert(path@.subrange(0, rlen as int) =~= root@);
    if plen == rlen {
        true
    } else if path.as_str().get_char(rlen) == '/' {
        true
    } else if rlen > 0 && root.as_str().get_char(rlen - 1) == '/' {
        true
    } else {
        false
    }
}

/// The sandbox guard over every configured root.
///
/// Returns `true` iff the canonical `path` is equal to, or a descendant of,
/// at least one root. With no roots configured nothing is allowed.
pub fn ensure_path_within_roots(path: &String, allowed_roots: &Vec<String>) -> (r: bool)
    ensures
        r == in_sandbox(path@, allowed_roots@),
{
    let mut k: usize = 0;
    while k < allowed_roots.len()
        invariant
            0 <= k <= allowed_roots.len(),
            forall|j: int| 0 <= j < k ==> !is_under(path@, #[trigger] allowed_roots@[j]@),
        decreases allowed_roots.len() - k,
    {
        if path_is_under(path, &allowed_roots[k]) {
            return true;
        }
        k = k + 1;
    }
    false
}

} // verus!

//! The ignore filter: a pure predicate over file names.
//!
//! The engine skips hidden files (leading dot), temporary files (trailing
//! `.tmp`), editor backups (trailing `~`), and the Windows metadata files
//! `Thumbs.db` and `Desktop.ini`.  Only the final path segment (the
//! basename) is consulted; every pattern is anchored at the start or end of
//! that segment.

use vstd::prelude::*;
use crate::paths::slash;

verus! {

/// The final `/`-separated segment of `p`; empty when `p` ends in `/`.
pub open spec fn spec_basename(p: Seq<u8>) -> Seq<u8>
    decreases p.len(),
{
    if p.len() == 0 {
        p
    } else if p[p.len() - 1] == slash() {
        Seq::<u8>::empty()
    } else {
        spec_basename(p.drop_last()).push(p[p.len() - 1])
    }
}

/// The bytes of `Thumbs.db`.
pub open spec fn thumbs_db() -> Seq<u8> {
    seq![84u8, 104u8, 117u8, 109u8, 98u8, 115u8, 46u8, 100u8, 98u8]
}

/// The bytes of `Desktop.ini`.
pub open spec fn desktop_ini() -> Seq<u8> {
    seq![68u8, 101u8, 115u8, 107u8, 116u8, 111u8, 112u8, 46u8, 105u8, 110u8, 105u8]
}

/// True when the file name `name` matches one of the fixed ignore patterns:
/// a leading `.`, a trailing `.tmp`, a trailing `~`, or exactly `Thumbs.db`
/// or `Desktop.ini`.
pub open spec fn spec_is_ignored(name: Seq<u8>) -> bool {
    ||| (name.len() > 0 && name[0] == 46u8)
    ||| (name.len() >= 4 && name[name.len() - 4] == 46u8 && name[name.len() - 3] == 116u8
            && name[name.len() - 2] == 109u8 && name[name.len() - 1] == 112u8)
    ||| (name.len() > 0 && name[name.len() - 1] == 126u8)
    ||| name == thumbs_db()
    ||| name == desktop_ini()
}

/// If `cut` is the position just after the last slash of `p`, the basename
/// of `p` is the suffix of `p` from `cut`.
proof fn lemma_basename_skip(p: Seq<u8>, cut: int)
    requires
        0 <= cut <= p.len(),
        cut == 0 || p[cut - 1] == slash(),
        forall|j: int| cut <= j < p.len() ==> p[j] != slash(),
    ensures
        spec_basename(p) == p.skip(cut),
    decreases p.len(),
{
    if p.len() == cut {
        if cut == 0 {
            assert(spec_basename(p) =~= p.skip(cut));
        } else {
            assert(p[p.len() - 1] == slash());
            assert(spec_basename(p) =~= p.skip(cut));
        }
    } else {
        assert(p[p.len() - 1] != slash());
        lemma_basename_skip(p.drop_last(), cut);
        assert(spec_basename(p.drop_last()).push(p[p.len() - 1]) =~= p.skip(cut));
    }
}

/// The basename of `p`: the bytes after the last `/`, or all of `p` when it
/// has no `/`.
pub fn basename(p: &[u8]) -> (r: Vec<u8>)
    ensures
        r@ == spec_basename(p@),
{
    let mut cut: usize = 0;
    let mut i: usize = 0;
    while i < p.len()
        invariant
            cut <= i <= p@.len(),
            cut == 0 || p@[cut - 1] == slash(),
            forall|j: int| cut <= j < i ==> p@[j] != slash(),
        decreases p@.len() - i,
    {
        if p[i] == 47u8 {
            cut = i + 1;
        }
        i = i + 1;
    }
    let mut out: Vec<u8> = Vec::new();
    let mut k: usize = cut;
    while k < p.len()
        invariant
            cut <= k <= p@.len(),
            out@ =~= p@.subrange(cut as int, k as int),
        decreases p@.len() - k,
    {
        out.push(p[k]);
        k = k + 1;
    }
    proof {
        assert(out@ =~= p@.skip(cut as int));
        lemma_basename_skip(p@, cut as int);
    }
    out
}

/// True when the final path segment of `path` matches one of the fixed
/// ignore patterns.  Such paths are never hashed, sent, or recorded.
pub fn is_ignore(path: &[u8]) -> (r: bool)
    ensures
        r == spec_is_ignored(spec_basename(path@)),
{
    let name = basename(path);
    let n = name.len();
    if n > 0 && name[0] == 46u8 {
        return true;
    }
    if n >= 4 && name[n - 4] == 46u8 && name[n - 3] == 116u8 && name[n - 2] == 109u8
        && name[n - 1] == 112u8 {
        return true;
    }
    if n > 0 && name[n - 1] == 126u8 {
        return true;
    }
    if n == 9 && name[0] == 84u8 && name[1] == 104u8 && name[2] == 117u8 && name[3] == 109u8
        && name[4] == 98u8 && name[5] == 115u8 && name[6] == 46u8 && name[7] == 100u8
        && name[8] == 98u8 {
        proof {
            assert(name@ =~= thumbs_db());
        }
        return true;
    }
    if n == 11 && name[0] == 68u8 && name[1] == 101u8 && name[2] == 115u8 && name[3] == 107u8
        && name[4] == 116u8 && name[5] == 111u8 && name[6] == 112u8 && name[7] == 46u8
        && name[8] == 105u8 && name[9] == 110u8 && name[10] == 105u8 {
        proof {
            assert(name@ =~= desktop_ini());
        }
        return true;
    }
    proof {
        if name@ == thumbs_db() {
            assert(name@.len() == 9);
            assert(name@[0] == 84u8 && name@[1] == 104u8 && name@[2] == 117u8
                && name@[3] == 109u8 && name@[4] == 98u8 && name@[5] == 115u8
                && name@[6] == 46u8 && name@[7] == 100u8 && name@[8] == 98u8);
        }
        if name@ == desktop_ini() {
            assert(name@.len() == 11);
            assert(name@[0] == 68u8 && name@[1] == 101u8 && name@[2] == 115u8
                && name@[3] == 107u8 && name@[4] == 116u8 && name@[5] == 111u8
                && name@[6] == 112u8 && name@[7] == 46u8 && name@[8] == 105u8
                && name@[9] == 110u8 && name@[10] == 105u8);
        }
    }
    false
}

} // verus!

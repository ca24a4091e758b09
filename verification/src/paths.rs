//! Normalization of sync-root-relative paths.
//!
//! Every path carried in a wire event or used as a registry key is relative
//! to the sync root, forward-slash separated, with no leading slash.  The
//! one normalization step the engine performs is stripping leading slashes.

use vstd::prelude::*;

verus! {

/// The byte value of `/`.
pub open spec fn slash() -> u8 {
    47u8
}

/// `p` with every leading `/` removed.
pub open spec fn spec_trim_slashes(p: Seq<u8>) -> Seq<u8>
    decreases p.len(),
{
    if p.len() > 0 && p[0] == slash() {
        spec_trim_slashes(p.drop_first())
    } else {
        p
    }
}

/// A normalized path never begins with a slash.
pub proof fn lemma_trim_no_leading_slash(p: Seq<u8>)
    ensures
        spec_trim_slashes(p).len() > 0 ==> spec_trim_slashes(p)[0] != slash(),
    decreases p.len(),
{
    if p.len() > 0 && p[0] == slash() {
        lemma_trim_no_leading_slash(p.drop_first());
    }
}

/// Trimming is idempotent: a normalized path is unchanged by normalization.
pub proof fn lemma_trim_idempotent(p: Seq<u8>)
    ensures
        spec_trim_slashes(spec_trim_slashes(p)) == spec_trim_slashes(p),
    decreases p.len(),
{
    if p.len() > 0 && p[0] == slash() {
        lemma_trim_idempotent(p.drop_first());
    }
}

/// Strips leading `/` bytes from `p`, yielding the normalized relative path.
pub fn normalize_path(p: &[u8]) -> (r: Vec<u8>)
    ensures
        r@ == spec_trim_slashes(p@),
{
    let mut s: usize = 0;
    proof {
        assert(p@.skip(0) =~= p@);
    }
    while s < p.len() && p[s] == 47u8
        invariant
            s <= p@.len(),
            spec_trim_slashes(p@) == spec_trim_slashes(p@.skip(s as int)),
        decreases p@.len() - s,
    {
        proof {
            assert(p@.skip(s as int).drop_first() =~= p@.skip(s as int + 1));
        }
        s = s + 1;
    }
    let mut out: Vec<u8> = Vec::new();
    let mut k: usize = s;
    while k < p.len()
        invariant
            s <= k <= p@.len(),
            out@ =~= p@.subrange(s as int, k as int),
        decreases p@.len() - k,
    {
        out.push(p[k]);
        k = k + 1;
    }
    proof {
        assert(out@ =~= p@.skip(s as int));
        if s < p@.len() {
            assert(p@.skip(s as int)[0] == p@[s as int]);
        }
    }
    out
}

} // verus!

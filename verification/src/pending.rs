//! Paths whose next watcher removal is the engine's own doing.
//!
//! Digest equality cannot tell a removal echo from a genuine local delete:
//! once the file is gone there are no contents left to hash.  So when an
//! inbound `Delete` (or the source side of an inbound `Rename`) removes a
//! file, the engine marks the path here; the removal decision consumes the
//! mark and stays silent, while an unmarked removal is a real local delete
//! and is sent.

use vstd::prelude::*;
use crate::wire::bytes_eq;

verus! {

/// The set of paths marked for removal suppression.
pub struct PendingRemovals {
    paths: Vec<Vec<u8>>,
}

impl PendingRemovals {
    /// Well-formed: each path is held at most once.  `new` establishes
    /// this and every operation preserves it.
    pub closed spec fn wf(self) -> bool {
        forall|a: int, b: int|
            #![trigger self.paths@[a], self.paths@[b]]
            0 <= a < self.paths@.len() && 0 <= b < self.paths@.len() && a != b
                ==> self.paths@[a]@ != self.paths@[b]@
    }

    /// The marked paths, as a set of byte strings.
    pub closed spec fn marks(self) -> Set<Seq<u8>> {
        Set::new(
            |k: Seq<u8>|
                exists|i: int| 0 <= i < self.paths@.len() && #[trigger] self.paths@[i]@ == k,
        )
    }

    /// An empty mark set.
    pub fn new() -> (out: PendingRemovals)
        ensures
            out.wf(),
            out.marks() == Set::<Seq<u8>>::empty(),
    {
        let out = PendingRemovals { paths: Vec::new() };
        proof {
            assert(out.marks() =~= Set::<Seq<u8>>::empty());
        }
        out
    }

    /// The index holding `key`, if it is marked.
    fn index_of(&self, key: &[u8]) -> (r: Option<usize>)
        ensures
            match r {
                Some(i) => i < self.paths@.len() && self.paths@[i as int]@ == key@,
                None => !self.marks().contains(key@),
            },
    {
        let mut i: usize = 0;
        while i < self.paths.len()
            invariant
                i <= self.paths@.len(),
                forall|j: int| 0 <= j < i ==> #[trigger] self.paths@[j]@ != key@,
            decreases self.paths@.len() - i,
        {
            if bytes_eq(self.paths[i].as_slice(), key) {
                return Some(i);
            }
            i = i + 1;
        }
        None
    }

    /// Marks `key`.
    pub fn mark(&mut self, key: Vec<u8>)
        requires
            old(self).wf(),
        ensures
            final(self).wf(),
            final(self).marks() == old(self).marks().insert(key@),
    {
        match self.index_of(key.as_slice()) {
            Some(i) => {
                proof {
                    assert(self.paths@[i as int]@ == key@);
                    assert(self.marks() =~= old(self).marks().insert(key@));
                }
            },
            None => {
                let ghost pre = self.paths@;
                proof {
                    assert forall|j: int| 0 <= j < pre.len() implies #[trigger] pre[j]@
                        != key@ by {
                        if pre[j]@ == key@ {
                            assert(old(self).marks().contains(key@));
                        }
                    }
                }
                self.paths.push(key);
                proof {
                    assert(self.paths@[pre.len() as int]@ == key@);
                    assert forall|a: int, b: int|
                        #![trigger self.paths@[a], self.paths@[b]]
                        0 <= a < self.paths@.len() && 0 <= b < self.paths@.len() && a
                            != b implies self.paths@[a]@ != self.paths@[b]@ by {
                        if a < pre.len() && b < pre.len() {
                            assert(pre[a]@ != pre[b]@);
                        } else if a == pre.len() {
                            assert(pre[b]@ != key@);
                        } else {
                            assert(pre[a]@ != key@);
                        }
                    }
                    assert forall|k: Seq<u8>| self.marks().contains(k) implies old(
                        self,
                    ).marks().insert(key@).contains(k) by {
                        let i = choose|i: int|
                            0 <= i < self.paths@.len() && #[trigger] self.paths@[i]@ == k;
                        if i < pre.len() {
                            assert(pre[i]@ == k);
                        }
                    }
                    assert forall|k: Seq<u8>|
                        old(self).marks().insert(key@).contains(k) implies self.marks().contains(
                        k,
                    ) by {
                        if k == key@ {
                            assert(self.paths@[pre.len() as int]@ == k);
                        } else {
                            let i = choose|i: int| 0 <= i < pre.len() && #[trigger] pre[i]@ == k;
                            assert(self.paths@[i]@ == k);
                        }
                    }
                    assert(self.marks() =~= old(self).marks().insert(key@));
                }
            },
        }
    }

    /// Consumes the mark for `key`: afterwards it is not marked, and the
    /// result says whether it was.
    #[verifier::rlimit(100)]
    #[verifier::spinoff_prover]
    pub fn take(&mut self, key: &[u8]) -> (r: bool)
        requires
            old(self).wf(),
        ensures
            final(self).wf(),
            r == old(self).marks().contains(key@),
            final(self).marks() == old(self).marks().remove(key@),
    {
        match self.index_of(key) {
            Some(i) => {
                let ghost pre = self.paths@;
                let ghost idx = i as int;
                let _ = self.paths.swap_remove(i);
                proof {
                    let n = pre.len() as int;
                    assert(pre[idx]@ == key@);
                    assert(old(self).marks().contains(key@));
                    assert forall|a: int, b: int|
                        #![trigger self.paths@[a], self.paths@[b]]
                        0 <= a < self.paths@.len() && 0 <= b < self.paths@.len() && a
                            != b implies self.paths@[a]@ != self.paths@[b]@ by {
                        let a2 = if a == idx { n - 1 } else { a };
                        let b2 = if b == idx { n - 1 } else { b };
                        assert(self.paths@[a]@ == pre[a2]@);
                        assert(self.paths@[b]@ == pre[b2]@);
                        assert(pre[a2]@ != pre[b2]@);
                    }
                    assert forall|k: Seq<u8>| self.marks().contains(k) implies old(
                        self,
                    ).marks().remove(key@).contains(k) by {
                        let j = choose|j: int|
                            0 <= j < self.paths@.len() && #[trigger] self.paths@[j]@ == k;
                        if j == idx {
                            assert(pre[n - 1]@ == k);
                            assert(idx != n - 1);
                        } else {
                            assert(pre[j]@ == k);
                        }
                    }
                    assert forall|k: Seq<u8>|
                        old(self).marks().remove(key@).contains(k) implies self.marks().contains(
                        k,
                    ) by {
                        let j = choose|j: int| 0 <= j < n && #[trigger] pre[j]@ == k;
                        assert(j != idx);
                        if j == n - 1 {
                            assert(self.paths@[idx]@ == k);
                        } else {
                            assert(self.paths@[j]@ == k);
                        }
                    }
                    assert(self.marks() =~= old(self).marks().remove(key@));
                }
                true
            },
            None => {
                proof {
                    assert(self.marks() =~= old(self).marks().remove(key@));
                }
                false
            },
        }
    }
}

} // verus!

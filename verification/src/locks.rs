//! Which files are being written: two uploads to one path do not write at
//! the same time.
//!
//! Whoever serves connections keeps one table behind a lock. An upload takes
//! its path before it creates the file and gives it back when the upload has
//! ended, however it ended; an upload that finds its path taken waits.

use vstd::prelude::*;
use vstd::slice::slice_to_vec;
use crate::text::bytes_eq;

verus! {

/// The paths that are being written.
#[derive(Debug, PartialEq, Eq)]
pub struct PathLocks {
    held: Vec<Vec<u8>>,
}

impl PathLocks {
    /// The paths that are taken.
    pub closed spec fn taken(&self) -> Set<Seq<u8>> {
        Set::new(|p: Seq<u8>| exists|i: int| 0 <= i < self.held@.len() && self.held@[i]@ == p)
    }

    /// A table in which no path is taken.
    pub fn new() -> (r: Self)
        ensures
            r.taken() == Set::<Seq<u8>>::empty(),
    {
        let r = PathLocks { held: Vec::new() };
        assert(r.taken() =~= Set::<Seq<u8>>::empty());
        r
    }

    /// Whether `path` is taken.
    pub fn is_held(&self, path: &[u8]) -> (r: bool)
        ensures
            r == self.taken().contains(path@),
    {
        let mut i: usize = 0;
        while i < self.held.len()
            invariant
                i <= self.held@.len(),
                forall|j: int| 0 <= j < i ==> self.held@[j]@ != path@,
            decreases self.held@.len() - i,
        {
            if bytes_eq(self.held[i].as_slice(), path) {
                return true;
            }
            i += 1;
        }
        false
    }

    /// Takes `path` if it is free. Whether it was taken by this call is
    /// returned; a path that was taken before stays with whoever holds it.
    pub fn try_acquire(&mut self, path: &[u8]) -> (r: bool)
        ensures
            r == !old(self).taken().contains(path@),
            final(self).taken() == old(self).taken().insert(path@),
    {
        if self.is_held(path) {
            assert(self.taken() =~= old(self).taken().insert(path@));
            return false;
        }
        self.held.push(slice_to_vec(path));
        proof {
            let before = old(self).held@;
            let after = self.held@;
            assert forall|p: Seq<u8>| self.taken().contains(p) == old(self).taken().insert(
                path@,
            ).contains(p) by {
                if old(self).taken().contains(p) {
                    let i = choose|i: int| 0 <= i < before.len() && before[i]@ == p;
                    assert(after[i]@ == p);
                }
                if p == path@ {
                    assert(after[before.len() as int]@ == p);
                }
                if self.taken().contains(p) {
                    let i = choose|i: int| 0 <= i < after.len() && after[i]@ == p;
                    if i < before.len() {
                        assert(before[i]@ == p);
                    }
                }
            }
            assert(self.taken() =~= old(self).taken().insert(path@));
        }
        true
    }

    /// Gives `path` back.
    pub fn release(&mut self, path: &[u8])
        ensures
            final(self).taken() == old(self).taken().remove(path@),
    {
        let mut kept: Vec<Vec<u8>> = Vec::new();
        let mut i: usize = 0;
        let ghost before = self.held@;
        while i < self.held.len()
            invariant
                i <= self.held@.len(),
                self.held@ == before,
                forall|k: int| 0 <= k < kept@.len() ==> (#[trigger] kept@[k])@ != path@,
                forall|k: int|
                    0 <= k < kept@.len() ==> exists|j: int|
                        0 <= j < i && before[j]@ == (#[trigger] kept@[k])@,
                forall|j: int|
                    0 <= j < i && before[j]@ != path@ ==> exists|k: int|
                        0 <= k < kept@.len() && kept@[k]@ == (#[trigger] before[j])@,
            decreases self.held@.len() - i,
        {
            if !bytes_eq(self.held[i].as_slice(), path) {
                let copy = slice_to_vec(self.held[i].as_slice());
                let ghost sofar = kept@;
                kept.push(copy);
                assert forall|j: int| 0 <= j < i + 1 && before[j]@ != path@ implies exists|k: int|
                    0 <= k < kept@.len() && kept@[k]@ == (#[trigger] before[j])@ by {
                    if j < i {
                        let k = choose|k: int| 0 <= k < sofar.len() && sofar[k]@ == before[j]@;
                        assert(kept@[k]@ == before[j]@);
                    } else {
                        assert(kept@[sofar.len() as int]@ == before[j]@);
                    }
                }
                assert forall|k: int| 0 <= k < kept@.len() implies exists|j: int|
                    0 <= j < i + 1 && before[j]@ == (#[trigger] kept@[k])@ by {
                    if k < sofar.len() {
                        let j = choose|j: int| 0 <= j < i && before[j]@ == sofar[k]@;
                        assert(before[j]@ == kept@[k]@);
                    } else {
                        assert(before[i as int]@ == kept@[k]@);
                    }
                }
            }
            i += 1;
        }
        self.held = kept;
        proof {
            assert forall|p: Seq<u8>| self.taken().contains(p) == old(self).taken().remove(
                path@,
            ).contains(p) by {
                if self.taken().contains(p) {
                    let k = choose|k: int| 0 <= k < kept@.len() && kept@[k]@ == p;
                    let j = choose|j: int| 0 <= j < before.len() && before[j]@ == kept@[k]@;
                    assert(before[j]@ == p);
                }
                if old(self).taken().contains(p) && p != path@ {
                    let j = choose|j: int| 0 <= j < before.len() && before[j]@ == p;
                    let k = choose|k: int| 0 <= k < kept@.len() && kept@[k]@ == before[j]@;
                    assert(kept@[k]@ == p);
                }
            }
            assert(self.taken() =~= old(self).taken().remove(path@));
        }
    }
}

/// Of two uploads that ask for one path, one gets it: the second is refused
/// for as long as the first holds the path, and gets it once the first has
/// given it back.
pub proof fn lemma_one_writer(taken: Set<Seq<u8>>, path: Seq<u8>)
    ensures
        taken.insert(path).contains(path),
        !taken.insert(path).remove(path).contains(path),
        forall|other: Seq<u8>|
            other != path ==> taken.insert(path).remove(path).contains(other) == taken.contains(
                other,
            ),
{
}

} // verus!

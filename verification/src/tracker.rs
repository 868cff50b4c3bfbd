use crate::coordmap::{lemma_pairs_domain, lemma_pairs_index, lemma_pairs_push, lemma_pairs_update,
    pairs_to_map, unique_keys};
use crate::ivec::IVec3;
use vstd::prelude::*;

verus! {

/// Whether a chunk at `c` with live version `v` must be uploaded, given the
/// map of last-synced versions: a first-time load, or a changed version.
pub open spec fn upload_decision(m: Map<IVec3, u64>, c: IVec3, v: u64) -> bool {
    !m.contains_key(c) || m[c] != v
}

/// Host-side map from chunk coordinate to the chunk version last queued for
/// upload; used to skip redundant re-uploads of unchanged chunks.
#[derive(Debug)]
pub struct ResidencyTracker {
    entries: Vec<(IVec3, u64)>,
}

impl View for ResidencyTracker {
    type V = Map<IVec3, u64>;

    closed spec fn view(&self) -> Map<IVec3, u64> {
        pairs_to_map(self.entries@)
    }
}

impl ResidencyTracker {
    pub closed spec fn wf(self) -> bool {
        unique_keys(self.entries@)
    }

    pub fn new() -> (t: ResidencyTracker)
        ensures
            t.wf(),
            t@ == Map::<IVec3, u64>::empty(),
    {
        let t = ResidencyTracker { entries: Vec::new() };
        proof {
            assert(t.entries@ =~= Seq::<(IVec3, u64)>::empty());
        }
        t
    }

    fn find(&self, coord: IVec3) -> (r: Option<usize>)
        ensures
            match r {
                Some(i) => i < self.entries@.len() && self.entries@[i as int].0 == coord,
                None => forall|j: int| 0 <= j < self.entries@.len() ==> self.entries@[j].0 != coord,
            },
    {
        let mut i: usize = 0;
        while i < self.entries.len()
            invariant
                i <= self.entries@.len(),
                forall|j: int| 0 <= j < i ==> self.entries@[j].0 != coord,
            decreases self.entries@.len() - i,
        {
            if self.entries[i].0 == coord {
                return Some(i);
            }
            i = i + 1;
        }
        None
    }

    /// The version last recorded for a coordinate, if any.
    pub fn last_synced(&self, coord: &IVec3) -> (r: Option<u64>)
        requires
            self.wf(),
        ensures
            self@.contains_key(*coord) ==> r == Some(self@[*coord]),
            !self@.contains_key(*coord) ==> r is None,
    {
        proof {
            lemma_pairs_domain(self.entries@, *coord);
        }
        match self.find(*coord) {
            Some(i) => {
                proof {
                    lemma_pairs_index(self.entries@, i as int);
                }
                Some(self.entries[i].1)
            },
            None => None,
        }
    }

    /// Decides whether the chunk at `coord`, live at `version`, needs an
    /// upload, and records that version as the one now synced.  Absent
    /// coordinate: first-time load, upload.  Equal version: no work.
    /// Different version: re-upload.
    pub fn needs_upload(&mut self, coord: IVec3, version: u64) -> (r: bool)
        requires
            old(self).wf(),
        ensures
            final(self).wf(),
            r == upload_decision(old(self)@, coord, version),
            final(self)@ == old(self)@.insert(coord, version),
    {
        let ghost e_old = self.entries@;
        proof {
            lemma_pairs_domain(e_old, coord);
        }
        match self.find(coord) {
            Some(i) => {
                proof {
                    lemma_pairs_index(e_old, i as int);
                }
                if self.entries[i].1 == version {
                    proof {
                        assert(self@ =~= self@.insert(coord, version));
                    }
                    false
                } else {
                    self.entries.set(i, (coord, version));
                    proof {
                        assert(self.entries@ =~= e_old.update(i as int, (coord, version)));
                        lemma_pairs_update(e_old, i as int, version);
                    }
                    true
                }
            },
            None => {
                self.entries.push((coord, version));
                proof {
                    assert(self.entries@ =~= e_old.push((coord, version)));
                    lemma_pairs_push(e_old, (coord, version));
                    assert forall|i: int, j: int|
                        0 <= i < j < self.entries@.len() implies self.entries@[i].0
                        != self.entries@[j].0 by {
                        if j == self.entries@.len() - 1 {
                            assert(e_old[i].0 != coord);
                        }
                    }
                }
                true
            },
        }
    }
}

/// Law: resolving the same coordinate twice with an unchanged version
/// produces no upload work the second time, whatever the tracker held
/// before.
pub proof fn lemma_residency_idempotent(m: Map<IVec3, u64>, c: IVec3, v: u64)
    ensures
        !upload_decision(m.insert(c, v), c, v),
{
}

} // verus!

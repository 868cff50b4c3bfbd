use crate::ivec::IVec3;
use crate::voxels::{Block, CHUNK_VOLUME};
use vstd::prelude::*;

verus! {

/// The mathematical content of one stream entry: the target slot, the chunk
/// coordinate that will occupy it, and the full voxel payload.
#[verifier::ext_equal]
pub ghost struct StreamEntryModel {
    pub slot: int,
    pub coord: IVec3,
    pub payload: Seq<Block>,
}

/// One queued upload: a chunk payload bound for a resident grid slot.
#[derive(Debug)]
pub struct StreamEntry {
    pub slot: usize,
    pub coord: IVec3,
    pub payload: Vec<Block>,
}

impl View for StreamEntry {
    type V = StreamEntryModel;

    open spec fn view(&self) -> StreamEntryModel {
        StreamEntryModel { slot: self.slot as int, coord: self.coord, payload: self.payload@ }
    }
}

/// Well-formedness of an entry bound for a grid with `cap` slots.
pub open spec fn entry_wf(e: StreamEntryModel, cap: int) -> bool {
    &&& 0 <= e.slot < cap
    &&& e.payload.len() == CHUNK_VOLUME
}

/// An element-wise copy of a voxel payload.
pub fn copy_blocks(src: &Vec<Block>) -> (r: Vec<Block>)
    ensures
        r@ == src@,
{
    let mut r: Vec<Block> = Vec::new();
    let mut i: usize = 0;
    while i < src.len()
        invariant
            i <= src@.len(),
            r@ =~= src@.take(i as int),
        decreases src@.len() - i,
    {
        r.push(src[i]);
        i = i + 1;
    }
    proof {
        assert(src@.take(src@.len() as int) =~= src@);
    }
    r
}

/// The bounded host-to-device staging queue of newly resolved chunk
/// payloads.  Entries past the capacity in one cycle are dropped, not
/// queued for later; a dropped request reappears via feedback if still
/// needed.
#[derive(Debug)]
pub struct StreamChannel {
    entries: Vec<StreamEntry>,
    capacity: usize,
}

impl View for StreamChannel {
    type V = Seq<StreamEntryModel>;

    closed spec fn view(&self) -> Seq<StreamEntryModel> {
        self.entries@.map_values(|e: StreamEntry| e@)
    }
}

impl StreamChannel {
    /// The fixed number of entries one cycle can queue.
    pub closed spec fn cap_spec(self) -> int {
        self.capacity as int
    }

    pub open spec fn wf(self) -> bool {
        &&& 1 <= self.cap_spec()
        &&& self@.len() <= self.cap_spec()
    }

    pub fn new(capacity: usize) -> (r: StreamChannel)
        requires
            1 <= capacity,
        ensures
            r.wf(),
            r@ == Seq::<StreamEntryModel>::empty(),
            r.cap_spec() == capacity,
    {
        let r = StreamChannel { entries: Vec::new(), capacity };
        proof {
            assert(r@ =~= Seq::<StreamEntryModel>::empty());
        }
        r
    }

    pub fn len(&self) -> (r: usize)
        ensures
            r == self@.len(),
    {
        self.entries.len()
    }

    pub fn capacity(&self) -> (r: usize)
        ensures
            r == self.cap_spec(),
    {
        self.capacity
    }

    /// The entry at a queue position.
    pub fn get(&self, i: usize) -> (r: &StreamEntry)
        requires
            i < self@.len(),
        ensures
            r@ == self@[i as int],
    {
        &self.entries[i]
    }

    /// Queues an entry when there is room; an entry past the capacity is
    /// dropped and `false` returned.
    pub fn push(&mut self, entry: StreamEntry) -> (accepted: bool)
        requires
            old(self).wf(),
        ensures
            final(self).wf(),
            final(self).cap_spec() == old(self).cap_spec(),
            old(self)@.len() < old(self).cap_spec() ==> accepted && final(self)@ == old(
                self,
            )@.push(entry@),
            old(self)@.len() >= old(self).cap_spec() ==> !accepted && final(self)@ == old(self)@,
    {
        if self.entries.len() < self.capacity {
            let ghost e_old = self.entries@;
            self.entries.push(entry);
            proof {
                assert(self@ =~= e_old.map_values(|e: StreamEntry| e@).push(
                    self.entries@[e_old.len() as int]@,
                ));
            }
            true
        } else {
            false
        }
    }

    /// Empties the queue; the compute step calls this after copying the
    /// entries into the grid.
    pub fn clear(&mut self)
        requires
            old(self).wf(),
        ensures
            final(self).wf(),
            final(self).cap_spec() == old(self).cap_spec(),
            final(self)@ == Seq::<StreamEntryModel>::empty(),
    {
        self.entries.clear();
        proof {
            assert(self@ =~= Seq::<StreamEntryModel>::empty());
        }
    }
}

} // verus!

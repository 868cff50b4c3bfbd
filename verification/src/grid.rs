use crate::ivec::{euclid_div_rem_32, euclid_rem, IVec3};
use crate::stream::{copy_blocks, entry_wf, StreamChannel, StreamEntryModel};
use crate::voxels::{block_zero, Block, CHUNK_VOLUME};
use vstd::prelude::*;

verus! {

/// Largest supported per-axis extent of the grid; keeps every slot
/// computation within machine integers.
pub const MAX_GRID_SIDE: usize = 512;

/// The slot a chunk coordinate is assigned to: per axis the chunk index
/// (coordinate divided by the chunk side) reduced modulo the grid's
/// per-axis extent, then flattened.  Deterministic, so a chunk always maps
/// to the same slot and an occupant of a different coordinate is evicted by
/// overwrite.
pub open spec fn slot_of_spec(c: IVec3, side: int) -> int {
    let ex = (c.x as int / 32) % side;
    let ey = (c.y as int / 32) % side;
    let ez = (c.z as int / 32) % side;
    ex + side * ey + side * side * ez
}

/// What the streaming compute step does to the grid: each entry, in queue
/// order, overwrites its target slot's occupant and payload; on a shared
/// slot the later entry wins.
pub open spec fn apply_entries(
    occ: Seq<Option<IVec3>>,
    sto: Seq<Seq<Block>>,
    es: Seq<StreamEntryModel>,
) -> (Seq<Option<IVec3>>, Seq<Seq<Block>>)
    decreases es.len(),
{
    if es.len() == 0 {
        (occ, sto)
    } else {
        let r = apply_entries(occ, sto, es.drop_last());
        let e = es.last();
        (r.0.update(e.slot, Some(e.coord)), r.1.update(e.slot, e.payload))
    }
}

/// Applying entries with in-bounds slots keeps the table sizes.
pub proof fn lemma_apply_len(
    occ: Seq<Option<IVec3>>,
    sto: Seq<Seq<Block>>,
    es: Seq<StreamEntryModel>,
)
    requires
        sto.len() == occ.len(),
        forall|j: int| 0 <= j < es.len() ==> 0 <= (#[trigger] es[j]).slot < occ.len(),
    ensures
        apply_entries(occ, sto, es).0.len() == occ.len(),
        apply_entries(occ, sto, es).1.len() == sto.len(),
    decreases es.len(),
{
    if es.len() > 0 {
        lemma_apply_len(occ, sto, es.drop_last());
    }
}

/// Law: after the compute step runs, an entry no later entry's slot
/// collides with has made its chunk resident: the slot's occupant is the
/// entry's coordinate and the slot's storage is the entry's payload.
pub proof fn lemma_apply_sets_occupant(
    occ: Seq<Option<IVec3>>,
    sto: Seq<Seq<Block>>,
    es: Seq<StreamEntryModel>,
    i: int,
)
    requires
        sto.len() == occ.len(),
        0 <= i < es.len(),
        forall|j: int| 0 <= j < es.len() ==> 0 <= (#[trigger] es[j]).slot < occ.len(),
        forall|j: int| i < j < es.len() ==> (#[trigger] es[j]).slot != es[i].slot,
    ensures
        apply_entries(occ, sto, es).0[es[i].slot] == Some(es[i].coord),
        apply_entries(occ, sto, es).1[es[i].slot] == es[i].payload,
    decreases es.len(),
{
    lemma_apply_len(occ, sto, es.drop_last());
    if i == es.len() - 1 {
    } else {
        lemma_apply_sets_occupant(occ, sto, es.drop_last(), i);
        assert(es[es.len() - 1].slot != es[i].slot);
    }
}

/// A payload of all-zero blocks.
fn zero_payload() -> (r: Vec<Block>)
    ensures
        r@ == Seq::new(CHUNK_VOLUME as nat, |i: int| block_zero()),
{
    let mut r: Vec<Block> = Vec::new();
    let mut i: usize = 0;
    while i < CHUNK_VOLUME
        invariant
            i <= CHUNK_VOLUME,
            r@.len() == i,
            forall|j: int| 0 <= j < i ==> r@[j] == block_zero(),
        decreases CHUNK_VOLUME - i,
    {
        r.push(Block { id: 0, properties: 0, light0: 0, light1: 0 });
        i = i + 1;
    }
    proof {
        assert(r@ =~= Seq::new(CHUNK_VOLUME as nat, |i: int| block_zero()));
    }
    r
}

/// The bounded device-side table of chunk slots the renderer samples from:
/// an occupancy table saying which chunk coordinate, if any, a slot holds,
/// and per-slot voxel storage.  Slots are the unit of eviction: a stream
/// entry overwrites its slot unconditionally.
#[derive(Debug)]
pub struct ResidentGrid {
    side: usize,
    occupancy: Vec<Option<IVec3>>,
    storage: Vec<Vec<Block>>,
}

impl ResidentGrid {
    /// The per-axis extent, in chunks.
    pub closed spec fn side_spec(self) -> int {
        self.side as int
    }

    /// The number of slots.
    pub open spec fn capacity_spec(self) -> int {
        self.side_spec() * self.side_spec() * self.side_spec()
    }

    /// Which chunk coordinate, if any, occupies each slot.
    pub closed spec fn occupancy_view(self) -> Seq<Option<IVec3>> {
        self.occupancy@
    }

    /// The voxels of each slot.
    pub closed spec fn storage_view(self) -> Seq<Seq<Block>> {
        self.storage@.map_values(|v: Vec<Block>| v@)
    }

    pub open spec fn wf(self) -> bool {
        &&& 1 <= self.side_spec() <= MAX_GRID_SIDE
        &&& self.occupancy_view().len() == self.capacity_spec()
        &&& self.storage_view().len() == self.capacity_spec()
        &&& forall|i: int|
            0 <= i < self.capacity_spec() ==> (#[trigger] self.storage_view()[i]).len()
                == CHUNK_VOLUME
    }

    /// A grid of `side^3` empty slots.
    pub fn new(side: usize) -> (r: ResidentGrid)
        requires
            1 <= side <= MAX_GRID_SIDE,
        ensures
            r.wf(),
            r.side_spec() == side,
            forall|i: int| 0 <= i < r.capacity_spec() ==> r.occupancy_view()[i] is None,
            forall|i: int|
                0 <= i < r.capacity_spec() ==> r.storage_view()[i] == Seq::new(
                    CHUNK_VOLUME as nat,
                    |j: int| block_zero(),
                ),
    {
        proof {
            assert(side as int * side as int <= 262144 && side as int * side as int * side as int
                <= 134217728) by (nonlinear_arith)
                requires
                    1 <= side as int,
                    side as int <= 512,
            ;
        }
        let cap: usize = side * side * side;
        let mut occupancy: Vec<Option<IVec3>> = Vec::new();
        let mut storage: Vec<Vec<Block>> = Vec::new();
        let mut i: usize = 0;
        while i < cap
            invariant
                i <= cap,
                occupancy@.len() == i,
                storage@.len() == i,
                forall|j: int| 0 <= j < i ==> occupancy@[j] is None,
                forall|j: int|
                    0 <= j < i ==> (#[trigger] storage@[j])@ == Seq::new(
                        CHUNK_VOLUME as nat,
                        |k: int| block_zero(),
                    ),
            decreases cap - i,
        {
            occupancy.push(None);
            storage.push(zero_payload());
            i = i + 1;
        }
        ResidentGrid { side, occupancy, storage }
    }

    pub fn capacity(&self) -> (r: usize)
        requires
            self.wf(),
        ensures
            r == self.capacity_spec(),
    {
        proof {
            assert(self.side as int * self.side as int <= 262144 && self.side as int
                * self.side as int * self.side as int <= 134217728) by (nonlinear_arith)
                requires
                    1 <= self.side as int,
                    self.side as int <= 512,
            ;
        }
        self.side * self.side * self.side
    }

    pub fn side(&self) -> (r: usize)
        ensures
            r == self.side_spec(),
    {
        self.side
    }

    /// The slot a chunk coordinate is assigned to.
    pub fn slot_of(&self, coord: IVec3) -> (r: usize)
        requires
            self.wf(),
        ensures
            r == slot_of_spec(coord, self.side_spec()),
            r < self.capacity_spec(),
    {
        let (qx, _rx) = euclid_div_rem_32(coord.x);
        let (qy, _ry) = euclid_div_rem_32(coord.y);
        let (qz, _rz) = euclid_div_rem_32(coord.z);
        let ex = euclid_rem(qx, self.side as i32) as usize;
        let ey = euclid_rem(qy, self.side as i32) as usize;
        let ez = euclid_rem(qz, self.side as i32) as usize;
        proof {
            let s = self.side as int;
            assert(ex as int + s * (ey as int) + s * s * (ez as int) < s * s * s && s * (ey as int)
                <= 512 * 511 && s * s * (ez as int) <= 512 * 512 * 511 && s * s <= 512
                * 512) by (nonlinear_arith)
                requires
                    1 <= s <= 512,
                    0 <= ex as int,
                    (ex as int) < s,
                    0 <= ey as int,
                    (ey as int) < s,
                    0 <= ez as int,
                    (ez as int) < s,
            ;
        }
        ex + self.side * ey + self.side * self.side * ez
    }

    /// The chunk coordinate occupying a slot, if any.
    pub fn occupant(&self, slot: usize) -> (r: Option<IVec3>)
        requires
            self.wf(),
            slot < self.capacity_spec(),
        ensures
            r == self.occupancy_view()[slot as int],
    {
        self.occupancy[slot]
    }

    /// One voxel out of a slot's storage.
    pub fn read_voxel(&self, slot: usize, idx: usize) -> (r: Block)
        requires
            self.wf(),
            slot < self.capacity_spec(),
            idx < CHUNK_VOLUME,
        ensures
            r == self.storage_view()[slot as int][idx as int],
    {
        proof {
            assert(self.storage_view()[slot as int] == self.storage@[slot as int]@);
        }
        let v = &self.storage[slot];
        v[idx]
    }

    /// The streaming compute step: copies every pending stream entry into
    /// its target slot (unconditional, idempotent work scheduled every
    /// tick) and empties the channel.
    pub fn apply_stream(&mut self, channel: &mut StreamChannel)
        requires
            old(self).wf(),
            old(channel).wf(),
            forall|i: int|
                0 <= i < old(channel)@.len() ==> entry_wf(
                    #[trigger] old(channel)@[i],
                    old(self).capacity_spec(),
                ),
        ensures
            final(self).wf(),
            final(self).side_spec() == old(self).side_spec(),
            final(self).occupancy_view() == apply_entries(
                old(self).occupancy_view(),
                old(self).storage_view(),
                old(channel)@,
            ).0,
            final(self).storage_view() == apply_entries(
                old(self).occupancy_view(),
                old(self).storage_view(),
                old(channel)@,
            ).1,
            final(channel).wf(),
            final(channel).cap_spec() == old(channel).cap_spec(),
            final(channel)@ == Seq::<StreamEntryModel>::empty(),
    {
        let ghost occ0 = self.occupancy_view();
        let ghost sto0 = self.storage_view();
        let n = channel.len();
        let mut i: usize = 0;
        while i < n
            invariant
                i <= n,
                n == channel@.len(),
                channel.wf(),
                *channel == *old(channel),
                self.side == old(self).side,
                self.wf(),
                forall|j: int|
                    0 <= j < channel@.len() ==> entry_wf(
                        #[trigger] channel@[j],
                        self.capacity_spec(),
                    ),
                self.occupancy_view() == apply_entries(occ0, sto0, channel@.take(i as int)).0,
                self.storage_view() == apply_entries(occ0, sto0, channel@.take(i as int)).1,
            decreases n - i,
        {
            let ghost pre = apply_entries(occ0, sto0, channel@.take(i as int));
            let e = channel.get(i);
            let slot = e.slot;
            let coord = e.coord;
            let payload = copy_blocks(&e.payload);
            let ghost pv = payload@;
            self.occupancy.set(slot, Some(coord));
            self.storage.set(slot, payload);
            proof {
                assert(channel@.take(i + 1).drop_last() =~= channel@.take(i as int));
                assert(channel@.take(i + 1).last() == channel@[i as int]);
                assert(self.occupancy_view() =~= pre.0.update(
                    channel@[i as int].slot,
                    Some(channel@[i as int].coord),
                ));
                assert(self.storage_view() =~= pre.1.update(channel@[i as int].slot, pv));
                assert(pv == channel@[i as int].payload);
            }
            i = i + 1;
        }
        proof {
            assert(channel@.take(n as int) =~= channel@);
        }
        channel.clear();
    }
}

} // verus!

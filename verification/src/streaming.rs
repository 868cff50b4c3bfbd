use crate::feedback::{feedback_hash, request_slot, requests_of, zero_slot, FeedbackChannel};
use crate::grid::{apply_entries, lemma_apply_sets_occupant, slot_of_spec, ResidentGrid,
    MAX_GRID_SIDE};
use crate::ivec::IVec3;
use crate::stream::{copy_blocks, entry_wf, StreamChannel, StreamEntry, StreamEntryModel};
use crate::sync::{legal_step, StreamError, SyncStateMachine, SyncStatus};
use crate::tracker::{upload_decision, ResidencyTracker};
use crate::voxels::{block_zero, Block, ChunkModel, Universe, CHUNK_VOLUME};
use vstd::prelude::*;

verus! {

/// The host-side state one resolution step reads and writes: the last-synced
/// versions, the mirror of which coordinate each grid slot was last queued
/// for, and the pending stream entries.
#[verifier::ext_equal]
pub ghost struct ResolveState {
    pub tracker: Map<IVec3, u64>,
    pub queued: Seq<Option<IVec3>>,
    pub stream: Seq<StreamEntryModel>,
}

/// Whether a requested chunk must be uploaded: its slot was last queued for
/// a different chunk (first load, or evicted by an unrelated occupant), or
/// its version moved past the last-synced one.
pub open spec fn pipeline_needs_upload(rs: ResolveState, c: IVec3, v: u64, side: int) -> bool {
    rs.queued[slot_of_spec(c, side)] != Some(c) || upload_decision(rs.tracker, c, v)
}

/// What resolving one requested coordinate against the world does.  An
/// absent chunk is a transient miss: no work.  A chunk that needs no upload:
/// no work.  Otherwise, when the stream channel has room, the tracker
/// records the version, the slot mirror records the coordinate, and the
/// payload is queued; with no room the request is dropped wholesale and
/// reappears via feedback if still needed.
pub open spec fn resolve_one(
    rs: ResolveState,
    m: Map<IVec3, ChunkModel>,
    c: IVec3,
    side: int,
    cap: int,
) -> ResolveState {
    if !m.contains_key(c) {
        rs
    } else {
        let v = m[c].version as u64;
        let slot = slot_of_spec(c, side);
        if pipeline_needs_upload(rs, c, v, side) {
            if rs.stream.len() < cap {
                ResolveState {
                    tracker: rs.tracker.insert(c, v),
                    queued: rs.queued.update(slot, Some(c)),
                    stream: rs.stream.push(
                        StreamEntryModel { slot, coord: c, payload: m[c].blocks },
                    ),
                }
            } else {
                rs
            }
        } else {
            rs
        }
    }
}

/// Resolving a list of requests, in order.
pub open spec fn resolve_seq(
    rs: ResolveState,
    m: Map<IVec3, ChunkModel>,
    cs: Seq<IVec3>,
    side: int,
    cap: int,
) -> ResolveState
    decreases cs.len(),
{
    if cs.len() == 0 {
        rs
    } else {
        resolve_one(resolve_seq(rs, m, cs.drop_last(), side, cap), m, cs.last(), side, cap)
    }
}

/// What a processing tick asks of the caller.
#[derive(Clone, Copy, PartialEq, Eq, Structural, Debug)]
pub enum TickAction {
    /// Issue the asynchronous read-back request for the feedback buffer.
    IssueRead,
    /// A request is in flight; nothing to do this tick.
    Wait,
    /// A completed read-back was consumed: requests resolved, uploads
    /// queued, feedback cleared.
    Consumed,
}

/// The feedback-driven residency cache: the resident grid and its staging
/// channel, the feedback channel rendering records misses into, the sync
/// machine pacing the read-back, and the host-side residency bookkeeping.
#[derive(Debug)]
pub struct Pipeline {
    pub sync: SyncStateMachine,
    pub tracker: ResidencyTracker,
    pub feedback: FeedbackChannel,
    pub stream: StreamChannel,
    pub grid: ResidentGrid,
    pub queued: Vec<Option<IVec3>>,
}

impl Pipeline {
    /// The host-side state the resolution steps work on.
    pub open spec fn resolve_state(self) -> ResolveState {
        ResolveState { tracker: self.tracker@, queued: self.queued@, stream: self.stream@ }
    }

    pub open spec fn wf(self) -> bool {
        &&& self.tracker.wf()
        &&& self.feedback.wf()
        &&& self.stream.wf()
        &&& self.grid.wf()
        &&& self.queued@.len() == self.grid.capacity_spec()
        &&& forall|i: int|
            0 <= i < self.stream@.len() ==> entry_wf(
                #[trigger] self.stream@[i],
                self.grid.capacity_spec(),
            )
    }

    /// The fixed sizes that never change over the pipeline's lifetime.
    pub open spec fn same_shape(self, other: Pipeline) -> bool {
        &&& self.grid.side_spec() == other.grid.side_spec()
        &&& self.stream.cap_spec() == other.stream.cap_spec()
        &&& self.feedback@.len() == other.feedback@.len()
        &&& self.queued@.len() == other.queued@.len()
    }

    /// The device-side grid contents.
    pub open spec fn same_grid(self, other: Pipeline) -> bool {
        &&& self.grid.occupancy_view() == other.grid.occupancy_view()
        &&& self.grid.storage_view() == other.grid.storage_view()
    }

    /// A pipeline with empty channels, an empty grid of `grid_side^3`
    /// slots, and the sync machine idle.
    pub fn new(grid_side: usize, feedback_capacity: usize, stream_capacity: usize) -> (p: Pipeline)
        requires
            1 <= grid_side <= MAX_GRID_SIDE,
            1 <= feedback_capacity,
            1 <= stream_capacity,
        ensures
            p.wf(),
            p.sync@ == SyncStatus::Idle,
            p.tracker@ == Map::<IVec3, u64>::empty(),
            p.feedback@.len() == feedback_capacity,
            forall|i: int| 0 <= i < feedback_capacity ==> p.feedback@[i] == zero_slot(),
            p.stream@ == Seq::<StreamEntryModel>::empty(),
            p.stream.cap_spec() == stream_capacity,
            p.grid.side_spec() == grid_side,
            forall|i: int| 0 <= i < p.grid.capacity_spec() ==> p.grid.occupancy_view()[i] is None,
            forall|i: int|
                0 <= i < p.grid.capacity_spec() ==> p.grid.storage_view()[i] == Seq::new(
                    CHUNK_VOLUME as nat,
                    |j: int| block_zero(),
                ),
            forall|i: int| 0 <= i < p.queued@.len() ==> p.queued@[i] is None,
    {
        let grid = ResidentGrid::new(grid_side);
        let cap = grid.capacity();
        let mut queued: Vec<Option<IVec3>> = Vec::new();
        let mut i: usize = 0;
        while i < cap
            invariant
                i <= cap,
                queued@.len() == i,
                forall|j: int| 0 <= j < i ==> queued@[j] is None,
            decreases cap - i,
        {
            queued.push(None);
            i = i + 1;
        }
        Pipeline {
            sync: SyncStateMachine::new(),
            tracker: ResidencyTracker::new(),
            feedback: FeedbackChannel::new(feedback_capacity),
            stream: StreamChannel::new(stream_capacity),
            grid,
            queued,
        }
    }

    /// Rendering missed the chunk at `coord`: the coordinate enters the
    /// feedback channel at its hash slot.  Nothing else changes.
    pub fn render_miss(&mut self, coord: IVec3)
        requires
            old(self).wf(),
        ensures
            final(self).wf(),
            final(self).same_shape(*old(self)),
            final(self).same_grid(*old(self)),
            final(self).feedback@ == old(self).feedback@.update(
                feedback_hash(coord, old(self).feedback@.len() as int),
                request_slot(coord),
            ),
            final(self).sync@ == old(self).sync@,
            final(self).resolve_state() == old(self).resolve_state(),
    {
        self.feedback.record_miss(coord);
    }

    /// Delivers the completion of the in-flight mapping request; the
    /// completion side only flips the sync status, never consumes.
    pub fn on_map_complete(&mut self, success: bool) -> (r: Result<(), StreamError>)
        requires
            old(self).wf(),
            old(self).sync@ == SyncStatus::WaitForRead,
        ensures
            final(self).wf(),
            final(self).same_shape(*old(self)),
            final(self).same_grid(*old(self)),
            final(self).feedback@ == old(self).feedback@,
            final(self).resolve_state() == old(self).resolve_state(),
            legal_step(old(self).sync@, final(self).sync@),
            success ==> final(self).sync@ == SyncStatus::Mapped && r is Ok,
            !success ==> final(self).sync@ == SyncStatus::WaitForRead && r == Err::<
                (),
                StreamError,
            >(StreamError::MapFailed),
    {
        self.sync.complete_map(success)
    }

    /// Resolves one requested coordinate against the world, queueing an
    /// upload exactly as `resolve_one` describes.
    pub fn resolve_request(&mut self, world: &Universe, coord: IVec3)
        requires
            old(self).wf(),
            world.wf(),
        ensures
            final(self).wf(),
            final(self).same_shape(*old(self)),
            final(self).same_grid(*old(self)),
            final(self).feedback@ == old(self).feedback@,
            final(self).sync@ == old(self).sync@,
            final(self).resolve_state() == resolve_one(
                old(self).resolve_state(),
                world@,
                coord,
                old(self).grid.side_spec(),
                old(self).stream.cap_spec(),
            ),
    {
        proof {
            world.lemma_view_wf();
        }
        let ghost rs0 = self.resolve_state();
        match world.get_chunk(&coord) {
            None => {
            },
            Some(ch) => {
                let v = ch.version();
                let slot = self.grid.slot_of(coord);
                let mismatch = match self.queued[slot] {
                    Some(qc) => !(qc.x == coord.x && qc.y == coord.y && qc.z == coord.z),
                    None => true,
                };
                proof {
                    assert(mismatch == (rs0.queued[slot as int] != Some(coord)));
                }
                if self.stream.len() < self.stream.capacity() {
                    let vd = self.tracker.needs_upload(coord, v);
                    if vd || mismatch {
                        self.queued.set(slot, Some(coord));
                        let payload = copy_blocks(ch.get_ref());
                        let entry = StreamEntry { slot, coord, payload };
                        let _accepted = self.stream.push(entry);
                    } else {
                        proof {
                            assert(self.tracker@ =~= rs0.tracker);
                            assert(self.resolve_state() =~= rs0);
                        }
                    }
                } else {
                }
            },
        }
    }

    /// Consumes a completed read-back: reads the requested coordinates,
    /// resolves each in slot order, clears the feedback channel so the next
    /// cycle starts from empty, and returns the sync machine to idle.
    pub fn consume_mapped(&mut self, world: &Universe)
        requires
            old(self).wf(),
            world.wf(),
            old(self).sync@ == SyncStatus::Mapped,
        ensures
            final(self).wf(),
            final(self).same_shape(*old(self)),
            final(self).same_grid(*old(self)),
            final(self).resolve_state() == resolve_seq(
                old(self).resolve_state(),
                world@,
                requests_of(old(self).feedback@),
                old(self).grid.side_spec(),
                old(self).stream.cap_spec(),
            ),
            forall|i: int|
                0 <= i < final(self).feedback@.len() ==> final(self).feedback@[i] == zero_slot(),
            final(self).sync@ == SyncStatus::Idle,
            legal_step(old(self).sync@, final(self).sync@),
    {
        let requests = self.feedback.collect_requests();
        let ghost rs0 = self.resolve_state();
        let ghost m = world@;
        let ghost side = self.grid.side_spec();
        let ghost cap = self.stream.cap_spec();
        let n = requests.len();
        let mut i: usize = 0;
        while i < n
            invariant
                i <= n,
                n == requests@.len(),
                world.wf(),
                m == world@,
                self.wf(),
                self.same_shape(*old(self)),
                self.same_grid(*old(self)),
                self.feedback@ == old(self).feedback@,
                self.sync@ == old(self).sync@,
                side == self.grid.side_spec(),
                cap == self.stream.cap_spec(),
                self.resolve_state() == resolve_seq(rs0, m, requests@.take(i as int), side, cap),
            decreases n - i,
        {
            let c = requests[i];
            let ghost prev = self.resolve_state();
            self.resolve_request(world, c);
            proof {
                assert(self.resolve_state() == resolve_one(prev, m, c, side, cap));
                assert(prev == resolve_seq(rs0, m, requests@.take(i as int), side, cap));
                assert(requests@.take(i + 1).drop_last() =~= requests@.take(i as int));
                assert(requests@.take(i + 1).last() == requests@[i as int]);
                assert(resolve_seq(rs0, m, requests@.take(i + 1), side, cap) == resolve_one(
                    resolve_seq(rs0, m, requests@.take(i as int), side, cap),
                    m,
                    requests@[i as int],
                    side,
                    cap,
                ));
            }
            i = i + 1;
        }
        proof {
            assert(requests@.take(n as int) =~= requests@);
        }
        self.feedback.clear();
        self.sync.finish_read();
    }

    /// One host processing tick: issues a read-back when idle, waits while
    /// one is in flight, and consumes a completed one.  The returned action
    /// tells the caller what device work to perform.
    pub fn process_tick(&mut self, world: &Universe) -> (a: TickAction)
        requires
            old(self).wf(),
            world.wf(),
        ensures
            final(self).wf(),
            final(self).same_shape(*old(self)),
            final(self).same_grid(*old(self)),
            legal_step(old(self).sync@, final(self).sync@),
            old(self).sync@ == SyncStatus::Idle ==> a == TickAction::IssueRead && final(self).sync@ == SyncStatus::WaitForRead && final(self).feedback@ == old(self).feedback@
                && final(self).resolve_state() == old(self).resolve_state(),
            old(self).sync@ == SyncStatus::WaitForRead ==> a == TickAction::Wait && final(self).sync@ == SyncStatus::WaitForRead && final(self).feedback@ == old(self).feedback@
                && final(self).resolve_state() == old(self).resolve_state(),
            old(self).sync@ == SyncStatus::Mapped ==> a == TickAction::Consumed && final(self).sync@ == SyncStatus::Idle && final(self).resolve_state() == resolve_seq(
                old(self).resolve_state(),
                world@,
                requests_of(old(self).feedback@),
                old(self).grid.side_spec(),
                old(self).stream.cap_spec(),
            ) && (forall|i: int|
                0 <= i < final(self).feedback@.len() ==> final(self).feedback@[i] == zero_slot()),
    {
        match self.sync.status() {
            SyncStatus::Idle => {
                self.sync.begin_read();
                TickAction::IssueRead
            },
            SyncStatus::WaitForRead => TickAction::Wait,
            SyncStatus::Mapped => {
                self.consume_mapped(world);
                TickAction::Consumed
            },
        }
    }

    /// The streaming compute step: copies the pending stream entries into
    /// their grid slots (unconditional work every tick; an empty channel is
    /// a no-op) and empties the channel.
    pub fn apply_stream(&mut self)
        requires
            old(self).wf(),
        ensures
            final(self).wf(),
            final(self).same_shape(*old(self)),
            final(self).grid.occupancy_view() == apply_entries(
                old(self).grid.occupancy_view(),
                old(self).grid.storage_view(),
                old(self).stream@,
            ).0,
            final(self).grid.storage_view() == apply_entries(
                old(self).grid.occupancy_view(),
                old(self).grid.storage_view(),
                old(self).stream@,
            ).1,
            final(self).stream@ == Seq::<StreamEntryModel>::empty(),
            final(self).sync@ == old(self).sync@,
            final(self).feedback@ == old(self).feedback@,
            final(self).tracker@ == old(self).tracker@,
            final(self).queued@ == old(self).queued@,
    {
        self.grid.apply_stream(&mut self.stream);
    }
}

/// Law: resolving the same chunk coordinate twice against an unchanged
/// world produces zero upload work the second time: one resolution step is
/// a fixed point.  (With no room in the stream channel the first resolution
/// already does zero work.)
pub proof fn lemma_resolve_idempotent(
    rs: ResolveState,
    m: Map<IVec3, ChunkModel>,
    c: IVec3,
    side: int,
    cap: int,
)
    requires
        rs.stream.len() < cap,
        0 <= slot_of_spec(c, side) < rs.queued.len(),
    ensures
        resolve_one(resolve_one(rs, m, c, side, cap), m, c, side, cap) == resolve_one(
            rs,
            m,
            c,
            side,
            cap,
        ),
{
}

/// Law: eviction self-heals.  If a chunk the world holds is not the one its
/// slot was last queued for (it was evicted by an unrelated chunk, or never
/// loaded), then — with room in the stream channel this cycle — resolving a
/// feedback miss for it queues its payload, and the compute step that
/// follows makes it resident again: one feedback cycle bounds the repair.
pub proof fn lemma_eviction_self_healing(
    rs: ResolveState,
    m: Map<IVec3, ChunkModel>,
    c: IVec3,
    side: int,
    cap: int,
    occ: Seq<Option<IVec3>>,
    sto: Seq<Seq<Block>>,
)
    requires
        m.contains_key(c),
        0 <= slot_of_spec(c, side) < rs.queued.len(),
        rs.queued[slot_of_spec(c, side)] != Some(c),
        rs.stream.len() < cap,
        occ.len() == sto.len(),
        slot_of_spec(c, side) < occ.len(),
        forall|j: int| 0 <= j < rs.stream.len() ==> 0 <= (#[trigger] rs.stream[j]).slot < occ.len(),
    ensures
        resolve_one(rs, m, c, side, cap).stream.len() == rs.stream.len() + 1,
        resolve_one(rs, m, c, side, cap).queued[slot_of_spec(c, side)] == Some(c),
        apply_entries(occ, sto, resolve_one(rs, m, c, side, cap).stream).0[slot_of_spec(c, side)]
            == Some(c),
        apply_entries(occ, sto, resolve_one(rs, m, c, side, cap).stream).1[slot_of_spec(c, side)]
            == m[c].blocks,
{
    let rs1 = resolve_one(rs, m, c, side, cap);
    assert(pipeline_needs_upload(rs, c, m[c].version as u64, side));
    lemma_apply_sets_occupant(occ, sto, rs1.stream, rs.stream.len() as int);
}

} // verus!

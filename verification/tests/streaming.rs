use voxel_stream::feedback::{feedback_slot_index, FeedbackChannel};
use voxel_stream::ivec::IVec3;
use voxel_stream::stream::{StreamChannel, StreamEntry};
use voxel_stream::streaming::{Pipeline, TickAction};
use voxel_stream::sync::{StreamError, SyncStateMachine, SyncStatus};
use voxel_stream::tracker::ResidencyTracker;
use voxel_stream::voxels::{Block, Universe, CHUNK_VOLUME};

#[test]
fn residency_idempotence() {
    let mut t = ResidencyTracker::new();
    let c = IVec3::new(32, 0, -64);
    assert!(t.needs_upload(c, 3));
    // same coordinate, unchanged version: zero upload work the second time
    assert!(!t.needs_upload(c, 3));
    assert!(!t.needs_upload(c, 3));
    // a changed version requires a re-upload
    assert!(t.needs_upload(c, 4));
    assert!(!t.needs_upload(c, 4));
    assert_eq!(t.last_synced(&c), Some(4));
    assert_eq!(t.last_synced(&IVec3::new(0, 0, 0)), None);
}

#[test]
fn sync_cycle_legality() {
    let mut m = SyncStateMachine::new();
    assert_eq!(m.status(), SyncStatus::Idle);
    m.begin_read();
    assert_eq!(m.status(), SyncStatus::WaitForRead);
    assert!(m.complete_map(true).is_ok());
    assert_eq!(m.status(), SyncStatus::Mapped);
    m.finish_read();
    assert_eq!(m.status(), SyncStatus::Idle);
}

#[test]
fn sync_map_failure_is_fatal_not_retried() {
    let mut m = SyncStateMachine::new();
    m.begin_read();
    let r = m.complete_map(false);
    assert_eq!(r, Err(StreamError::MapFailed));
    // the machine stays stalled rather than issuing another request
    assert_eq!(m.status(), SyncStatus::WaitForRead);
    assert_eq!(StreamError::MapFailed.describe(), "feedback mapping error");
}

#[test]
fn pipeline_stalls_while_waiting() {
    let mut p = Pipeline::new(2, 16, 4);
    let w = Universe::new();
    assert_eq!(p.process_tick(&w), TickAction::IssueRead);
    // until the completion fires, every tick is backpressured
    assert_eq!(p.process_tick(&w), TickAction::Wait);
    assert_eq!(p.process_tick(&w), TickAction::Wait);
    assert!(p.on_map_complete(true).is_ok());
    assert_eq!(p.process_tick(&w), TickAction::Consumed);
    assert_eq!(p.process_tick(&w), TickAction::IssueRead);
}

fn run_cycle(p: &mut Pipeline, w: &Universe) {
    assert_eq!(p.process_tick(w), TickAction::IssueRead);
    assert!(p.on_map_complete(true).is_ok());
    assert_eq!(p.process_tick(w), TickAction::Consumed);
}

#[test]
fn feedback_cycle_resolves_requests() {
    // two of 256 slots written this cycle
    let mut p = Pipeline::new(8, 256, 16);
    let mut w = Universe::new();
    let a = IVec3::new(0, 0, 0);
    let b = IVec3::new(32, 0, 0);
    w.write_block(&IVec3::new(1, 1, 1), Block::from_id(5));
    w.write_block(&IVec3::new(33, 1, 1), Block::from_id(6));
    assert_ne!(
        feedback_slot_index(a, 256),
        feedback_slot_index(b, 256),
        "the two requests must occupy distinct feedback slots"
    );
    p.render_miss(a);
    p.render_miss(b);
    run_cycle(&mut p, &w);
    // exactly the two requested coordinates were resolved and queued
    assert_eq!(p.stream.len(), 2);
    let coords = [p.stream.get(0).coord, p.stream.get(1).coord];
    assert!(coords.contains(&a));
    assert!(coords.contains(&b));
    assert_eq!(p.stream.get(0).payload.len(), CHUNK_VOLUME);
    // all 256 slots read back as zero afterwards
    for i in 0..p.feedback.capacity() {
        let s = p.feedback.get(i);
        assert_eq!((s.x, s.y, s.z, s.used), (0, 0, 0, 0));
    }
    // the compute step makes both chunks resident in distinct slots
    p.apply_stream();
    assert_eq!(p.stream.len(), 0);
    let sa = p.grid.slot_of(a);
    let sb = p.grid.slot_of(b);
    assert_ne!(sa, sb);
    assert_eq!(p.grid.occupant(sa), Some(a));
    assert_eq!(p.grid.occupant(sb), Some(b));
    // the uploaded voxels are the world's
    assert_eq!(p.grid.read_voxel(sa, 1024 + 32 + 1).id, 5);
    assert_eq!(p.grid.read_voxel(sb, 1024 + 32 + 1).id, 6);
}

#[test]
fn unchanged_chunk_is_not_reuploaded() {
    let mut p = Pipeline::new(2, 16, 4);
    let mut w = Universe::new();
    let a = IVec3::new(0, 0, 0);
    w.write_block(&IVec3::new(0, 0, 0), Block::from_id(1));
    p.render_miss(a);
    run_cycle(&mut p, &w);
    assert_eq!(p.stream.len(), 1);
    p.apply_stream();
    // a second miss for the same unchanged chunk queues nothing
    p.render_miss(a);
    run_cycle(&mut p, &w);
    assert_eq!(p.stream.len(), 0);
    // after a write, the version moved: the next miss re-uploads
    w.write_block(&IVec3::new(2, 2, 2), Block::from_id(9));
    p.render_miss(a);
    run_cycle(&mut p, &w);
    assert_eq!(p.stream.len(), 1);
}

#[test]
fn eviction_self_heals() {
    let mut p = Pipeline::new(2, 16, 4);
    let mut w = Universe::new();
    let a = IVec3::new(0, 0, 0);
    // chunk index (2, 0, 0) reduces to the same slot as (0, 0, 0) on a
    // side-2 grid
    let b = IVec3::new(64, 0, 0);
    w.write_block(&IVec3::new(1, 0, 0), Block::from_id(1));
    w.write_block(&IVec3::new(65, 0, 0), Block::from_id(2));
    let slot = p.grid.slot_of(a);
    assert_eq!(p.grid.slot_of(b), slot);

    // first cycle: a becomes resident
    p.render_miss(a);
    run_cycle(&mut p, &w);
    p.apply_stream();
    assert_eq!(p.grid.occupant(slot), Some(a));

    // second cycle: the unrelated b evicts a by overwrite
    p.render_miss(b);
    run_cycle(&mut p, &w);
    p.apply_stream();
    assert_eq!(p.grid.occupant(slot), Some(b));

    // third cycle: a render miss for the evicted chunk re-enters the
    // feedback channel and the chunk becomes resident again, although its
    // version never changed
    p.render_miss(a);
    run_cycle(&mut p, &w);
    assert_eq!(p.stream.len(), 1);
    p.apply_stream();
    assert_eq!(p.grid.occupant(slot), Some(a));
    assert_eq!(p.grid.read_voxel(slot, 1024).id, 1);
}

#[test]
fn absent_chunk_request_is_transient() {
    let mut p = Pipeline::new(2, 16, 4);
    let w = Universe::new();
    p.render_miss(IVec3::new(0, 0, 0));
    run_cycle(&mut p, &w);
    // nothing to upload: the miss renders as empty and is not an error
    assert_eq!(p.stream.len(), 0);
}

#[test]
fn stream_channel_drops_excess() {
    let mut s = StreamChannel::new(2);
    assert_eq!(s.capacity(), 2);
    let entry = |slot: usize| StreamEntry {
        slot,
        coord: IVec3::new(0, 0, 0),
        payload: vec![Block::from_id(0); CHUNK_VOLUME],
    };
    assert!(s.push(entry(0)));
    assert!(s.push(entry(1)));
    // the channel is full: the excess entry is dropped, not queued
    assert!(!s.push(entry(2)));
    assert_eq!(s.len(), 2);
    s.clear();
    assert_eq!(s.len(), 0);
}

#[test]
fn stream_overflow_drops_requests_per_cycle() {
    let mut p = Pipeline::new(2, 16, 1);
    let mut w = Universe::new();
    let a = IVec3::new(0, 0, 0);
    let b = IVec3::new(32, 0, 0);
    w.write_block(&IVec3::new(0, 0, 0), Block::from_id(1));
    w.write_block(&IVec3::new(32, 0, 0), Block::from_id(2));
    p.render_miss(a);
    p.render_miss(b);
    run_cycle(&mut p, &w);
    // only one entry fits; the other request was dropped for this cycle
    assert_eq!(p.stream.len(), 1);
}

#[test]
fn feedback_channel_deduplicates() {
    let mut f = FeedbackChannel::new(16);
    let c = IVec3::new(-32, 64, 0);
    f.record_miss(c);
    f.record_miss(c);
    let requests = f.collect_requests();
    assert_eq!(requests, vec![c]);
    f.clear();
    assert!(f.collect_requests().is_empty());
    for i in 0..f.capacity() {
        assert_eq!(f.get(i).used, 0);
    }
}

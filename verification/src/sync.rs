use vstd::prelude::*;

verus! {

/// Phase of the asynchronous feedback read-back.
#[derive(Clone, Copy, PartialEq, Eq, Structural, Debug)]
pub enum SyncStatus {
    /// No host read-back is outstanding.
    Idle,
    /// A mapping request is in flight; ticks do no read-back work.
    WaitForRead,
    /// The completion fired; the mapped memory may be read exactly once.
    Mapped,
}

/// Fatal failures of the streaming subsystem.
#[derive(Clone, Copy, PartialEq, Eq, Structural, Debug)]
pub enum StreamError {
    /// The asynchronous mapping request reported an error (device lost,
    /// out of memory); not retried.
    MapFailed,
}

impl StreamError {
    /// A short description of the failure.
    pub fn describe(&self) -> (r: &'static str)
        ensures
            r@ =~= "feedback mapping error"@,
    {
        "feedback mapping error"
    }
}

/// The only steps the machine ever takes: staying put, or moving along the
/// cycle Idle -> WaitForRead -> Mapped -> Idle.
pub open spec fn legal_step(pre: SyncStatus, post: SyncStatus) -> bool {
    ||| pre == post
    ||| (pre == SyncStatus::Idle && post == SyncStatus::WaitForRead)
    ||| (pre == SyncStatus::WaitForRead && post == SyncStatus::Mapped)
    ||| (pre == SyncStatus::Mapped && post == SyncStatus::Idle)
}

/// How many read-backs a status holds in flight.
pub open spec fn inflight(s: SyncStatus) -> nat {
    if s == SyncStatus::WaitForRead {
        1nat
    } else {
        0nat
    }
}

/// Law: whatever the status, at most one read-back is in flight; two are
/// never simultaneously outstanding.
pub proof fn lemma_at_most_one_inflight(s: SyncStatus)
    ensures
        inflight(s) <= 1,
{
}

/// Paces the asynchronous host read-back of the feedback channel so that at
/// most one read-back is outstanding at any time.  The tick loop issues
/// requests and consumes completed mappings; the completion side only marks
/// the mapping done.
#[derive(Debug)]
pub struct SyncStateMachine {
    status: SyncStatus,
}

impl View for SyncStateMachine {
    type V = SyncStatus;

    closed spec fn view(&self) -> SyncStatus {
        self.status
    }
}

impl SyncStateMachine {
    pub fn new() -> (m: SyncStateMachine)
        ensures
            m@ == SyncStatus::Idle,
    {
        SyncStateMachine { status: SyncStatus::Idle }
    }

    /// The current phase.
    pub fn status(&self) -> (r: SyncStatus)
        ensures
            r == self@,
    {
        self.status
    }

    /// Issues the read-back request for this cycle: the status leaves `Idle`
    /// synchronously, before the request completes, so no second request can
    /// be issued meanwhile.
    pub fn begin_read(&mut self)
        requires
            old(self)@ == SyncStatus::Idle,
        ensures
            final(self)@ == SyncStatus::WaitForRead,
            legal_step(old(self)@, final(self)@),
    {
        self.status = SyncStatus::WaitForRead;
    }

    /// Delivers the completion of the in-flight request.  On success the
    /// mapped memory becomes readable; on failure the machine reports the
    /// fatal error and stays where it was, stalling streaming rather than
    /// retrying.
    pub fn complete_map(&mut self, success: bool) -> (r: Result<(), StreamError>)
        requires
            old(self)@ == SyncStatus::WaitForRead,
        ensures
            legal_step(old(self)@, final(self)@),
            success ==> final(self)@ == SyncStatus::Mapped && r is Ok,
            !success ==> final(self)@ == old(self)@ && r == Err::<(), StreamError>(
                StreamError::MapFailed,
            ),
    {
        if success {
            self.status = SyncStatus::Mapped;
            Ok(())
        } else {
            Err(StreamError::MapFailed)
        }
    }

    /// Marks the completed mapping consumed: the host has read the mapped
    /// memory and released it, so a new request may be issued next tick.
    pub fn finish_read(&mut self)
        requires
            old(self)@ == SyncStatus::Mapped,
        ensures
            final(self)@ == SyncStatus::Idle,
            legal_step(old(self)@, final(self)@),
    {
        self.status = SyncStatus::Idle;
    }
}

} // verus!

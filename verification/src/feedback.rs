use crate::ivec::IVec3;
use vstd::arithmetic::div_mod::{lemma_fundamental_div_mod_converse, lemma_mod_bound};
use vstd::prelude::*;

verus! {

/// One slot of the feedback channel: a coordinate-like record.  A zero
/// record (`used == 0`) means no request; writers mark `used` nonzero.
#[derive(Clone, Copy, PartialEq, Eq, Structural, Debug)]
pub struct FeedbackSlot {
    pub x: i32,
    pub y: i32,
    pub z: i32,
    pub used: u32,
}

/// The empty slot: all four fields zero.
pub open spec fn zero_slot() -> FeedbackSlot {
    FeedbackSlot { x: 0, y: 0, z: 0, used: 0 }
}

/// A coordinate's slot record.
pub open spec fn request_slot(c: IVec3) -> FeedbackSlot {
    FeedbackSlot { x: c.x, y: c.y, z: c.z, used: 1 }
}

/// A component reduced to its unsigned 32-bit representative.
pub open spec fn wrap32(a: int) -> int {
    a % 0x1_0000_0000
}

/// The collision-tolerant hash that picks a slot for a missed coordinate:
/// different coordinates may share a slot, and a later write for the same
/// slot simply overwrites — intentional deduplication.
pub open spec fn feedback_hash(c: IVec3, cap: int) -> int {
    (wrap32(c.x as int) * 0x9E3779B1 + wrap32(c.y as int) * 0x85EBCA77 + wrap32(c.z as int)
        * 0xC2B2AE3D) % cap
}

/// The unsigned 32-bit representative of a signed component.
fn wrap_u32(a: i32) -> (r: u32)
    ensures
        r == wrap32(a as int),
{
    if a >= 0 {
        proof {
            lemma_fundamental_div_mod_converse(a as int, 0x1_0000_0000, 0, a as int);
        }
        a as u32
    } else {
        proof {
            lemma_fundamental_div_mod_converse(a as int, 0x1_0000_0000, -1, a as int
                + 0x1_0000_0000);
        }
        ((a as i64) + 0x1_0000_0000i64) as u32
    }
}

/// The slot index the hash assigns to a coordinate in a channel of the given
/// capacity.
pub fn feedback_slot_index(coord: IVec3, cap: usize) -> (r: usize)
    requires
        1 <= cap,
    ensures
        r == feedback_hash(coord, cap as int),
        r < cap,
{
    let ux = wrap_u32(coord.x);
    let uy = wrap_u32(coord.y);
    let uz = wrap_u32(coord.z);
    let h: u128 = (ux as u128) * 0x9E3779B1 + (uy as u128) * 0x85EBCA77 + (uz as u128)
        * 0xC2B2AE3D;
    (h % (cap as u128)) as usize
}

/// The coordinates of the occupied slots, in slot order: what the host
/// interprets out of a completed read-back.
pub open spec fn requests_of(s: Seq<FeedbackSlot>) -> Seq<IVec3>
    decreases s.len(),
{
    if s.len() == 0 {
        Seq::empty()
    } else {
        let init = requests_of(s.drop_last());
        let l = s.last();
        if l.used != 0 {
            init.push(IVec3 { x: l.x, y: l.y, z: l.z })
        } else {
            init
        }
    }
}

/// The write target rendering records misses into: a fixed number of
/// coordinate slots, cleared by the host once per completed read-back
/// cycle.  Capacity overflow is silently lossy: colliding writes overwrite.
#[derive(Debug)]
pub struct FeedbackChannel {
    slots: Vec<FeedbackSlot>,
}

impl View for FeedbackChannel {
    type V = Seq<FeedbackSlot>;

    closed spec fn view(&self) -> Seq<FeedbackSlot> {
        self.slots@
    }
}

impl FeedbackChannel {
    pub open spec fn wf(self) -> bool {
        1 <= self@.len()
    }

    /// A channel of the given capacity, all slots zero.
    pub fn new(capacity: usize) -> (r: FeedbackChannel)
        requires
            1 <= capacity,
        ensures
            r.wf(),
            r@.len() == capacity,
            forall|i: int| 0 <= i < capacity ==> r@[i] == zero_slot(),
    {
        let mut slots: Vec<FeedbackSlot> = Vec::new();
        let mut i: usize = 0;
        while i < capacity
            invariant
                i <= capacity,
                slots@.len() == i,
                forall|j: int| 0 <= j < i ==> slots@[j] == zero_slot(),
            decreases capacity - i,
        {
            slots.push(FeedbackSlot { x: 0, y: 0, z: 0, used: 0 });
            i = i + 1;
        }
        FeedbackChannel { slots }
    }

    pub fn capacity(&self) -> (r: usize)
        ensures
            r == self@.len(),
    {
        self.slots.len()
    }

    /// The record in a slot.
    pub fn get(&self, i: usize) -> (r: FeedbackSlot)
        requires
            i < self@.len(),
        ensures
            r == self@[i as int],
    {
        self.slots[i]
    }

    /// Records that rendering missed the chunk at `coord`: the coordinate is
    /// written into the slot the hash picks, overwriting whatever was there.
    pub fn record_miss(&mut self, coord: IVec3)
        requires
            old(self).wf(),
        ensures
            final(self).wf(),
            final(self)@ == old(self)@.update(
                feedback_hash(coord, old(self)@.len() as int),
                request_slot(coord),
            ),
    {
        let i = feedback_slot_index(coord, self.slots.len());
        self.slots.set(i, FeedbackSlot { x: coord.x, y: coord.y, z: coord.z, used: 1 });
    }

    /// Zeroes every slot, so writers for the next cycle start from empty.
    pub fn clear(&mut self)
        requires
            old(self).wf(),
        ensures
            final(self).wf(),
            final(self)@.len() == old(self)@.len(),
            forall|i: int| 0 <= i < final(self)@.len() ==> final(self)@[i] == zero_slot(),
    {
        let n = self.slots.len();
        let mut i: usize = 0;
        while i < n
            invariant
                i <= n,
                self.slots@.len() == n,
                forall|j: int| 0 <= j < i ==> self.slots@[j] == zero_slot(),
            decreases n - i,
        {
            self.slots.set(i, FeedbackSlot { x: 0, y: 0, z: 0, used: 0 });
            i = i + 1;
        }
    }

    /// Reads the requested coordinates out of the channel, in slot order.
    pub fn collect_requests(&self) -> (r: Vec<IVec3>)
        ensures
            r@ == requests_of(self@),
    {
        let mut r: Vec<IVec3> = Vec::new();
        let mut i: usize = 0;
        while i < self.slots.len()
            invariant
                i <= self.slots@.len(),
                r@ == requests_of(self@.take(i as int)),
            decreases self.slots@.len() - i,
        {
            let s = self.slots[i];
            proof {
                assert(self@.take(i + 1).drop_last() =~= self@.take(i as int));
                assert(self@.take(i + 1).last() == self@[i as int]);
            }
            if s.used != 0 {
                r.push(IVec3 { x: s.x, y: s.y, z: s.z });
            }
            i = i + 1;
        }
        proof {
            assert(self@.take(self@.len() as int) =~= self@);
        }
        r
    }
}

/// The hash always lands inside the channel.
pub proof fn lemma_feedback_hash_in_range(c: IVec3, cap: int)
    requires
        1 <= cap,
    ensures
        0 <= feedback_hash(c, cap) < cap,
{
    lemma_mod_bound(
        wrap32(c.x as int) * 0x9E3779B1 + wrap32(c.y as int) * 0x85EBCA77 + wrap32(c.z as int)
            * 0xC2B2AE3D,
        cap,
    );
}

/// Law: a recorded miss is among the requests read back, provided no later
/// miss hashed to the same slot.
pub proof fn lemma_miss_is_requested(s: Seq<FeedbackSlot>, c: IVec3)
    requires
        s.len() >= 1,
    ensures
        requests_of(s.update(feedback_hash(c, s.len() as int), request_slot(c))).contains(c),
{
    lemma_feedback_hash_in_range(c, s.len() as int);
    lemma_slot_requested(s.update(feedback_hash(c, s.len() as int), request_slot(c)), feedback_hash(
        c,
        s.len() as int,
    ));
}

/// Helper: every occupied slot contributes its coordinate to the requests.
pub proof fn lemma_slot_requested(s: Seq<FeedbackSlot>, i: int)
    requires
        0 <= i < s.len(),
        s[i].used != 0,
    ensures
        requests_of(s).contains(IVec3 { x: s[i].x, y: s[i].y, z: s[i].z }),
    decreases s.len(),
{
    if i == s.len() - 1 {
        assert(requests_of(s).last() == IVec3 { x: s[i].x, y: s[i].y, z: s[i].z });
    } else {
        lemma_slot_requested(s.drop_last(), i);
        let c = IVec3 { x: s[i].x, y: s[i].y, z: s[i].z };
        let j = choose|j: int|
            0 <= j < requests_of(s.drop_last()).len() && requests_of(s.drop_last())[j] == c;
        if s.last().used != 0 {
            assert(requests_of(s)[j] == c);
        } else {
            assert(requests_of(s)[j] == c);
        }
    }
}

} // verus!

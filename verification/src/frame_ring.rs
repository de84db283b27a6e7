//! The renderer's ring of frame slots: which slot the next frame is drawn
//! into, what is still in flight on the GPU, and the measurements of a
//! frame once the GPU is done with it. The GPU work itself is done by the
//! caller between these steps.

use vstd::prelude::*;
use crate::frames::{dropped_frames, FrameMetrics};

verus! {

/// A frame submitted to the GPU and not yet finished (times in
/// nanoseconds, `submitted_at_ns` on the caller's monotonic clock).
#[derive(Clone, Copy, Debug, PartialEq, Eq, Structural)]
pub struct PendingFrame {
    pub frame_id: u64,
    pub encode_ns: u64,
    pub queue_ns: u64,
    pub frame_interval_ns: u64,
    pub triple_depth: u8,
    pub submitted_at_ns: u64,
}

/// How many slots hold a frame.
pub open spec fn pending_count(s: Seq<Option<PendingFrame>>) -> nat
    decreases s.len(),
{
    if s.len() == 0 {
        0
    } else {
        pending_count(s.drop_last()) + if s.last() is Some { 1nat } else { 0nat }
    }
}

/// The frames held by the slots, in slot order.
pub open spec fn pending_frames(s: Seq<Option<PendingFrame>>) -> Seq<PendingFrame>
    decreases s.len(),
{
    if s.len() == 0 {
        Seq::empty()
    } else {
        let rest = pending_frames(s.drop_last());
        match s.last() {
            Some(p) => rest.push(p),
            None => rest,
        }
    }
}

proof fn lemma_pending_count_bound(s: Seq<Option<PendingFrame>>)
    ensures
        pending_count(s) <= s.len(),
    decreases s.len(),
{
    if s.len() > 0 {
        lemma_pending_count_bound(s.drop_last());
    }
}

proof fn lemma_pending_count_below(s: Seq<Option<PendingFrame>>, i: int)
    requires
        0 <= i < s.len(),
        s[i] is None,
    ensures
        pending_count(s) < s.len(),
    decreases s.len(),
{
    if i == s.len() - 1 {
        lemma_pending_count_bound(s.drop_last());
    } else {
        lemma_pending_count_below(s.drop_last(), i);
    }
}

proof fn lemma_pending_count_put(s: Seq<Option<PendingFrame>>, i: int, p: PendingFrame)
    requires
        0 <= i < s.len(),
        s[i] is None,
    ensures
        pending_count(s.update(i, Some(p))) == pending_count(s) + 1,
    decreases s.len(),
{
    let u = s.update(i, Some(p));
    if i == s.len() - 1 {
        assert(u.drop_last() =~= s.drop_last());
    } else {
        assert(u.drop_last() =~= s.drop_last().update(i, Some(p)));
        lemma_pending_count_put(s.drop_last(), i, p);
    }
}

/// The slots of the renderer, used in turn.
pub struct FrameRing {
    slots: Vec<Option<PendingFrame>>,
    next_slot: usize,
    frame_id: u64,
    last_frame_start_ns: Option<u64>,
    last_completed_frame: Option<u64>,
}

impl FrameRing {
    /// What each slot holds.
    pub closed spec fn slots(&self) -> Seq<Option<PendingFrame>> {
        self.slots@
    }

    /// The slot the next frame is drawn into.
    pub closed spec fn next(&self) -> int {
        self.next_slot as int
    }

    /// The number the next frame gets.
    pub closed spec fn next_frame_id(&self) -> u64 {
        self.frame_id
    }

    /// When the last frame was submitted.
    pub closed spec fn last_start(&self) -> Option<u64> {
        self.last_frame_start_ns
    }

    /// The number of the last frame the GPU finished.
    pub closed spec fn last_completed(&self) -> Option<u64> {
        self.last_completed_frame
    }

    /// The ring's invariant: at least one and fewer than 256 slots, the next
    /// slot among them, and every frame in flight or finished numbered
    /// below the next frame.
    pub open spec fn wf(&self) -> bool {
        &&& 0 < self.slots().len() < 256
        &&& 0 <= self.next() < self.slots().len()
        &&& forall|i: int| 0 <= i < self.slots().len() && (#[trigger] self.slots()[i]) is Some ==> self.slots()[i]->0.frame_id
            < self.next_frame_id()
        &&& (self.last_completed() matches Some(l) ==> l < self.next_frame_id())
    }

    /// A ring of `slot_count` empty slots, starting at the first slot with
    /// frame number 0.
    pub fn new(slot_count: usize) -> (r: FrameRing)
        requires
            0 < slot_count < 256,
        ensures
            r.wf(),
            r.slots() == Seq::new(slot_count as nat, |i: int| None::<PendingFrame>),
            r.next() == 0,
            r.next_frame_id() == 0,
            r.last_start() is None,
            r.last_completed() is None,
    {
        let mut slots: Vec<Option<PendingFrame>> = Vec::new();
        let mut i: usize = 0;
        while i < slot_count
            invariant
                i <= slot_count,
                slots@ == Seq::new(i as nat, |k: int| None::<PendingFrame>),
            decreases slot_count - i,
        {
            slots.push(None);
            assert(slots@ =~= Seq::new((i + 1) as nat, |k: int| None::<PendingFrame>));
            i = i + 1;
        }
        FrameRing { slots, next_slot: 0, frame_id: 0, last_frame_start_ns: None, last_completed_frame: None }
    }

    /// The number of slots.
    pub fn slot_count(&self) -> (r: usize)
        ensures
            r == self.slots().len(),
    {
        self.slots.len()
    }

    /// The number the next frame gets.
    pub fn frame_number(&self) -> (r: u64)
        ensures
            r == self.next_frame_id(),
    {
        self.frame_id
    }

    /// How many frames are in flight.
    pub fn in_flight(&self) -> (r: usize)
        ensures
            r == pending_count(self.slots()),
    {
        let mut n: usize = 0;
        let mut i: usize = 0;
        while i < self.slots.len()
            invariant
                i <= self.slots@.len(),
                n == pending_count(self.slots@.take(i as int)),
                n <= i,
            decreases self.slots.len() - i,
        {
            assert(self.slots@.take(i + 1).drop_last() =~= self.slots@.take(i as int));
            if self.slots[i].is_some() {
                n = n + 1;
            }
            i = i + 1;
        }
        assert(self.slots@.take(self.slots@.len() as int) =~= self.slots@);
        n
    }

    /// Starts a frame: takes the slot in turn, moves the turn on, and hands
    /// back what the slot still held, which the caller finishes first.
    pub fn begin_frame(&mut self) -> (r: (usize, Option<PendingFrame>))
        requires
            old(self).wf(),
        ensures
            final(self).wf(),
            r.0 == old(self).next(),
            r.1 == old(self).slots()[r.0 as int],
            r.1 matches Some(p) ==> p.frame_id < final(self).next_frame_id(),
            final(self).slots() == old(self).slots().update(r.0 as int, None),
            final(self).next() == (old(self).next() + 1) % (old(self).slots().len() as int),
            final(self).next_frame_id() == old(self).next_frame_id(),
            final(self).last_start() == old(self).last_start(),
            final(self).last_completed() == old(self).last_completed(),
    {
        let slot = self.next_slot;
        self.next_slot = (self.next_slot + 1) % self.slots.len();
        let held = self.slots[slot];
        self.slots.set(slot, None);
        (slot, held)
    }

    /// Records the frame just submitted into `slot` (which
    /// [`FrameRing::begin_frame`] emptied): it gets the next number, its
    /// depth counts itself and the frames still in flight, and its interval
    /// is the time since the previous submission (none before the first, and
    /// none where the clock went back).
    pub fn submit(&mut self, slot: usize, encode_ns: u64, queue_ns: u64, submitted_at_ns: u64) -> (r: PendingFrame)
        requires
            old(self).wf(),
            slot < old(self).slots().len(),
            old(self).slots()[slot as int] is None,
            old(self).next_frame_id() < u64::MAX,
        ensures
            final(self).wf(),
            r.frame_id == old(self).next_frame_id(),
            r.encode_ns == encode_ns,
            r.queue_ns == queue_ns,
            r.submitted_at_ns == submitted_at_ns,
            r.frame_interval_ns == (match old(self).last_start() {
                Some(l) => if submitted_at_ns >= l { (submitted_at_ns - l) as u64 } else { 0 },
                None => 0,
            }),
            r.triple_depth == pending_count(old(self).slots()) + 1,
            r.triple_depth <= old(self).slots().len(),
            final(self).slots() == old(self).slots().update(slot as int, Some(r)),
            pending_count(final(self).slots()) == pending_count(old(self).slots()) + 1,
            final(self).next() == old(self).next(),
            final(self).next_frame_id() == old(self).next_frame_id() + 1,
            final(self).last_start() == Some(submitted_at_ns),
            final(self).last_completed() == old(self).last_completed(),
    {
        let depth = self.in_flight();
        proof {
            lemma_pending_count_below(self.slots@, slot as int);
        }
        let interval = match self.last_frame_start_ns {
            Some(l) => submitted_at_ns.saturating_sub(l),
            None => 0,
        };
        let p = PendingFrame {
            frame_id: self.frame_id,
            encode_ns,
            queue_ns,
            frame_interval_ns: interval,
            triple_depth: (depth + 1) as u8,
            submitted_at_ns,
        };
        proof {
            lemma_pending_count_put(self.slots@, slot as int, p);
        }
        self.slots.set(slot, Some(p));
        self.last_frame_start_ns = Some(submitted_at_ns);
        self.frame_id = self.frame_id + 1;
        p
    }

    /// The measurements of frame `p` once the GPU finished it, `gpu_time_ns`
    /// after its submission and after waiting `queue_wait_ns` for it, at
    /// `timestamp_ms`: the frames numbered between the last finished one and
    /// this one count as dropped, and this one becomes the last finished.
    pub fn finish(&mut self, p: PendingFrame, gpu_time_ns: u64, queue_wait_ns: u64, timestamp_ms: i64) -> (r:
        FrameMetrics)
        requires
            old(self).wf(),
            p.frame_id < old(self).next_frame_id(),
        ensures
            final(self).wf(),
            r == (FrameMetrics {
                frame_id: p.frame_id,
                cpu_encode_ns: p.encode_ns,
                queue_submit_ns: p.queue_ns,
                gpu_time_ns,
                queue_wait_ns,
                frame_interval_ns: p.frame_interval_ns,
                triple_buffer_depth: p.triple_depth,
                dropped_frames: match old(self).last_completed() {
                    Some(l) => if p.frame_id > l + 1 { (p.frame_id - l - 1) as u64 } else { 0 },
                    None => 0,
                },
                timestamp_ms,
            }),
            final(self).last_completed() == Some(p.frame_id),
            final(self).slots() == old(self).slots(),
            final(self).next() == old(self).next(),
            final(self).next_frame_id() == old(self).next_frame_id(),
            final(self).last_start() == old(self).last_start(),
    {
        let dropped = dropped_frames(self.last_completed_frame, p.frame_id);
        self.last_completed_frame = Some(p.frame_id);
        FrameMetrics {
            frame_id: p.frame_id,
            cpu_encode_ns: p.encode_ns,
            queue_submit_ns: p.queue_ns,
            gpu_time_ns,
            queue_wait_ns,
            frame_interval_ns: p.frame_interval_ns,
            triple_buffer_depth: p.triple_depth,
            dropped_frames: dropped,
            timestamp_ms,
        }
    }

    /// Empties every slot, handing back the frames they held in slot order,
    /// for the caller to finish.
    pub fn take_all(&mut self) -> (r: Vec<PendingFrame>)
        requires
            old(self).wf(),
        ensures
            final(self).wf(),
            r@ == pending_frames(old(self).slots()),
            forall|i: int| 0 <= i < r@.len() ==> (#[trigger] r@[i]).frame_id < final(self).next_frame_id(),
            final(self).slots() == Seq::new(old(self).slots().len(), |i: int| None::<PendingFrame>),
            pending_count(final(self).slots()) == 0,
            final(self).next() == old(self).next(),
            final(self).next_frame_id() == old(self).next_frame_id(),
            final(self).last_start() == old(self).last_start(),
            final(self).last_completed() == old(self).last_completed(),
    {
        let ghost orig = self.slots@;
        let mut out: Vec<PendingFrame> = Vec::new();
        let mut i: usize = 0;
        while i < self.slots.len()
            invariant
                self.wf(),
                self.slots@.len() == orig.len(),
                i <= orig.len(),
                out@ == pending_frames(orig.take(i as int)),
                forall|k: int| 0 <= k < i ==> self.slots@[k] is None,
                forall|k: int| i <= k < orig.len() ==> self.slots@[k] == orig[k],
                forall|k: int| 0 <= k < out@.len() ==> (#[trigger] out@[k]).frame_id < self.frame_id,
                self.next_slot == old(self).next_slot,
                self.frame_id == old(self).frame_id,
                self.last_frame_start_ns == old(self).last_frame_start_ns,
                self.last_completed_frame == old(self).last_completed_frame,
            decreases orig.len() - i,
        {
            assert(orig.take(i + 1).drop_last() =~= orig.take(i as int));
            let held = self.slots[i];
            if let Some(p) = held {
                out.push(p);
            }
            self.slots.set(i, None);
            i = i + 1;
        }
        assert(orig.take(orig.len() as int) =~= orig);
        assert(self.slots@ =~= Seq::new(orig.len(), |i: int| None::<PendingFrame>));
        proof {
            lemma_no_pending(self.slots@);
        }
        out
    }
}

proof fn lemma_no_pending(s: Seq<Option<PendingFrame>>)
    requires
        forall|i: int| 0 <= i < s.len() ==> s[i] is None,
    ensures
        pending_count(s) == 0,
    decreases s.len(),
{
    if s.len() > 0 {
        lemma_no_pending(s.drop_last());
    }
}

} // verus!

//! The filter stage: which captured frames go on to be encoded. A frame
//! that has changed against the last changed one is kept, and so are the
//! next few unchanged ones, so that a recording does not break off the
//! moment motion stops.

use crate::helper::{differs, is_different};
use vstd::prelude::*;

verus! {

/// What the filter stage decides of a frame.
#[derive(Clone, Copy, Debug, PartialEq, Eq, Structural)]
pub enum Verdict {
    /// The frame goes on to the encode stage.
    Accept,
    /// The frame is dropped.
    Reject,
}

/// The filter stage's state as plain values.
pub struct FilterView {
    /// How many unchanged frames are kept after a changed one.
    pub resilience: nat,
    /// How many unchanged frames may still be kept.
    pub resilient: nat,
    /// The last changed frame, against which the next is compared; empty
    /// until a first frame has come.
    pub last_saved: Seq<u8>,
    /// How many frames were accepted.
    pub forwarded: nat,
    /// How many frames were rejected.
    pub skipped: nat,
}

impl FilterView {
    /// The state before any frame.
    pub open spec fn initial(resilience: nat) -> FilterView {
        FilterView {
            resilience,
            resilient: resilience,
            last_saved: Seq::<u8>::empty(),
            forwarded: 0,
            skipped: 0,
        }
    }

    /// No more hold-over is left than the stage was made with.
    pub open spec fn valid(self) -> bool {
        self.resilient <= self.resilience
    }

    /// How many frames the stage has decided.
    pub open spec fn evaluated(self) -> nat {
        self.forwarded + self.skipped
    }

    /// The verdict on `frame` when up to `acceptable` differing bytes are
    /// tolerated.
    pub open spec fn verdict(self, frame: Seq<u8>, acceptable: int) -> Verdict {
        if differs(frame, self.last_saved, acceptable) || self.resilient > 0 {
            Verdict::Accept
        } else {
            Verdict::Reject
        }
    }

    /// The state after `frame` was decided. A changed frame becomes the
    /// baseline and restores the hold-over; an unchanged one uses up one
    /// frame of hold-over and leaves the baseline alone.
    pub open spec fn after(self, frame: Seq<u8>, acceptable: int) -> FilterView {
        if differs(frame, self.last_saved, acceptable) {
            FilterView {
                resilient: self.resilience,
                last_saved: frame,
                forwarded: self.forwarded + 1,
                ..self
            }
        } else if self.resilient > 0 {
            FilterView {
                resilient: (self.resilient - 1) as nat,
                forwarded: self.forwarded + 1,
                ..self
            }
        } else {
            FilterView { skipped: self.skipped + 1, ..self }
        }
    }
}

/// A frame together with the number of differing bytes tolerated of it.
pub struct Candidate {
    pub frame: Seq<u8>,
    pub acceptable: int,
}

impl FilterView {
    /// The state after the first `n` of `candidates` were decided in order.
    pub open spec fn after_all(self, candidates: Seq<Candidate>, n: int) -> FilterView
        decreases n,
    {
        if n <= 0 {
            self
        } else {
            self.after_all(candidates, n - 1).after(
                candidates[n - 1].frame,
                candidates[n - 1].acceptable,
            )
        }
    }

    /// The verdict on the candidate numbered `i`, the ones before it having
    /// been decided in order.
    pub open spec fn verdict_at(self, candidates: Seq<Candidate>, i: int) -> Verdict {
        self.after_all(candidates, i).verdict(candidates[i].frame, candidates[i].acceptable)
    }

    /// How many of the first `n` of `candidates` are accepted.
    pub open spec fn accepted_among(self, candidates: Seq<Candidate>, n: int) -> nat
        decreases n,
    {
        if n <= 0 {
            0
        } else {
            self.accepted_among(candidates, n - 1) + if self.verdict_at(candidates, n - 1)
                == Verdict::Accept {
                1nat
            } else {
                0nat
            }
        }
    }
}

/// Deciding a frame leaves no more hold-over than the stage was made with.
pub proof fn lemma_after_keeps_valid(v: FilterView, frame: Seq<u8>, acceptable: int)
    requires
        v.valid(),
    ensures
        v.after(frame, acceptable).valid(),
        v.after(frame, acceptable).resilience == v.resilience,
{
}

/// Each frame decided is counted once: as forwarded where it was accepted,
/// as skipped where it was rejected. So after any run of frames the two
/// counts have grown, together, by the number of frames.
pub proof fn lemma_every_frame_is_counted(v: FilterView, candidates: Seq<Candidate>, n: int)
    requires
        0 <= n <= candidates.len(),
    ensures
        v.after_all(candidates, n).forwarded == v.forwarded + v.accepted_among(candidates, n),
        v.after_all(candidates, n).skipped == v.skipped + n - v.accepted_among(candidates, n),
        v.after_all(candidates, n).evaluated() == v.evaluated() + n,
        v.accepted_among(candidates, n) <= n,
    decreases n,
{
    if n > 0 {
        lemma_every_frame_is_counted(v, candidates, n - 1);
    }
}

/// A changed frame is accepted, becomes the baseline and restores the whole
/// hold-over.
pub proof fn lemma_changed_frame_restores_hold_over(v: FilterView, frame: Seq<u8>, acceptable: int)
    requires
        differs(frame, v.last_saved, acceptable),
    ensures
        v.verdict(frame, acceptable) == Verdict::Accept,
        v.after(frame, acceptable).last_saved == frame,
        v.after(frame, acceptable).resilient == v.resilience,
{
}

/// With the whole hold-over left, the next `resilience` frames that have not
/// changed against the baseline are accepted and the one after them is
/// rejected; none of them replaces the baseline.
pub proof fn lemma_hold_over(v: FilterView, candidates: Seq<Candidate>)
    requires
        v.resilient == v.resilience,
        candidates.len() > v.resilience,
        forall|i: int|
            0 <= i <= v.resilience ==> !differs(
                (#[trigger] candidates[i]).frame,
                v.last_saved,
                candidates[i].acceptable,
            ),
    ensures
        forall|i: int| 0 <= i < v.resilience ==> v.verdict_at(candidates, i) == Verdict::Accept,
        v.verdict_at(candidates, v.resilience as int) == Verdict::Reject,
        forall|i: int|
            0 <= i <= v.resilience + 1 ==> (#[trigger] v.after_all(candidates, i)).last_saved
                == v.last_saved,
{
    assert forall|i: int| 0 <= i < v.resilience implies v.verdict_at(candidates, i)
        == Verdict::Accept by {
        lemma_unchanged_run(v, candidates, i);
    }
    lemma_unchanged_run(v, candidates, v.resilience as int);
    assert forall|i: int| 0 <= i <= v.resilience + 1 implies (#[trigger] v.after_all(
        candidates,
        i,
    )).last_saved == v.last_saved by {
        if i <= v.resilience {
            lemma_unchanged_run(v, candidates, i);
        } else {
            lemma_unchanged_run(v, candidates, i - 1);
        }
    }
}

/// After `n` unchanged frames, `n` frames of the hold-over are used up and
/// the baseline is as it was.
proof fn lemma_unchanged_run(v: FilterView, candidates: Seq<Candidate>, n: int)
    requires
        0 <= n <= v.resilient,
        n <= candidates.len(),
        forall|i: int|
            0 <= i < n ==> !differs(
                (#[trigger] candidates[i]).frame,
                v.last_saved,
                candidates[i].acceptable,
            ),
    ensures
        v.after_all(candidates, n).last_saved == v.last_saved,
        v.after_all(candidates, n).resilient == v.resilient - n,
        v.after_all(candidates, n).resilience == v.resilience,
    decreases n,
{
    if n > 0 {
        lemma_unchanged_run(v, candidates, n - 1);
        let c = candidates[n - 1];
        assert(!differs(c.frame, v.last_saved, c.acceptable));
    }
}

/// The filter stage.
pub struct Filter {
    resilience: u32,
    resilient: u32,
    last_saved: Vec<u8>,
    forwarded: u64,
    skipped: u64,
}

impl View for Filter {
    type V = FilterView;

    closed spec fn view(&self) -> FilterView {
        FilterView {
            resilience: self.resilience as nat,
            resilient: self.resilient as nat,
            last_saved: self.last_saved@,
            forwarded: self.forwarded as nat,
            skipped: self.skipped as nat,
        }
    }
}

impl Filter {
    /// A filter stage that keeps `resilience` unchanged frames after each
    /// changed one, with no baseline yet.
    pub fn new(resilience: u32) -> (filter: Filter)
        ensures
            filter@ == FilterView::initial(resilience as nat),
    {
        Filter { resilience, resilient: resilience, last_saved: Vec::new(), forwarded: 0, skipped: 0 }
    }

    /// Whether one more frame can be counted.
    pub fn can_check(&self) -> (room: bool)
        ensures
            room == (self@.evaluated() < u64::MAX),
    {
        self.skipped < u64::MAX && self.forwarded < u64::MAX - self.skipped
    }

    /// Decides `frame`, of which up to `acceptable` bytes may differ from the
    /// baseline before it counts as changed.
    pub fn check(&mut self, frame: &[u8], acceptable: usize) -> (verdict: Verdict)
        requires
            old(self)@.evaluated() < u64::MAX,
        ensures
            verdict == old(self)@.verdict(frame@, acceptable as int),
            final(self)@ == old(self)@.after(frame@, acceptable as int),
    {
        if is_different(frame, &self.last_saved, acceptable) {
            self.resilient = self.resilience;
            self.last_saved.clear();
            self.last_saved.extend_from_slice(frame);
            assert(self.last_saved@ =~= frame@);
            self.forwarded += 1;
            Verdict::Accept
        } else if self.resilient > 0 {
            self.resilient -= 1;
            self.forwarded += 1;
            Verdict::Accept
        } else {
            self.skipped += 1;
            Verdict::Reject
        }
    }

    /// How many unchanged frames are kept after a changed one.
    pub fn resilience(&self) -> (n: u32)
        ensures
            n == self@.resilience,
    {
        self.resilience
    }

    /// How many unchanged frames may still be kept.
    pub fn resilient(&self) -> (n: u32)
        ensures
            n == self@.resilient,
    {
        self.resilient
    }

    /// The last changed frame.
    pub fn last_saved(&self) -> (frame: &Vec<u8>)
        ensures
            frame@ == self@.last_saved,
    {
        &self.last_saved
    }

    /// How many frames were accepted.
    pub fn forwarded(&self) -> (n: u64)
        ensures
            n == self@.forwarded,
    {
        self.forwarded
    }

    /// How many frames were rejected.
    pub fn skipped(&self) -> (n: u64)
        ensures
            n == self@.skipped,
    {
        self.skipped
    }
}

} // verus!

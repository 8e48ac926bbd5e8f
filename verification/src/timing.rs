//! The session's clock: the cadence at which frames are pulled, and the
//! presentation time of each saved frame, which goes by the number of frames
//! saved before it and not by the time at which it was pulled.

use vstd::prelude::*;

verus! {

pub const NANOS_PER_SECOND: u64 = 1_000_000_000;

pub const NANOS_PER_MILLI: u64 = 1_000_000;

/// The unit in which the encoder is given its times, and gives them back, is
/// this fraction of a second: a millisecond.
pub const TIMEBASE_NUMERATOR: i32 = 1;

pub const TIMEBASE_DENOMINATOR: i32 = 1000;

/// The time between two pulls, in nanoseconds, at `frames_ps` frames per
/// second.
pub open spec fn nanos_time_base(frames_ps: int) -> int {
    1_000_000_000int / frames_ps
}

/// By how many pull intervals the presentation time moves on with each
/// saved frame: a tenth of `frames_ps`, and at least one.
pub open spec fn base_multiplier(frames_ps: int) -> int {
    if frames_ps / 10 > 1 {
        frames_ps / 10
    } else {
        1
    }
}

/// The presentation time, in nanoseconds, of the frame before which
/// `frame_index` frames were saved.
pub open spec fn frame_nanos(frames_ps: int, frame_index: int) -> int {
    base_multiplier(frames_ps) * nanos_time_base(frames_ps) * frame_index
}

/// The presentation time of that frame in whole milliseconds.
pub open spec fn frame_millis(frames_ps: int, frame_index: int) -> int {
    frame_nanos(frames_ps, frame_index) / 1_000_000
}

/// The presentation time moves on by no more than a second with each frame.
pub proof fn lemma_frame_step_bound(frames_ps: int)
    requires
        0 < frames_ps,
    ensures
        0 <= nanos_time_base(frames_ps) <= 1_000_000_000,
        1 <= base_multiplier(frames_ps),
        0 <= base_multiplier(frames_ps) * nanos_time_base(frames_ps) <= 1_000_000_000,
{
    let t = nanos_time_base(frames_ps);
    let m = base_multiplier(frames_ps);
    assert(0 <= t <= 1_000_000_000 && t * frames_ps <= 1_000_000_000) by (nonlinear_arith)
        requires
            t == 1_000_000_000int / frames_ps,
            0 < frames_ps,
    ;
    if frames_ps / 10 > 1 {
        assert(m * 10 <= frames_ps) by (nonlinear_arith)
            requires
                m == frames_ps / 10,
        ;
        assert(0 <= m * t <= 1_000_000_000) by (nonlinear_arith)
            requires
                m * 10 <= frames_ps,
                t * frames_ps <= 1_000_000_000,
                1 <= m,
                0 <= t,
        ;
    } else {
        assert(m * t == t) by (nonlinear_arith)
            requires
                m == 1,
        ;
    }
}

/// Presentation times never go back: a frame saved later is presented no
/// earlier.
pub proof fn lemma_frame_millis_monotonic(frames_ps: int, earlier: int, later: int)
    requires
        0 < frames_ps,
        0 <= earlier <= later,
    ensures
        0 <= frame_millis(frames_ps, earlier) <= frame_millis(frames_ps, later),
        frame_nanos(frames_ps, earlier) <= frame_nanos(frames_ps, later),
        frame_nanos(frames_ps, later) <= 1_000_000_000 * later,
{
    lemma_frame_step_bound(frames_ps);
    let step = base_multiplier(frames_ps) * nanos_time_base(frames_ps);
    assert(0 <= step * earlier <= step * later <= 1_000_000_000 * later) by (nonlinear_arith)
        requires
            0 <= step <= 1_000_000_000,
            0 <= earlier <= later,
    ;
    vstd::arithmetic::div_mod::lemma_div_is_ordered(step * earlier, step * later, 1_000_000);
    vstd::arithmetic::div_mod::lemma_div_is_ordered(0, step * earlier, 1_000_000);
}

/// The clock of a session that pulls a given number of frames per second.
pub struct Timing {
    frames_ps: u64,
    nanos_time_base: u64,
    base_multiplier: u64,
}

impl Timing {
    #[verifier::type_invariant]
    spec fn consistent(self) -> bool {
        &&& self.frames_ps > 0
        &&& self.nanos_time_base == nanos_time_base(self.frames_ps as int)
        &&& self.base_multiplier == base_multiplier(self.frames_ps as int)
    }

    /// The frames per second that the clock was made for.
    pub closed spec fn frames_ps(self) -> int {
        self.frames_ps as int
    }

    /// The clock for `frames_ps` frames per second; none for a rate of zero,
    /// which has no cadence.
    pub fn new(frames_ps: u64) -> (timing: Option<Timing>)
        ensures
            frames_ps == 0 <==> timing.is_none(),
            timing matches Some(t) ==> t.frames_ps() == frames_ps,
    {
        if frames_ps == 0 {
            return None;
        }
        let tenth: u64 = frames_ps / 10;
        let base_multiplier: u64 = if tenth > 1 {
            tenth
        } else {
            1
        };
        Some(Timing { frames_ps, nanos_time_base: NANOS_PER_SECOND / frames_ps, base_multiplier })
    }

    /// The time between two pulls, in nanoseconds.
    pub fn capture_interval(&self) -> (nanos: u64)
        ensures
            nanos == nanos_time_base(self.frames_ps()),
            self.frames_ps() > 0,
    {
        proof {
            use_type_invariant(self);
        }
        self.nanos_time_base
    }

    /// By how many pull intervals the presentation time moves on with each
    /// saved frame.
    pub fn multiplier(&self) -> (factor: u64)
        ensures
            factor == base_multiplier(self.frames_ps()),
            self.frames_ps() > 0,
    {
        proof {
            use_type_invariant(self);
        }
        self.base_multiplier
    }

    /// The presentation time, in whole milliseconds, of the frame before
    /// which `frame_index` frames were saved.
    pub fn frame_time(&self, frame_index: u64) -> (millis: u64)
        requires
            frame_nanos(self.frames_ps(), frame_index as int) <= u64::MAX,
        ensures
            millis == frame_millis(self.frames_ps(), frame_index as int),
            millis <= i64::MAX,
    {
        proof {
            use_type_invariant(self);
            lemma_frame_step_bound(self.frames_ps());
        }
        let step: u64 = self.base_multiplier * self.nanos_time_base;
        let nanos: u64 = step * frame_index;
        nanos / NANOS_PER_MILLI
    }

    /// Whether the presentation time of the frame before which `frame_index`
    /// frames were saved can be told: whether it fits, in nanoseconds, in 64
    /// bits.
    pub fn has_frame_time(&self, frame_index: u64) -> (fits: bool)
        ensures
            fits == (frame_nanos(self.frames_ps(), frame_index as int) <= u64::MAX),
    {
        proof {
            use_type_invariant(self);
            lemma_frame_step_bound(self.frames_ps());
        }
        let step: u64 = self.base_multiplier * self.nanos_time_base;
        match step.checked_mul(frame_index) {
            Some(_) => true,
            None => false,
        }
    }
}

/// The time that a packet is stored under, in nanoseconds, from the time
/// `pts` that the encoder gave it, in milliseconds.
pub open spec fn packet_nanos(pts: int) -> int {
    pts * 1_000_000
}

/// Whether the time `pts` of a packet can be stored: whether it is not
/// negative and fits, in nanoseconds, in 64 bits.
pub fn has_packet_time(pts: i64) -> (fits: bool)
    ensures
        fits == (0 <= pts && packet_nanos(pts as int) <= u64::MAX),
{
    0 <= pts && pts as u64 <= u64::MAX / NANOS_PER_MILLI
}

/// The time that a packet is stored under, in nanoseconds.
pub fn packet_time(pts: i64) -> (nanos: u64)
    requires
        0 <= pts,
        packet_nanos(pts as int) <= u64::MAX,
    ensures
        nanos == packet_nanos(pts as int),
{
    pts as u64 * NANOS_PER_MILLI
}

} // verus!

//! The capture stage: when a frame is pulled from the screen, and how long
//! the stage rests between two pulls.

use vstd::prelude::*;

verus! {

/// For how many milliseconds the capture stage rests before it looks at the
/// pause flag again.
pub const PAUSE_REST_MILLIS: u64 = 1;

/// What the capture stage does at the start of a cycle.
#[derive(Clone, Copy, Debug, PartialEq, Eq, Structural)]
pub enum CaptureStep {
    /// The stage ends, and the stages after it empty their pools.
    Finish,
    /// The session is paused: rest a moment, and pull nothing.
    Idle,
    /// Pull a frame.
    Grab,
}

/// Whether a session that may last `duration` seconds, if it is limited at
/// all, has lasted longer once `elapsed_nanos` nanoseconds have passed.
pub open spec fn is_over(duration: Option<u64>, elapsed_nanos: int) -> bool {
    match duration {
        Some(seconds) => elapsed_nanos > seconds * 1_000_000_000,
        None => false,
    }
}

/// What the capture stage does at the start of a cycle: it ends once a stop
/// was requested, rests while the session is paused, ends when the session
/// has lasted longer than it may, and pulls a frame otherwise.
pub open spec fn next_step(
    stop: bool,
    pause: bool,
    duration: Option<u64>,
    elapsed_nanos: int,
) -> CaptureStep {
    if stop {
        CaptureStep::Finish
    } else if pause {
        CaptureStep::Idle
    } else if is_over(duration, elapsed_nanos) {
        CaptureStep::Finish
    } else {
        CaptureStep::Grab
    }
}

/// Decides the start of a cycle from the two flags, the seconds that the
/// session may last and the nanoseconds that it has lasted.
pub fn capture_step(stop: bool, pause: bool, duration: Option<u64>, elapsed_nanos: u128) -> (step:
    CaptureStep)
    ensures
        step == next_step(stop, pause, duration, elapsed_nanos as int),
{
    if stop {
        return CaptureStep::Finish;
    }
    if pause {
        return CaptureStep::Idle;
    }
    match duration {
        Some(seconds) => {
            let limit: u128 = seconds as u128 * 1_000_000_000u128;
            if elapsed_nanos > limit {
                CaptureStep::Finish
            } else {
                CaptureStep::Grab
            }
        },
        None => CaptureStep::Grab,
    }
}

/// How a pull ended.
#[derive(Clone, Copy, Debug, PartialEq, Eq, Structural)]
pub enum Grabbed {
    /// A frame came.
    Frame,
    /// No frame was ready yet.
    NotReady,
    /// The screen could not be read.
    Failed,
}

/// What the capture stage does after a pull.
#[derive(Clone, Copy, Debug, PartialEq, Eq, Structural)]
pub enum CaptureRest {
    /// Hand the frame on, then rest for this many nanoseconds.
    Rest(u64),
    /// Go on to the next cycle at once.
    Retry,
    /// The stage ends.
    Abort,
}

/// What is left of a cycle of `interval_nanos` nanoseconds once
/// `spent_nanos` of them are spent: nothing, where more are spent than the
/// cycle has.
pub open spec fn remainder(interval_nanos: int, spent_nanos: int) -> int {
    if spent_nanos < interval_nanos {
        interval_nanos - spent_nanos
    } else {
        0
    }
}

/// What the capture stage does after a pull: after a frame it rests for what
/// is left of the cycle, after a pull that found no frame ready it goes on at
/// once, and after a failure it ends.
pub open spec fn rest_after(grabbed: Grabbed, interval_nanos: int, spent_nanos: int) -> CaptureRest {
    match grabbed {
        Grabbed::Frame => CaptureRest::Rest(remainder(interval_nanos, spent_nanos) as u64),
        Grabbed::NotReady => CaptureRest::Retry,
        Grabbed::Failed => CaptureRest::Abort,
    }
}

/// Decides the end of a cycle from how the pull ended, the nanoseconds that
/// a cycle lasts and the nanoseconds that this one has taken so far.
pub fn capture_rest(grabbed: Grabbed, interval_nanos: u64, spent_nanos: u128) -> (rest: CaptureRest)
    ensures
        rest == rest_after(grabbed, interval_nanos as int, spent_nanos as int),
{
    match grabbed {
        Grabbed::Frame => {
            if spent_nanos < interval_nanos as u128 {
                let spent: u64 = spent_nanos as u64;
                CaptureRest::Rest(interval_nanos - spent)
            } else {
                CaptureRest::Rest(0)
            }
        },
        Grabbed::NotReady => CaptureRest::Retry,
        Grabbed::Failed => CaptureRest::Abort,
    }
}

/// While the session is paused no frame is pulled.
pub proof fn lemma_paused_pulls_nothing(stop: bool, duration: Option<u64>, elapsed_nanos: int)
    ensures
        next_step(stop, true, duration, elapsed_nanos) != CaptureStep::Grab,
{
}

/// After a stop was requested no frame is pulled, and the stage ends.
pub proof fn lemma_stopped_finishes(pause: bool, duration: Option<u64>, elapsed_nanos: int)
    ensures
        next_step(true, pause, duration, elapsed_nanos) == CaptureStep::Finish,
{
}

/// The stage never rests longer than a cycle lasts.
pub proof fn lemma_rest_within_cycle(interval_nanos: int, spent_nanos: int)
    requires
        0 <= interval_nanos,
        0 <= spent_nanos,
    ensures
        0 <= remainder(interval_nanos, spent_nanos) <= interval_nanos,
{
}

} // verus!

//! The encode stage's own work on each accepted frame: its presentation
//! time, its planar form, and the count of frames saved.

use crate::helper::{argb_to_i420, frame_fits, lemma_planar_len, planar};
use crate::timing::{frame_millis, frame_nanos, Timing};
use vstd::prelude::*;

verus! {

/// For how many milliseconds a stage rests when its pool is empty.
pub const EMPTY_REST_MILLIS: u64 = 100;

/// The encode stage's state as plain values.
pub struct SaverView {
    /// The width of the frames in pixels.
    pub width: nat,
    /// The height of the frames in pixels.
    pub height: nat,
    /// The frames per second that the session pulls.
    pub frames_ps: int,
    /// How many frames were saved.
    pub frames_saved: nat,
    /// The planar form of the frame that was prepared last.
    pub yuv: Seq<u8>,
}

/// The encode stage's own state.
pub struct Saver {
    width: usize,
    height: usize,
    timing: Timing,
    frames_saved: u64,
    yuv: Vec<u8>,
}

impl View for Saver {
    type V = SaverView;

    closed spec fn view(&self) -> SaverView {
        SaverView {
            width: self.width as nat,
            height: self.height as nat,
            frames_ps: self.timing.frames_ps(),
            frames_saved: self.frames_saved as nat,
            yuv: self.yuv@,
        }
    }
}

impl Saver {
    /// The state of an encode stage that has saved nothing yet, for frames
    /// of `width` by `height` pixels.
    pub fn new(width: usize, height: usize, timing: Timing) -> (saver: Saver)
        ensures
            saver@ == (SaverView {
                width: width as nat,
                height: height as nat,
                frames_ps: timing.frames_ps(),
                frames_saved: 0,
                yuv: Seq::<u8>::empty(),
            }),
    {
        Saver { width, height, timing, frames_saved: 0, yuv: Vec::new() }
    }

    /// Whether `frame` can be prepared: whether it holds the stage's rows of
    /// whole pixels, and its presentation time can be told.
    pub fn can_prepare(&self, frame: &[u8]) -> (ready: bool)
        ensures
            ready == (frame_fits(self@.width as int, self@.height as int, frame@.len() as int)
                && frame_nanos(self@.frames_ps, self@.frames_saved as int) <= u64::MAX),
    {
        if self.height == 0 {
            return false;
        }
        let stride: usize = frame.len() / self.height;
        if self.width > stride / 4 {
            return false;
        }
        self.timing.has_frame_time(self.frames_saved)
    }

    /// Prepares `frame` for the encoder: the planar form of the frame
    /// replaces the one held, and the result is the frame's presentation
    /// time in milliseconds, which goes by the number of frames saved so far.
    pub fn prepare(&mut self, frame: &[u8]) -> (millis: u64)
        requires
            frame_fits(old(self)@.width as int, old(self)@.height as int, frame@.len() as int),
            frame_nanos(old(self)@.frames_ps, old(self)@.frames_saved as int) <= u64::MAX,
        ensures
            millis == frame_millis(old(self)@.frames_ps, old(self)@.frames_saved as int),
            millis <= i64::MAX,
            final(self)@ == (SaverView {
                yuv: planar(old(self)@.width as int, old(self)@.height as int, frame@),
                ..old(self)@
            }),
            2 * final(self)@.yuv.len() >= 3 * (old(self)@.width * old(self)@.height),
    {
        let millis = self.timing.frame_time(self.frames_saved);
        argb_to_i420(self.width, self.height, frame, &mut self.yuv);
        proof {
            lemma_planar_len(self.width as int, self.height as int, frame@);
        }
        millis
    }

    /// The planar form of the frame that was prepared last.
    pub fn yuv(&self) -> (samples: &Vec<u8>)
        ensures
            samples@ == self@.yuv,
    {
        &self.yuv
    }

    /// How many frames were saved.
    pub fn frames_saved(&self) -> (n: u64)
        ensures
            n == self@.frames_saved,
    {
        self.frames_saved
    }

    /// Whether one more frame can be counted.
    pub fn can_commit(&self) -> (room: bool)
        ensures
            room == (self@.frames_saved < u64::MAX),
    {
        self.frames_saved < u64::MAX
    }

    /// Counts the prepared frame as saved, once the encoder has taken it.
    pub fn commit(&mut self)
        requires
            old(self)@.frames_saved < u64::MAX,
        ensures
            final(self)@ == (SaverView {
                frames_saved: old(self)@.frames_saved + 1,
                ..old(self)@
            }),
    {
        self.frames_saved += 1;
    }
}

} // verus!

//! Frame-rate counter: counts frames and, once per window of frames, sets
//! the rate from the time that the window took.

use std::time::{Duration, Instant};
use vstd::prelude::*;

verus! {

/// A point of the monotonic clock. Opaque: it is read and handed on only.
#[verifier::external_type_specification]
#[verifier::external_body]
pub struct ExInstant(Instant);

/// Nanoseconds in a second.
pub const NANOS_PER_SECOND: u128 = 1_000_000_000;

/// The rate, in frames per second, of `frames` frames in `nanos` nanoseconds,
/// rounded to the nearest whole number (a half rounds up) and capped at
/// `u32::MAX`. No time at all gives the cap, or 0 where there was no frame.
pub open spec fn spec_frames_per_second(frames: u32, nanos: u128) -> u32 {
    if nanos == 0 {
        if frames == 0 {
            0
        } else {
            u32::MAX
        }
    } else {
        let rounded = (2 * frames * NANOS_PER_SECOND + nanos) / (2 * nanos);
        if rounded > u32::MAX {
            u32::MAX
        } else {
            rounded as u32
        }
    }
}

/// Computes the rate of `frames` frames in `nanos` nanoseconds.
pub fn frames_per_second(frames: u32, nanos: u128) -> (rate: u32)
    ensures
        rate == spec_frames_per_second(frames, nanos),
{
    if nanos == 0 {
        return if frames == 0 {
            0
        } else {
            u32::MAX
        };
    }
    let twice: u128 = 2 * (frames as u128) * NANOS_PER_SECOND;
    if nanos > twice {
        assert((twice + nanos) / (2 * nanos) == 0) by (nonlinear_arith)
            requires
                0 <= twice < nanos,
        ;
        return 0;
    }
    let rounded: u128 = (twice + nanos) / (2 * nanos);
    if rounded > u32::MAX as u128 {
        u32::MAX
    } else {
        rounded as u32
    }
}

/// Reads the monotonic clock, by `Instant::now`. Trusted; nothing is claimed
/// of the value, which differs from call to call.
#[verifier::external_body]
fn clock_now() -> Instant {
    Instant::now()
}

/// The time from `earlier` to `later`, by `Instant::duration_since`, which
/// gives zero where `earlier` is the later of the two. Trusted; nothing is
/// claimed of the value.
#[verifier::external_body]
fn time_between(later: &Instant, earlier: &Instant) -> Duration {
    later.duration_since(*earlier)
}

/// The whole nanoseconds of a duration, by `Duration::as_nanos`. Trusted;
/// nothing is claimed of the value.
#[verifier::external_body]
fn whole_nanos(d: &Duration) -> u128 {
    d.as_nanos()
}

/// Counts frames in windows of `target_frame_count` frames and reports the
/// rate measured over the last complete window.
pub struct FpsCounter {
    last_updated_time: Instant,
    last_frame_time: Instant,
    frame_count: u32,
    current_fps: u32,
    target_frame_count: u32,
}

impl FpsCounter {
    /// The rate measured over the last complete window; 0 before the first.
    pub closed spec fn spec_fps(&self) -> u32 {
        self.current_fps
    }

    /// The frames counted in the window in progress.
    pub closed spec fn spec_frame_count(&self) -> u32 {
        self.frame_count
    }

    /// The length of a window, in frames.
    pub closed spec fn spec_target(&self) -> u32 {
        self.target_frame_count
    }

    /// The window in progress is not full.
    pub open spec fn wf(&self) -> bool {
        self.spec_frame_count() == 0 || self.spec_frame_count() < self.spec_target()
    }

    /// The frame that is counted now completes its window.
    pub open spec fn closes_window(&self) -> bool {
        self.spec_frame_count() + 1 >= self.spec_target()
    }

    /// A counter with windows of `preferred_fps` frames, starting now.
    pub fn new(preferred_fps: u32) -> (counter: Self)
        ensures
            counter.wf(),
            counter.spec_fps() == 0,
            counter.spec_frame_count() == 0,
            counter.spec_target() == preferred_fps,
    {
        let now = clock_now();
        FpsCounter {
            last_updated_time: now,
            last_frame_time: now,
            frame_count: 0,
            current_fps: 0,
            target_frame_count: preferred_fps,
        }
    }

    /// Counts one frame. `window_nanos` is the time since the window in
    /// progress began. Where the frame completes the window, the rate becomes
    /// that of the window and a new window begins; the result says whether it
    /// did. The clock is not read and the window's start is left to the
    /// caller: `tick` does both.
    pub fn count_frame(&mut self, window_nanos: u128) -> (closed: bool)
        requires
            old(self).wf(),
        ensures
            final(self).wf(),
            closed == old(self).closes_window(),
            final(self).spec_target() == old(self).spec_target(),
            closed ==> final(self).spec_frame_count() == 0 && final(self).spec_fps()
                == spec_frames_per_second(old(self).spec_target(), window_nanos),
            !closed ==> final(self).spec_frame_count() == old(self).spec_frame_count() + 1
                && final(self).spec_fps() == old(self).spec_fps(),
    {
        if self.frame_count >= self.target_frame_count || self.frame_count + 1
            >= self.target_frame_count {
            self.current_fps = frames_per_second(self.target_frame_count, window_nanos);
            self.frame_count = 0;
            true
        } else {
            self.frame_count = self.frame_count + 1;
            false
        }
    }

    /// Counts one frame at the present time and returns the time since the
    /// frame before. The clock decides the new rate; whatever it reads, the
    /// frame is counted as `count_frame` counts it, for some length of the
    /// window.
    pub fn tick(&mut self) -> (delta_time: Duration)
        requires
            old(self).wf(),
        ensures
            final(self).wf(),
            final(self).spec_target() == old(self).spec_target(),
            old(self).closes_window() ==> final(self).spec_frame_count() == 0 && exists|
                nanos: u128,
            |
                final(self).spec_fps() == spec_frames_per_second(old(self).spec_target(), nanos),
            !old(self).closes_window() ==> final(self).spec_frame_count() == old(
                self,
            ).spec_frame_count() + 1 && final(self).spec_fps() == old(self).spec_fps(),
    {
        let now = clock_now();
        let delta_time = time_between(&now, &self.last_frame_time);
        let window = time_between(&now, &self.last_updated_time);
        let window_nanos: u128 = whole_nanos(&window);
        self.last_frame_time = now;
        let closed: bool = self.count_frame(window_nanos);
        if closed {
            self.last_updated_time = now;
        }
        delta_time
    }

    /// The rate measured over the last complete window; 0 before the first.
    pub fn fps(&self) -> (rate: u32)
        ensures
            rate == self.spec_fps(),
    {
        self.current_fps
    }
}

} // verus!

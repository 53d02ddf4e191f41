//! The fixed time step.

use vstd::prelude::*;

verus! {

/// Counts the frames of a run at a fixed number of frames per second.
pub struct Time {
    frame_count: u32,
    fps: u32,
}

impl Time {
    /// The number of ticks per second; never zero.
    pub closed spec fn ticks_per_second(&self) -> u32 {
        self.fps
    }

    /// The number of frames since the last restart. It stops at `u32::MAX`.
    pub closed spec fn frames(&self) -> u32 {
        self.frame_count
    }

    #[verifier::type_invariant]
    spec fn positive_rate(&self) -> bool {
        self.fps > 0
    }

    /// A timer at `fps` frames per second that has seen no frame yet.
    pub fn new(fps: u32) -> (t: Time)
        requires
            fps > 0,
        ensures
            t.ticks_per_second() == fps,
            t.frames() == 0,
    {
        Time { frame_count: 0, fps }
    }

    /// Restarts the timer, as after loading a new scene.
    pub fn restart(&mut self)
        ensures
            final(self).ticks_per_second() == old(self).ticks_per_second(),
            final(self).frames() == 0,
    {
        proof {
            use_type_invariant(&*self);
        }
        self.frame_count = 0;
    }

    /// The number of ticks per second.
    pub fn fps(&self) -> (r: u32)
        ensures
            r == self.ticks_per_second(),
            r > 0,
    {
        proof {
            use_type_invariant(self);
        }
        self.fps
    }

    /// The number of frames since the last restart.
    pub fn frame_count(&self) -> (r: u32)
        ensures
            r == self.frames(),
    {
        self.frame_count
    }

    /// The duration of one tick in thousandths of a second, rounded down.
    pub fn fixed_seconds(&self) -> (r: u32)
        ensures
            r == 1000int / (self.ticks_per_second() as int),
    {
        proof {
            use_type_invariant(self);
        }
        1000 / self.fps
    }

    /// Counts one more frame and returns the time, in microseconds since the
    /// last restart, at which that frame is due to end.
    pub fn frame(&mut self) -> (due: u64)
        ensures
            final(self).ticks_per_second() == old(self).ticks_per_second(),
            final(self).frames() == if old(self).frames() < u32::MAX {
                (old(self).frames() + 1) as u32
            } else {
                u32::MAX
            },
            due == (1_000_000int / (old(self).ticks_per_second() as int)) * final(self).frames(),
    {
        proof {
            use_type_invariant(&*self);
        }
        if self.frame_count < u32::MAX {
            self.frame_count += 1;
        }
        let step: u64 = 1_000_000 / (self.fps as u64);
        assert(step * self.frame_count <= 1_000_000 * 0xffff_ffff) by (nonlinear_arith)
            requires
                0 <= step <= 1_000_000,
                0 <= self.frame_count <= 0xffff_ffff,
        ;
        step * (self.frame_count as u64)
    }
}

} // verus!

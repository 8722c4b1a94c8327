//! Frames-per-second measurement over windows of about a second.

use vstd::prelude::*;

verus! {

/// Counts frames since the start of the current window.
pub struct FPSCounter {
    window_start: u64,
    frame_count: u32,
}

impl FPSCounter {
    pub closed spec fn window_start_spec(&self) -> u64 {
        self.window_start
    }

    pub closed spec fn frame_count_spec(&self) -> u32 {
        self.frame_count
    }

    /// A counter whose first window starts at `now` (microseconds).
    pub fn new(now: u64) -> (r: Self)
        ensures
            r.window_start_spec() == now,
            r.frame_count_spec() == 0,
    {
        FPSCounter { window_start: now, frame_count: 0 }
    }

    /// Counts a frame drawn at `now`. Once a second or more has passed since
    /// the window started, returns the frames per second over the window,
    /// rounded down, and starts a new window at `now`.
    pub fn tick(&mut self, now: u64) -> (r: Option<u64>)
        ensures
            ({
                let frames = if old(self).frame_count_spec() < u32::MAX {
                    old(self).frame_count_spec() + 1
                } else {
                    old(self).frame_count_spec() as int
                };
                let elapsed = if now >= old(self).window_start_spec() {
                    now - old(self).window_start_spec()
                } else {
                    0
                };
                if elapsed >= 1000000 {
                    &&& r == Some((frames * 1000000 / elapsed) as u64)
                    &&& final(self).frame_count_spec() == 0
                    &&& final(self).window_start_spec() == now
                } else {
                    &&& r is None
                    &&& final(self).frame_count_spec() == frames
                    &&& final(self).window_start_spec() == old(self).window_start_spec()
                }
            }),
    {
        if self.frame_count < u32::MAX {
            self.frame_count = self.frame_count + 1;
        }
        let elapsed: u64 = if now >= self.window_start {
            now - self.window_start
        } else {
            0
        };
        if elapsed >= 1000000 {
            let fps = (self.frame_count as u64) * 1000000 / elapsed;
            self.frame_count = 0;
            self.window_start = now;
            Some(fps)
        } else {
            None
        }
    }
}

} // verus!

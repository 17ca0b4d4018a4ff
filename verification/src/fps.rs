use vstd::prelude::*;

verus! {

/// What the frame counter shows for a frame.
#[derive(Clone, Copy, Debug, PartialEq, Eq, Structural)]
pub enum FpsReading {
    /// First frame: no rate yet.
    Undefined,
    /// A second or more has passed: `frames` frames were drawn since the last
    /// measurement; the caller turns them into a rate and records it.
    Measure { frames: i32 },
    /// Within the current second: the last recorded rate.
    Last(i32),
}

/// Frames-per-second counter: the time of the last measurement, the frames
/// drawn since, and the last rate measured.
pub struct FpsCounter {
    prev: Option<u64>,
    counter: i32,
    last_fps: i32,
}

impl FpsCounter {
    pub closed spec fn prev(&self) -> Option<u64> {
        self.prev
    }

    pub closed spec fn counter(&self) -> int {
        self.counter as int
    }

    pub closed spec fn last_fps(&self) -> i32 {
        self.last_fps
    }

    pub fn new() -> (r: Self)
        ensures
            r.prev() is None,
            r.counter() == 0,
            r.last_fps() == 0,
    {
        FpsCounter { prev: None, counter: 0, last_fps: 0 }
    }

    /// The time of the last measurement, if any.
    pub fn prev_frame(&self) -> (r: Option<u64>)
        ensures
            r == self.prev(),
    {
        self.prev
    }

    /// Frames drawn since the last measurement.
    pub fn frames_since_measure(&self) -> (r: i32)
        ensures
            r == self.counter(),
    {
        self.counter
    }

    /// Account for a frame drawn at time `now`; `second_elapsed` tells whether
    /// a second or more separates `now` from the last measurement.
    pub fn frame(&mut self, now: u64, second_elapsed: bool) -> (r: FpsReading)
        requires
            old(self).counter() < i32::MAX,
        ensures
            final(self).last_fps() == old(self).last_fps(),
            match old(self).prev() {
                None => {
                    &&& r == FpsReading::Undefined
                    &&& final(self).prev() == Some(now)
                    &&& final(self).counter() == 1
                },
                Some(_) => if second_elapsed {
                    &&& r == (FpsReading::Measure { frames: (old(self).counter() + 1) as i32 })
                    &&& final(self).prev() == Some(now)
                    &&& final(self).counter() == 1
                } else {
                    &&& r == FpsReading::Last(old(self).last_fps())
                    &&& final(self).prev() == old(self).prev()
                    &&& final(self).counter() == old(self).counter() + 1
                },
            },
    {
        self.counter += 1;
        match self.prev {
            None => {
                self.prev = Some(now);
                self.counter = 1;
                FpsReading::Undefined
            },
            Some(_) => {
                if second_elapsed {
                    self.prev = Some(now);
                    let frames = self.counter;
                    self.counter = 1;
                    FpsReading::Measure { frames }
                } else {
                    FpsReading::Last(self.last_fps)
                }
            },
        }
    }

    /// Record the rate measured for the last second; it is shown until the
    /// next measurement.
    pub fn record_fps(&mut self, fps: i32) -> (r: i32)
        ensures
            r == fps,
            final(self).last_fps() == fps,
            final(self).prev() == old(self).prev(),
            final(self).counter() == old(self).counter(),
    {
        self.last_fps = fps;
        fps
    }
}

impl Default for FpsCounter {
    fn default() -> (r: Self)
        ensures
            r.prev() is None,
            r.counter() == 0,
            r.last_fps() == 0,
    {
        FpsCounter::new()
    }
}

} // verus!

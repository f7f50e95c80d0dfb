//! Which frame of an animation shows at a given time.
use vstd::prelude::*;

verus! {

/// A run of frames, each shown for the same time. An animation that is
/// one-off stays on its last frame; any other starts over.
pub struct Animation {
    indices: Vec<usize>,
    time_per_frame: u32,
    one_off: bool,
}

impl Animation {
    /// The frames as places in the model's atlas.
    pub closed spec fn frames(&self) -> Seq<usize> {
        self.indices@
    }

    /// The time for which each frame shows, in milliseconds.
    pub closed spec fn frame_time(&self) -> u32 {
        self.time_per_frame
    }

    /// The animation stays on its last frame.
    pub closed spec fn is_one_off(&self) -> bool {
        self.one_off
    }

    /// The frame that shows at step `step`.
    pub open spec fn frame_spec(&self, step: int) -> usize {
        if self.is_one_off() {
            if step < self.frames().len() - 1 {
                self.frames()[step]
            } else {
                self.frames()[self.frames().len() - 1]
            }
        } else {
            self.frames()[step % self.frames().len() as int]
        }
    }

    /// The step that the animation has reached after `elapsed`
    /// milliseconds, as far as it can be counted.
    pub open spec fn step_spec(&self, elapsed: u64) -> int {
        if elapsed / self.frame_time() as u64 > usize::MAX {
            usize::MAX as int
        } else {
            (elapsed / self.frame_time() as u64) as int
        }
    }

    /// The animation of the given frames.
    pub fn new(indices: Vec<usize>, time_per_frame: u32, one_off: bool) -> (animation: Animation)
        ensures
            animation.frames() == indices@,
            animation.frame_time() == time_per_frame,
            animation.is_one_off() == one_off,
    {
        Animation { indices, time_per_frame, one_off }
    }

    /// The number of frames.
    pub fn steps(&self) -> (count: usize)
        ensures
            count == self.frames().len(),
    {
        self.indices.len()
    }

    /// The frame that shows at step `index` of an animation that has
    /// frames.
    pub fn index(&self, index: usize) -> (frame: usize)
        requires
            self.frames().len() > 0,
        ensures
            frame == self.frame_spec(index as int),
    {
        let last = self.indices.len() - 1;
        if self.one_off {
            if index < last {
                self.indices[index]
            } else {
                self.indices[last]
            }
        } else {
            self.indices[index % self.indices.len()]
        }
    }

    /// The time for which each frame shows, in milliseconds.
    pub fn time_per_frame(&self) -> (millis: u32)
        ensures
            millis == self.frame_time(),
    {
        self.time_per_frame
    }

    /// The frame that shows `elapsed` milliseconds after the animation
    /// began; nothing for an animation without frames or without a frame
    /// time.
    pub fn frame_at(&self, elapsed: u64) -> (frame: Option<usize>)
        ensures
            frame == if self.frames().len() > 0 && self.frame_time() > 0 {
                Some(self.frame_spec(self.step_spec(elapsed)))
            } else {
                None::<usize>
            },
    {
        if self.indices.len() == 0 || self.time_per_frame == 0 {
            return None;
        }
        let steps: u64 = elapsed / self.time_per_frame as u64;
        let step: usize = if steps > usize::MAX as u64 {
            usize::MAX
        } else {
            steps as usize
        };
        Some(self.index(step))
    }
}

} // verus!

use vstd::prelude::*;

verus! {

/// The frame-global record every stage reads. Times are in microseconds;
/// resolution and pointer in pixels.
#[derive(Clone, Copy, Debug, PartialEq, Eq, Structural)]
pub struct CommonUniform {
    pub time_us: u64,
    pub time_delta_us: u64,
    pub frame: u64,
    pub sample_rate: u32,
    pub width: u32,
    pub height: u32,
    pub pointer_x: i32,
    pub pointer_y: i32,
}

impl CommonUniform {
    pub open spec fn new_spec(width: u32, height: u32) -> CommonUniform {
        CommonUniform {
            time_us: 0,
            time_delta_us: 0,
            frame: 0,
            sample_rate: 0,
            width,
            height,
            pointer_x: 0,
            pointer_y: 0,
        }
    }

    /// The record at startup: zeroed, with the given output resolution.
    pub fn new(width: u32, height: u32) -> (r: CommonUniform)
        ensures
            r == CommonUniform::new_spec(width, height),
    {
        CommonUniform {
            time_us: 0,
            time_delta_us: 0,
            frame: 0,
            sample_rate: 0,
            width,
            height,
            pointer_x: 0,
            pointer_y: 0,
        }
    }

    /// Updates the record at frame start: time, delta and frame index every
    /// call, the resolution only when a resize was observed.
    pub fn stage(&mut self, time_us: u64, time_delta_us: u64, frame: u64, resize: Option<(u32, u32)>)
        ensures
            final(self).time_us == time_us,
            final(self).time_delta_us == time_delta_us,
            final(self).frame == frame,
            final(self).sample_rate == old(self).sample_rate,
            final(self).pointer_x == old(self).pointer_x,
            final(self).pointer_y == old(self).pointer_y,
            (final(self).width, final(self).height) == match resize {
                Some(r) => r,
                None => (old(self).width, old(self).height),
            },
    {
        self.time_us = time_us;
        self.time_delta_us = time_delta_us;
        self.frame = frame;
        if let Some((w, h)) = resize {
            self.width = w;
            self.height = h;
        }
    }

    /// Records the latest pointer position.
    pub fn point(&mut self, x: i32, y: i32)
        ensures
            *final(self) == (CommonUniform { pointer_x: x, pointer_y: y, ..*old(self) }),
    {
        self.pointer_x = x;
        self.pointer_y = y;
    }
}

} // verus!

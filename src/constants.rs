use vstd::prelude::*;
use crate::components::MAX_SPEED;
use crate::geometry::UNIT;

verus! {

/// Half of `UNIT`: sub-pixels in half a pixel.
pub const HALF_UNIT: i64 = 512;

/// Largest window side, in pixels.
pub const MAX_WINDOW: i64 = 65536;

/// Largest block or ball size, in pixels.
pub const MAX_BLOCK: i64 = 1024;

/// Game configuration, in whole pixels; loaded once and read-only after.
#[derive(Clone, Copy, Debug)]
pub struct ConstantsManager {
    pub block_size: i64,
    pub ball_size: i64,
    pub window_width: i64,
    pub window_height: i64,
    /// Pixels a ball travels per tick.
    pub ballspeed: i64,
}

impl ConstantsManager {
    pub open spec fn wf(&self) -> bool {
        &&& 1 <= self.block_size <= MAX_BLOCK
        &&& 1 <= self.ball_size <= MAX_BLOCK
        &&& 1 <= self.window_width <= MAX_WINDOW
        &&& 1 <= self.window_height <= MAX_WINDOW
        &&& 0 <= self.ballspeed <= MAX_SPEED
    }

    /// Distance from the centre to the left or right wall, in sub-pixels.
    pub open spec fn half_width_spec(&self) -> int {
        self.window_width * HALF_UNIT
    }

    /// Distance from the centre to the top wall or the floor, in sub-pixels.
    pub open spec fn half_height_spec(&self) -> int {
        self.window_height * HALF_UNIT
    }

    /// Side of a block, in sub-pixels.
    pub open spec fn block_spec(&self) -> int {
        self.block_size * UNIT
    }

    pub open spec fn block_half_spec(&self) -> int {
        self.block_size * HALF_UNIT
    }

    pub open spec fn ball_half_spec(&self) -> int {
        self.ball_size * HALF_UNIT
    }

    /// A block at or below this height after a descent ends the game.
    pub open spec fn loss_line_spec(&self) -> int {
        -self.half_height_spec() + 2 * self.block_spec()
    }

    pub fn half_width(&self) -> (r: i64)
        requires
            self.wf(),
        ensures
            r == self.half_width_spec(),
    {
        self.window_width * HALF_UNIT
    }

    pub fn half_height(&self) -> (r: i64)
        requires
            self.wf(),
        ensures
            r == self.half_height_spec(),
    {
        self.window_height * HALF_UNIT
    }

    pub fn block(&self) -> (r: i64)
        requires
            self.wf(),
        ensures
            r == self.block_spec(),
    {
        self.block_size * UNIT
    }

    pub fn block_half(&self) -> (r: i64)
        requires
            self.wf(),
        ensures
            r == self.block_half_spec(),
    {
        self.block_size * HALF_UNIT
    }

    pub fn ball_half(&self) -> (r: i64)
        requires
            self.wf(),
        ensures
            r == self.ball_half_spec(),
    {
        self.ball_size * HALF_UNIT
    }

    pub fn loss_line(&self) -> (r: i64)
        requires
            self.wf(),
        ensures
            r == self.loss_line_spec(),
    {
        -self.half_height() + 2 * self.block()
    }
}

} // verus!

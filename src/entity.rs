use vstd::prelude::*;
use crate::components::{velocity_spec, Movement};
use crate::geometry::Vector;

verus! {

/// What a brick is: a standard brick with its remaining health, or a
/// single-use power-up that adds a ball to every later volley.
#[derive(Clone, Copy, Debug, PartialEq, Eq, Structural)]
pub enum Block {
    Standard(u32),
    AddBall,
}

/// A brick on the field, centred at `pos` (sub-pixels).
#[derive(Clone, Copy, Debug)]
pub struct Brick {
    pub pos: Vector,
    pub block: Block,
}

/// A ball in flight, centred at `pos` (sub-pixels).
#[derive(Clone, Copy, Debug)]
pub struct Ball {
    pub pos: Vector,
    pub movement: Movement,
}

/// The ball after one fixed-step tick of movement.
pub open spec fn advanced(b: Ball) -> Ball {
    let v = velocity_spec(b.movement);
    Ball { pos: Vector { x: (b.pos.x + v.x) as i64, y: (b.pos.y + v.y) as i64 }, movement: b.movement }
}

} // verus!

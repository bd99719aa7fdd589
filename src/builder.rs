use vstd::prelude::*;
use crate::components::Movement;
use crate::constants::{ConstantsManager, HALF_UNIT};
use crate::entity::{Ball, Block, Brick};
use crate::geometry::{in_range, Vector, UNIT};

verus! {

/// Rows of empty space left between the floor and the first layout row.
pub const ROW_OFFSET: i64 = 5;

/// Largest coordinate magnitude of a brick centre.
pub const BRICK_BOUND: i64 = 0x1000_0000;

/// Grid cell, in whole blocks: column from the left wall, row from the floor.
pub type FieldPos = (usize, usize);

/// Kind of a layout cell handed over by the layout generator.
#[derive(Clone, Copy, Debug, PartialEq, Eq, Structural)]
pub enum BrickType {
    Empty,
    Standard(u32),
    AddBall,
}

/// One cell of a generated layout.
#[derive(Clone, Copy, Debug)]
pub struct LayoutBrick {
    pub position: FieldPos,
    pub brick_type: BrickType,
}

/// The cell lies on the window's block grid.
pub open spec fn in_grid(c: ConstantsManager, p: FieldPos) -> bool {
    p.0 * c.block_size <= c.window_width && p.1 * c.block_size <= c.window_height
}

/// Centre of the block in grid cell `p`, in sub-pixels.
pub open spec fn field_pos_spec(c: ConstantsManager, p: FieldPos) -> Vector {
    Vector {
        x: (p.0 * c.block_spec() - c.half_width_spec() + c.block_half_spec()) as i64,
        y: (p.1 * c.block_spec() - c.half_height_spec() - c.block_half_spec() + ROW_OFFSET
            * c.block_spec()) as i64,
    }
}

/// Where every ball of a volley starts: the middle of the floor.
pub open spec fn origin_spec(c: ConstantsManager) -> Vector {
    Vector { x: 0, y: (-c.half_height_spec()) as i64 }
}

/// The pointer, in window pixels from the bottom-left corner, lies in the window.
pub open spec fn in_window(c: ConstantsManager, p: Vector) -> bool {
    0 <= p.x <= c.window_width && 0 <= p.y <= c.window_height
}

/// Offset from the shooting origin to the pointer, in sub-pixels.
pub open spec fn aim_offset_spec(c: ConstantsManager, mouse_pos: Vector) -> Vector {
    Vector { x: (mouse_pos.x * UNIT - c.half_width_spec()) as i64, y: (mouse_pos.y * UNIT) as i64 }
}

pub fn field_pos_to_transform(c: &ConstantsManager, field_pos: FieldPos) -> (r: Vector)
    requires
        c.wf(),
        in_grid(*c, field_pos),
    ensures
        r == field_pos_spec(*c, field_pos),
        in_range(r, BRICK_BOUND as int),
{
    let b = c.block_size;
    assert(field_pos.0 <= c.window_width) by (nonlinear_arith)
        requires field_pos.0 * b <= c.window_width, 1 <= b;
    assert(field_pos.1 <= c.window_height) by (nonlinear_arith)
        requires field_pos.1 * b <= c.window_height, 1 <= b;
    let fx = field_pos.0 as i64;
    let fy = field_pos.1 as i64;
    assert(fx * (b * UNIT) == (fx * b) * UNIT) by (nonlinear_arith);
    assert(fy * (b * UNIT) == (fy * b) * UNIT) by (nonlinear_arith);
    assert((fx * b) * UNIT <= c.window_width * UNIT) by (nonlinear_arith)
        requires fx * b <= c.window_width;
    assert((fy * b) * UNIT <= c.window_height * UNIT) by (nonlinear_arith)
        requires fy * b <= c.window_height;
    assert(0 <= (fx * b) * UNIT) by (nonlinear_arith)
        requires 0 <= fx, 0 <= b;
    assert(0 <= (fy * b) * UNIT) by (nonlinear_arith)
        requires 0 <= fy, 0 <= b;
    let col: i64 = (fx * b) * UNIT;
    let row: i64 = (fy * b) * UNIT;
    let x: i64 = col - c.half_width() + c.block_half();
    let y: i64 = row - c.half_height() - c.block_half() + ROW_OFFSET * c.block();
    Vector { x, y }
}

/// A standard brick with the given health in grid cell `field_pos`.
pub fn construct_block_standard(c: &ConstantsManager, field_pos: FieldPos, health: u32) -> (r: Brick)
    requires
        c.wf(),
        in_grid(*c, field_pos),
    ensures
        r.pos == field_pos_spec(*c, field_pos),
        r.block == Block::Standard(health),
        in_range(r.pos, BRICK_BOUND as int),
{
    Brick { pos: field_pos_to_transform(c, field_pos), block: Block::Standard(health) }
}

/// A power-up brick in grid cell `field_pos`.
pub fn construct_block_add_ball(c: &ConstantsManager, field_pos: FieldPos) -> (r: Brick)
    requires
        c.wf(),
        in_grid(*c, field_pos),
    ensures
        r.pos == field_pos_spec(*c, field_pos),
        r.block == Block::AddBall,
        in_range(r.pos, BRICK_BOUND as int),
{
    Brick { pos: field_pos_to_transform(c, field_pos), block: Block::AddBall }
}

/// A new ball at the shooting origin, travelling along the volley's aim.
pub fn construct_ball(c: &ConstantsManager, aim: Movement) -> (r: Ball)
    requires
        c.wf(),
    ensures
        r.pos == origin_spec(*c),
        r.movement == aim,
{
    Ball { pos: Vector { x: 0, y: -c.half_height() }, movement: aim }
}

/// Offset from the shooting origin to a pointer given in window pixels.
pub fn direction_ball_to_mouse(c: &ConstantsManager, mouse_pos: Vector) -> (r: Vector)
    requires
        c.wf(),
        in_window(*c, mouse_pos),
    ensures
        r == aim_offset_spec(*c, mouse_pos),
{
    Vector { x: mouse_pos.x * UNIT - c.half_width(), y: mouse_pos.y * UNIT }
}

} // verus!

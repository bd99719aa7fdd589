use vstd::prelude::*;
use crate::geometry::{
    abs, in_range, is_unit_direction, near_unit, norm2, normalize, normalized, Collision, Vector, MAX_COORD, UNIT,
};

verus! {

/// Largest ball speed, in pixels per tick.
pub const MAX_SPEED: i64 = 4096;

/// Direction of travel and speed of a ball. The direction is kept at length
/// `UNIT` (up to truncation) and is never zero; the speed is stored apart and
/// applied at integration time.
#[derive(Clone, Copy, Debug)]
pub struct Movement {
    pub direction: Vector,
    pub speed: i64,
}

/// `d` with its horizontal component negated.
pub open spec fn flipped_x(d: Vector) -> Vector {
    Vector { x: (-d.x) as i64, y: d.y }
}

/// `d` with its vertical component negated.
pub open spec fn flipped_y(d: Vector) -> Vector {
    Vector { x: d.x, y: (-d.y) as i64 }
}

/// Sign-gated reflection off the given side of a brick: the component
/// perpendicular to that side is negated only while it points into the brick.
pub open spec fn bounced(d: Vector, side: Collision) -> Vector {
    if moving_into(d, side) {
        match side {
            Collision::Left | Collision::Right => flipped_x(d),
            Collision::Top | Collision::Bottom => flipped_y(d),
        }
    } else {
        d
    }
}

/// Travelling along `d`, a ball moves into the given side of a brick.
pub open spec fn moving_into(d: Vector, side: Collision) -> bool {
    match side {
        Collision::Left => d.x > 0,
        Collision::Right => d.x < 0,
        Collision::Top => d.y < 0,
        Collision::Bottom => d.y > 0,
    }
}

/// Distance travelled in one tick, in sub-pixels.
pub open spec fn velocity_spec(m: Movement) -> Vector {
    Vector { x: (m.direction.x * m.speed) as i64, y: (m.direction.y * m.speed) as i64 }
}

/// Negating a component keeps a direction usable and of the same length.
pub proof fn lemma_flip_keeps_direction(d: Vector)
    requires
        is_unit_direction(d),
    ensures
        is_unit_direction(flipped_x(d)),
        is_unit_direction(flipped_y(d)),
        norm2(flipped_x(d)) == norm2(d),
        norm2(flipped_y(d)) == norm2(d),
{
    let a = d.x as int;
    let b = d.y as int;
    assert(flipped_x(d).x == -a);
    assert(flipped_y(d).y == -b);
    assert((-a) * (-a) == a * a) by (nonlinear_arith);
    assert((-b) * (-b) == b * b) by (nonlinear_arith);
}

impl Movement {
    pub open spec fn wf(&self) -> bool {
        is_unit_direction(self.direction) && 0 <= self.speed <= MAX_SPEED
    }

    /// A movement along `direction`, rescaled to unit length.
    pub fn new(direction: Vector, speed: i64) -> (r: Self)
        requires
            direction.x != 0 || direction.y != 0,
            in_range(direction, MAX_COORD as int),
            0 <= speed <= MAX_SPEED,
        ensures
            r.direction == normalized(direction),
            near_unit(r.direction),
            r.speed == speed,
            r.wf(),
    {
        Movement { direction: normalize(direction), speed }
    }

    /// Replaces the horizontal component and rescales to unit length.
    pub fn set_x(&mut self, x: i64)
        requires
            x != 0 || old(self).direction.y != 0,
            abs(x as int) <= MAX_COORD,
            old(self).wf(),
        ensures
            final(self).direction == normalized(Vector { x, y: old(self).direction.y }),
            near_unit(final(self).direction),
            final(self).speed == old(self).speed,
            final(self).wf(),
    {
        self.direction.x = x;
        self.normalize();
    }

    /// Replaces the vertical component and rescales to unit length.
    pub fn set_y(&mut self, y: i64)
        requires
            y != 0 || old(self).direction.x != 0,
            abs(y as int) <= MAX_COORD,
            old(self).wf(),
        ensures
            final(self).direction == normalized(Vector { x: old(self).direction.x, y }),
            near_unit(final(self).direction),
            final(self).speed == old(self).speed,
            final(self).wf(),
    {
        self.direction.y = y;
        self.normalize();
    }

    pub fn flip_x(&mut self)
        requires
            old(self).wf(),
        ensures
            final(self).direction == flipped_x(old(self).direction),
            final(self).speed == old(self).speed,
            final(self).wf(),
            norm2(final(self).direction) == norm2(old(self).direction),
    {
        proof {
            lemma_flip_keeps_direction(self.direction);
        }
        self.direction.x = -self.direction.x;
    }

    pub fn flip_y(&mut self)
        requires
            old(self).wf(),
        ensures
            final(self).direction == flipped_y(old(self).direction),
            final(self).speed == old(self).speed,
            final(self).wf(),
            norm2(final(self).direction) == norm2(old(self).direction),
    {
        proof {
            lemma_flip_keeps_direction(self.direction);
        }
        self.direction.y = -self.direction.y;
    }

    pub fn x(&self) -> (r: i64)
        ensures
            r == self.direction.x,
    {
        self.direction.x
    }

    pub fn y(&self) -> (r: i64)
        ensures
            r == self.direction.y,
    {
        self.direction.y
    }

    fn normalize(&mut self)
        requires
            old(self).direction.x != 0 || old(self).direction.y != 0,
            in_range(old(self).direction, MAX_COORD as int),
        ensures
            final(self).direction == normalized(old(self).direction),
            is_unit_direction(final(self).direction),
            final(self).speed == old(self).speed,
    {
        self.direction = normalize(self.direction);
    }

    /// Whether the ball moves into the given side of a brick.
    pub fn moving_into(&self, side: Collision) -> (r: bool)
        ensures
            r == moving_into(self.direction, side),
    {
        match side {
            Collision::Left => self.direction.x > 0,
            Collision::Right => self.direction.x < 0,
            Collision::Top => self.direction.y < 0,
            Collision::Bottom => self.direction.y > 0,
        }
    }

    /// Reflects off the given side of a brick, unless already moving away.
    pub fn bounce(&mut self, side: Collision)
        requires
            old(self).wf(),
        ensures
            final(self).direction == bounced(old(self).direction, side),
            final(self).speed == old(self).speed,
            final(self).wf(),
            norm2(final(self).direction) == norm2(old(self).direction),
    {
        match side {
            Collision::Left => if self.direction.x > 0 { self.flip_x() },
            Collision::Right => if self.direction.x < 0 { self.flip_x() },
            Collision::Top => if self.direction.y < 0 { self.flip_y() },
            Collision::Bottom => if self.direction.y > 0 { self.flip_y() },
        }
    }

    /// Displacement over one tick, in sub-pixels.
    pub fn velocity(&self) -> (r: Vector)
        requires
            self.wf(),
        ensures
            r == velocity_spec(*self),
            r.x == self.direction.x * self.speed,
            r.y == self.direction.y * self.speed,
            in_range(r, UNIT * MAX_SPEED),
    {
        assert(abs(self.direction.x * self.speed) <= UNIT * MAX_SPEED) by (nonlinear_arith)
            requires abs(self.direction.x as int) <= UNIT, 0 <= self.speed <= MAX_SPEED;
        assert(abs(self.direction.y * self.speed) <= UNIT * MAX_SPEED) by (nonlinear_arith)
            requires abs(self.direction.y as int) <= UNIT, 0 <= self.speed <= MAX_SPEED;
        Vector { x: self.direction.x * self.speed, y: self.direction.y * self.speed }
    }
}

} // verus!

//! Points and vectors of the field.

use vstd::prelude::*;
use vstd::std_specs::ops::AddSpec;
use vstd::std_specs::ops::MulSpec;
use crate::game::consts::COORD_LIMIT;
use crate::game::direction::Direction;

verus! {

/// A point of the field, or a vector between two points; `y` grows downwards.
#[derive(Clone, Copy, Debug, PartialEq, Eq, Structural)]
pub struct Coords {
    pub x: i64,
    pub y: i64,
}

impl Coords {
    /// Whether both coordinates lie within `COORD_LIMIT` of the origin.
    pub open spec fn bounded(self) -> bool {
        &&& -COORD_LIMIT <= self.x <= COORD_LIMIT
        &&& -COORD_LIMIT <= self.y <= COORD_LIMIT
    }

    /// How far one can go from here in direction `dir` before a coordinate
    /// passes `COORD_LIMIT`.
    pub open spec fn room(self, dir: Direction) -> int {
        match dir {
            Direction::UP => self.y + COORD_LIMIT,
            Direction::DOWN => COORD_LIMIT - self.y,
            Direction::LEFT => self.x + COORD_LIMIT,
            Direction::RIGHT => COORD_LIMIT - self.x,
        }
    }

    /// The point `dist` away from here in direction `dir`.
    pub open spec fn stepped(self, dir: Direction, dist: int) -> Coords {
        match dir {
            Direction::UP => Coords { x: self.x, y: (self.y - dist) as i64 },
            Direction::DOWN => Coords { x: self.x, y: (self.y + dist) as i64 },
            Direction::LEFT => Coords { x: (self.x - dist) as i64, y: self.y },
            Direction::RIGHT => Coords { x: (self.x + dist) as i64, y: self.y },
        }
    }

    pub fn new(x: i64, y: i64) -> (c: Coords)
        ensures
            c.x == x,
            c.y == y,
    {
        Coords { x, y }
    }

    /// Whether both coordinates lie within `COORD_LIMIT` of the origin.
    pub fn is_bounded(&self) -> (r: bool)
        ensures
            r == self.bounded(),
    {
        -COORD_LIMIT <= self.x && self.x <= COORD_LIMIT && -COORD_LIMIT <= self.y && self.y
            <= COORD_LIMIT
    }
}

/// Stepping is adding a multiple of the direction's unit vector, and a step
/// that is no longer than the room stays within bounds.
pub proof fn lemma_step_is_vector_sum(pos: Coords, dir: Direction, dist: i64)
    requires
        pos.bounded(),
        0 <= dist <= pos.room(dir),
    ensures
        dir.vector().mul_req(dist),
        pos.add_req(dir.vector().mul_spec(dist)),
        pos.stepped(dir, dist as int) == pos.add_spec(dir.vector().mul_spec(dist)),
        pos.stepped(dir, dist as int).bounded(),
        pos.stepped(dir, dist as int).room(dir) == pos.room(dir) - dist,
{
}

impl core::ops::Add for Coords {
    type Output = Coords;

    /// Vector addition.
    fn add(self, rhs: Coords) -> (sum: Coords) {
        Coords { x: self.x + rhs.x, y: self.y + rhs.y }
    }
}

impl vstd::std_specs::ops::AddSpecImpl for Coords {
    open spec fn obeys_add_spec() -> bool {
        true
    }

    open spec fn add_req(self, rhs: Coords) -> bool {
        &&& i64::MIN <= self.x + rhs.x <= i64::MAX
        &&& i64::MIN <= self.y + rhs.y <= i64::MAX
    }

    open spec fn add_spec(self, rhs: Coords) -> Coords {
        Coords { x: (self.x + rhs.x) as i64, y: (self.y + rhs.y) as i64 }
    }
}

impl core::ops::Mul<i64> for Coords {
    type Output = Coords;

    /// Multiplication by a scalar.
    fn mul(self, rhs: i64) -> (product: Coords) {
        Coords { x: self.x * rhs, y: self.y * rhs }
    }
}

impl vstd::std_specs::ops::MulSpecImpl<i64> for Coords {
    open spec fn obeys_mul_spec() -> bool {
        true
    }

    open spec fn mul_req(self, rhs: i64) -> bool {
        &&& i64::MIN <= self.x * rhs <= i64::MAX
        &&& i64::MIN <= self.y * rhs <= i64::MAX
    }

    open spec fn mul_spec(self, rhs: i64) -> Coords {
        Coords { x: (self.x * rhs) as i64, y: (self.y * rhs) as i64 }
    }
}

} // verus!

//! The four directions of travel.

use vstd::prelude::*;
use crate::game::coords::Coords;

verus! {

/// A cardinal direction on the screen; `y` grows downwards.
#[allow(non_camel_case_types)]
#[derive(Clone, Copy, Debug, PartialEq, Eq, Structural)]
pub enum Direction {
    UP,
    DOWN,
    LEFT,
    RIGHT,
}

impl Direction {
    /// Whether the direction runs along the `y` axis.
    pub open spec fn is_vertical(self) -> bool {
        self == Direction::UP || self == Direction::DOWN
    }

    /// Two directions are colinear when they lie on the same axis.
    pub open spec fn colinear(self, other: Direction) -> bool {
        self.is_vertical() == other.is_vertical()
    }

    /// The unit vector of the direction.
    pub open spec fn vector(self) -> Coords {
        match self {
            Direction::UP => Coords { x: 0, y: -1i64 },
            Direction::DOWN => Coords { x: 0, y: 1 },
            Direction::LEFT => Coords { x: -1i64, y: 0 },
            Direction::RIGHT => Coords { x: 1, y: 0 },
        }
    }

    /// The unit vector of the direction.
    pub fn as_coords(self) -> (v: Coords)
        ensures
            v == self.vector(),
    {
        match self {
            Direction::UP => Coords { x: 0, y: -1 },
            Direction::DOWN => Coords { x: 0, y: 1 },
            Direction::LEFT => Coords { x: -1, y: 0 },
            Direction::RIGHT => Coords { x: 1, y: 0 },
        }
    }

    /// Whether `self` and `other` lie on the same axis.
    pub fn is_colinear(self, other: Direction) -> (r: bool)
        ensures
            r == self.colinear(other),
    {
        match self {
            Direction::UP | Direction::DOWN => match other {
                Direction::UP | Direction::DOWN => true,
                Direction::LEFT | Direction::RIGHT => false,
            },
            Direction::LEFT | Direction::RIGHT => match other {
                Direction::UP | Direction::DOWN => false,
                Direction::LEFT | Direction::RIGHT => true,
            },
        }
    }

    /// Whether going `self` after going `from` is a real turn, that is, a
    /// change of axis.
    pub fn is_turn(self, from: Direction) -> (r: bool)
        ensures
            r == !self.colinear(from),
    {
        !self.is_colinear(from)
    }
}

/// Colinearity is an equivalence relation with two classes: the vertical and
/// the horizontal directions.
pub proof fn lemma_colinear_is_equivalence(a: Direction, b: Direction, c: Direction)
    ensures
        a.colinear(a),
        a.colinear(b) == b.colinear(a),
        a.colinear(b) && b.colinear(c) ==> a.colinear(c),
        !a.colinear(b) && !b.colinear(c) ==> a.colinear(c),
{
}

} // verus!

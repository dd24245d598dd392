//! The food: a point of the field and the box around it.

use vstd::prelude::*;
use crate::game::consts;
use crate::game::coords::Coords;
use crate::game::rect::Rect;

verus! {

/// A piece of food at `pos`. `bbox` is the box that the snake has to touch
/// to eat it.
#[derive(Clone, Copy, Debug, PartialEq, Eq, Structural)]
pub struct Food {
    pub pos: Coords,
    pub bbox: Rect,
}

impl Food {
    /// The square of side `FOOD_SIZE` centred on `pos`.
    pub open spec fn box_at(pos: Coords) -> Rect {
        Rect {
            x: (pos.x - consts::FOOD_HALF_SIZE) as i64,
            y: (pos.y - consts::FOOD_HALF_SIZE) as i64,
            w: consts::FOOD_SIZE,
            h: consts::FOOD_SIZE,
        }
    }

    /// The food at `pos`.
    pub open spec fn at(pos: Coords) -> Food {
        Food { pos, bbox: Food::box_at(pos) }
    }

    /// The position is within bounds and the box is the one that belongs
    /// to it.
    pub open spec fn wf(self) -> bool {
        self.pos.bounded() && self.bbox == Food::box_at(self.pos)
    }

    /// Food at `pos`, with its box.
    pub fn new(pos: Coords) -> (food: Food)
        requires
            pos.bounded(),
        ensures
            food == Food::at(pos),
            food.wf(),
            food.bbox.left() == pos.x - consts::FOOD_HALF_SIZE,
            food.bbox.right() == pos.x + consts::FOOD_HALF_SIZE,
            food.bbox.top() == pos.y - consts::FOOD_HALF_SIZE,
            food.bbox.bottom() == pos.y + consts::FOOD_HALF_SIZE,
    {
        Food {
            pos,
            bbox: Rect::new(
                pos.x - consts::FOOD_HALF_SIZE,
                pos.y - consts::FOOD_HALF_SIZE,
                consts::FOOD_SIZE,
                consts::FOOD_SIZE,
            ),
        }
    }
}

} // verus!

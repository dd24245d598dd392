//! The straight, axis-aligned segment that the snake's body is made of.

use vstd::prelude::*;
use crate::game::consts;
use crate::game::coords::Coords;
use crate::game::coords::lemma_step_is_vector_sum;
use crate::game::direction::Direction;
use crate::game::maths;
use crate::game::rect::Rect;

verus! {

/// One straight run of the body. `end` is the leading point, `beg` the
/// trailing one; the segment was laid down going `dir`.
#[derive(Clone, Copy, Debug, PartialEq, Eq, Structural)]
pub struct Line {
    pub beg: Coords,
    pub end: Coords,
    pub dir: Direction,
}

impl Line {
    /// Both end points lie within the coordinate limit.
    pub open spec fn bounded(self) -> bool {
        self.beg.bounded() && self.end.bounded()
    }

    /// A valid segment is bounded, and `end` lies straight ahead of `beg`
    /// in direction `dir`, or on it.
    pub open spec fn wf(self) -> bool {
        &&& self.bounded()
        &&& match self.dir {
            Direction::UP => self.end.x == self.beg.x && self.end.y <= self.beg.y,
            Direction::DOWN => self.end.x == self.beg.x && self.end.y >= self.beg.y,
            Direction::LEFT => self.end.y == self.beg.y && self.end.x <= self.beg.x,
            Direction::RIGHT => self.end.y == self.beg.y && self.end.x >= self.beg.x,
        }
    }

    /// The extent of the segment along its own axis.
    pub open spec fn spec_size(self) -> nat {
        if self.dir.is_vertical() {
            vstd::math::abs(self.end.y - self.beg.y)
        } else {
            vstd::math::abs(self.end.x - self.beg.x)
        }
    }

    /// The segment that `new` makes: it starts at `pos` and is `EPSILON` long.
    pub open spec fn fresh(pos: Coords, dir: Direction) -> Line {
        Line { beg: pos, end: pos.stepped(dir, consts::EPSILON as int), dir }
    }

    /// The segment with its leading point moved `dist` further ahead.
    pub open spec fn grown(self, dist: int) -> Line {
        Line { beg: self.beg, end: self.end.stepped(self.dir, dist), dir: self.dir }
    }

    /// The segment with its trailing point moved `dist` towards the leading
    /// point.
    pub open spec fn shrunk(self, dist: int) -> Line {
        Line { beg: self.beg.stepped(self.dir, dist), end: self.end, dir: self.dir }
    }

    /// How far the leading point can still advance.
    pub open spec fn room(self) -> int {
        self.end.room(self.dir)
    }

    /// The segment thickened to the snake's width: it spans the segment
    /// along its axis and reaches half the snake's width to either side.
    pub open spec fn bbox(self) -> Rect {
        let across_x = if self.dir.is_vertical() {
            consts::SNAKE_HALF_WIDTH as int
        } else {
            0
        };
        let across_y = if self.dir.is_vertical() {
            0
        } else {
            consts::SNAKE_HALF_WIDTH as int
        };
        Rect {
            x: (vstd::math::min(self.beg.x as int, self.end.x as int) - across_x) as i64,
            y: (vstd::math::min(self.beg.y as int, self.end.y as int) - across_y) as i64,
            w: (vstd::math::abs(self.end.x - self.beg.x) + 2 * across_x) as i64,
            h: (vstd::math::abs(self.end.y - self.beg.y) + 2 * across_y) as i64,
        }
    }

    /// A new segment at `pos` going `dir`, of the smallest length there is,
    /// so that its direction shows in its end points from the start.
    pub fn new(pos: Coords, dir: Direction) -> (line: Line)
        requires
            pos.bounded(),
            consts::EPSILON <= pos.room(dir),
        ensures
            line == Line::fresh(pos, dir),
            line.wf(),
            line.spec_size() == consts::EPSILON,
    {
        proof {
            lemma_step_is_vector_sum(pos, dir, consts::EPSILON);
        }
        Line { beg: pos, end: pos + dir.as_coords() * consts::EPSILON, dir }
    }

    /// Whether the segment is valid.
    pub fn is_wf(&self) -> (valid: bool)
        ensures
            valid == self.wf(),
    {
        self.beg.is_bounded() && self.end.is_bounded() && match self.dir {
            Direction::UP => self.end.x == self.beg.x && self.end.y <= self.beg.y,
            Direction::DOWN => self.end.x == self.beg.x && self.end.y >= self.beg.y,
            Direction::LEFT => self.end.y == self.beg.y && self.end.x <= self.beg.x,
            Direction::RIGHT => self.end.y == self.beg.y && self.end.x >= self.beg.x,
        }
    }

    /// The extent of the segment along its own axis.
    pub fn size(&self) -> (size: i64)
        requires
            self.bounded(),
        ensures
            size == self.spec_size(),
    {
        match self.dir {
            Direction::UP | Direction::DOWN => abs_diff(self.end.y, self.beg.y),
            Direction::LEFT | Direction::RIGHT => abs_diff(self.end.x, self.beg.x),
        }
    }

    /// Moves the leading point `dist` further ahead. Growth at the head is
    /// never held back, so nothing of `dist` is left over.
    pub fn grow(&mut self, dist: i64) -> (left: i64)
        requires
            old(self).wf(),
            0 <= dist <= old(self).room(),
        ensures
            *final(self) == old(self).grown(dist as int),
            final(self).wf(),
            final(self).spec_size() == old(self).spec_size() + dist,
            left == 0,
    {
        match self.dir {
            Direction::UP => self.end.y -= dist,
            Direction::DOWN => self.end.y += dist,
            Direction::LEFT => self.end.x -= dist,
            Direction::RIGHT => self.end.x += dist,
        };
        0
    }

    /// Moves the trailing point towards the leading point by `dist`, but not
    /// past it, and returns the part of `dist` that the segment could not
    /// take up.
    pub fn shrink(&mut self, dist: i64) -> (left: i64)
        requires
            old(self).wf(),
            0 <= dist,
        ensures
            left == maths::clamped(dist - old(self).spec_size(), 0, dist as int),
            left == vstd::math::max(dist - old(self).spec_size(), 0),
            *final(self) == old(self).shrunk(dist - left),
            final(self).wf(),
            final(self).spec_size() == old(self).spec_size() - (dist - left),
    {
        let left = maths::clamp(dist - self.size(), 0, dist);
        let used = dist - left;
        match self.dir {
            Direction::UP => self.beg.y -= used,
            Direction::DOWN => self.beg.y += used,
            Direction::LEFT => self.beg.x -= used,
            Direction::RIGHT => self.beg.x += used,
        };
        left
    }

    /// The leading point.
    pub fn get_end(&self) -> (end: Coords)
        ensures
            end == self.end,
    {
        self.end
    }

    /// The direction the segment was laid down in.
    pub fn get_dir(&self) -> (dir: Direction)
        ensures
            dir == self.dir,
    {
        self.dir
    }

    /// The rectangle that the segment covers at the snake's width, for
    /// drawing and for collisions alike.
    pub fn get_bbox(&self) -> (bbox: Rect)
        requires
            self.wf(),
        ensures
            bbox == self.bbox(),
    {
        let (x, y, w, h) = match self.dir {
            Direction::UP => (
                self.end.x - consts::SNAKE_HALF_WIDTH,
                self.end.y,
                consts::SNAKE_WIDTH,
                abs_diff(self.end.y, self.beg.y),
            ),
            Direction::DOWN => (
                self.end.x - consts::SNAKE_HALF_WIDTH,
                self.beg.y,
                consts::SNAKE_WIDTH,
                abs_diff(self.end.y, self.beg.y),
            ),
            Direction::LEFT => (
                self.end.x,
                self.end.y - consts::SNAKE_HALF_WIDTH,
                abs_diff(self.end.x, self.beg.x),
                consts::SNAKE_WIDTH,
            ),
            Direction::RIGHT => (
                self.beg.x,
                self.end.y - consts::SNAKE_HALF_WIDTH,
                abs_diff(self.end.x, self.beg.x),
                consts::SNAKE_WIDTH,
            ),
        };
        Rect::new(x, y, w, h)
    }
}

/// A fresh segment is valid where there is room for it, and is `EPSILON`
/// long.
pub proof fn lemma_line_fresh(pos: Coords, dir: Direction)
    requires
        pos.bounded(),
        consts::EPSILON <= pos.room(dir),
    ensures
        Line::fresh(pos, dir).wf(),
        Line::fresh(pos, dir).beg == pos,
        Line::fresh(pos, dir).dir == dir,
        Line::fresh(pos, dir).spec_size() == consts::EPSILON,
{
}

/// A valid segment grown by no more than its room is valid, keeps its
/// trailing point and direction, and is longer by what it was grown by.
pub proof fn lemma_line_grown(line: Line, dist: int)
    requires
        line.wf(),
        0 <= dist <= line.room(),
    ensures
        line.grown(dist).wf(),
        line.grown(dist).beg == line.beg,
        line.grown(dist).dir == line.dir,
        line.grown(dist).spec_size() == line.spec_size() + dist,
        line.grown(dist).room() == line.room() - dist,
{
}

/// A valid segment shrunk by no more than its size is valid, keeps its
/// leading point and direction, and is shorter by what it was shrunk by.
pub proof fn lemma_line_shrunk(line: Line, dist: int)
    requires
        line.wf(),
        0 <= dist <= line.spec_size(),
    ensures
        line.shrunk(dist).wf(),
        line.shrunk(dist).end == line.end,
        line.shrunk(dist).dir == line.dir,
        line.shrunk(dist).spec_size() == line.spec_size() - dist,
        dist == 0 ==> line.shrunk(dist) == line,
{
}

/// The distance between two coordinates.
fn abs_diff(a: i64, b: i64) -> (d: i64)
    requires
        -consts::COORD_LIMIT <= a <= consts::COORD_LIMIT,
        -consts::COORD_LIMIT <= b <= consts::COORD_LIMIT,
    ensures
        d == vstd::math::abs(a - b),
{
    if a >= b {
        a - b
    } else {
        b - a
    }
}

} // verus!

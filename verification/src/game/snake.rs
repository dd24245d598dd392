//! The snake: a chain of segments that grows at the head and retracts at
//! the tail.

use std::collections::VecDeque;
use vstd::prelude::*;
use crate::game::chain;
use crate::game::consts;
use crate::game::coords::Coords;
use crate::game::direction::Direction;
use crate::game::line::Line;
use crate::game::rect::Rect;

verus! {

/// The body of the snake. Its view is the sequence of its segments, the
/// tail first and the head last.
#[derive(Debug)]
pub struct Snake {
    segments: VecDeque<Line>,
}

impl View for Snake {
    type V = Seq<Line>;

    closed spec fn view(&self) -> Seq<Line> {
        self.segments@
    }
}

impl Snake {
    /// The body is a valid chain of segments.
    pub open spec fn wf(&self) -> bool {
        chain::wf(self@)
    }

    /// A snake of one segment of the smallest length at `(x, y)`, heading
    /// right.
    pub fn new(x: i64, y: i64) -> (snake: Snake)
        requires
            (Coords { x, y }).bounded(),
            consts::EPSILON <= (Coords { x, y }).room(Direction::RIGHT),
        ensures
            snake@ == seq![Line::fresh(Coords { x, y }, Direction::RIGHT)],
            snake.wf(),
    {
        let mut segments = VecDeque::new();
        segments.push_back(Line::new(Coords::new(x, y), Direction::RIGHT));
        let snake = Snake { segments };
        assert(snake@ =~= seq![Line::fresh(Coords { x, y }, Direction::RIGHT)]);
        snake
    }

    /// The snake made of `lines`, tail first, if they are a valid body.
    pub fn from_lines(lines: &Vec<Line>) -> (made: Option<Snake>)
        ensures
            match made {
                Some(snake) => snake@ == lines@ && snake.wf(),
                None => !chain::wf(lines@),
            },
    {
        let n = lines.len();
        if n == 0 {
            return None;
        }
        let mut segments: VecDeque<Line> = VecDeque::new();
        let mut i: usize = 0;
        while i < n
            invariant
                n == lines@.len(),
                i <= n,
                segments@ == lines@.take(i as int),
                forall|j: int| 0 <= j < i ==> (#[trigger] lines@[j]).wf(),
                forall|j: int| 0 <= j < i - 1 ==> #[trigger] chain::joint(lines@, j),
            decreases n - i,
        {
            let line = lines[i];
            if !line.is_wf() {
                assert(!lines@[i as int].wf());
                return None;
            }
            if i > 0 {
                let before = lines[i - 1];
                if before.end != line.beg || before.dir.is_colinear(line.dir) {
                    assert(!chain::joint(lines@, i - 1));
                    return None;
                }
            }
            segments.push_back(line);
            assert(segments@ =~= lines@.take(i + 1));
            i = i + 1;
        }
        assert(lines@.take(n as int) =~= lines@);
        Some(Snake { segments })
    }

    /// The number of segments.
    pub fn len(&self) -> (n: usize)
        ensures
            n == self@.len(),
    {
        self.segments.len()
    }

    /// The segment at `index`, counted from the tail.
    pub fn segment(&self, index: usize) -> (line: Line)
        requires
            index < self@.len(),
        ensures
            line == self@[index as int],
    {
        self.segments[index]
    }

    /// The head: the segment that leads.
    pub fn head(&self) -> (line: Line)
        requires
            self@.len() > 0,
        ensures
            line == self@.last(),
    {
        self.segments[self.segments.len() - 1]
    }

    /// The direction of travel, which is the direction of the head.
    pub fn dir(&self) -> (dir: Direction)
        requires
            self@.len() > 0,
        ensures
            dir == self@.last().dir,
    {
        self.head().get_dir()
    }

    /// How far the leading point could go in direction `dir` before it
    /// leaves the range of coordinates.
    pub fn room(&self, dir: Direction) -> (room: i64)
        requires
            self.wf(),
        ensures
            room == self@.last().end.room(dir),
    {
        let end = self.head().get_end();
        assert(self@.last().wf());
        match dir {
            Direction::UP => end.y + consts::COORD_LIMIT,
            Direction::DOWN => consts::COORD_LIMIT - end.y,
            Direction::LEFT => end.x + consts::COORD_LIMIT,
            Direction::RIGHT => consts::COORD_LIMIT - end.x,
        }
    }

    /// The sum of the sizes of the segments.
    pub fn length(&self) -> (total: i128)
        requires
            self.wf(),
        ensures
            total == chain::total_length(self@),
    {
        let n = self.segments.len();
        let mut total: i128 = 0;
        let mut i: usize = 0;
        while i < n
            invariant
                n == self@.len(),
                i <= n,
                chain::segments_wf(self@),
                total == chain::total_length(self@.take(i as int)),
                0 <= total <= i * 0x200_0000_0000,
            decreases n - i,
        {
            let line = self.segments[i];
            assert(self@[i as int].wf());
            assert(line.spec_size() <= 2 * consts::COORD_LIMIT);
            proof {
                assert(self@.take(i + 1) =~= self@.take(i as int).push(self@[i as int]));
                chain::lemma_total_length_push(self@.take(i as int), self@[i as int]);
            }
            total = total + line.size() as i128;
            i = i + 1;
        }
        assert(self@.take(n as int) =~= self@);
        total
    }

    /// The boxes of the segments, tail first, for drawing.
    pub fn bboxes(&self) -> (boxes: Vec<Rect>)
        requires
            self.wf(),
        ensures
            boxes@.len() == self@.len(),
            forall|i: int| 0 <= i < self@.len() ==> boxes@[i] == #[trigger] self@[i].bbox(),
    {
        let n = self.segments.len();
        let mut boxes: Vec<Rect> = Vec::new();
        let mut i: usize = 0;
        while i < n
            invariant
                n == self@.len(),
                i <= n,
                chain::segments_wf(self@),
                boxes@.len() == i,
                forall|j: int| 0 <= j < i ==> boxes@[j] == #[trigger] self@[j].bbox(),
            decreases n - i,
        {
            assert(self@[i as int].wf());
            boxes.push(self.segments[i].get_bbox());
            i = i + 1;
        }
        boxes
    }

    /// Takes a request to go `dir`. Along the axis of travel it changes
    /// nothing; onto the other axis it starts a new head at the leading
    /// point.
    pub fn turn(&mut self, dir: Direction)
        requires
            old(self).wf(),
            !dir.colinear(old(self)@.last().dir) ==> consts::EPSILON <= old(self)@.last().end.room(
                dir,
            ),
        ensures
            final(self)@ == chain::turned(old(self)@, dir),
            final(self).wf(),
    {
        let head = self.head();
        assert(head.wf());
        if !dir.is_colinear(head.get_dir()) {
            self.segments.push_back(Line::new(head.get_end(), dir));
        }
        proof {
            chain::lemma_turned(old(self)@, dir);
        }
    }

    /// Lengthens the snake by `dist` at the head. Nothing is taken off at
    /// the tail.
    pub fn grow(&mut self, dist: i64)
        requires
            old(self).wf(),
            0 <= dist <= old(self)@.last().room(),
        ensures
            final(self)@ == chain::grown(old(self)@, dist as int),
            final(self).wf(),
            final(self)@.len() == old(self)@.len(),
            chain::total_length(final(self)@) == chain::total_length(old(self)@) + dist,
    {
        assert(self@.last().wf());
        let mut head = self.segments.pop_back().unwrap();
        head.grow(dist);
        self.segments.push_back(head);
        proof {
            assert(self@ =~= chain::grown(old(self)@, dist as int));
            chain::lemma_grown(old(self)@, dist as int);
        }
    }

    /// Moves the snake ahead by `dist`: the head advances by `dist`, and
    /// `dist` is taken off at the tail, segment after segment, so that the
    /// length stays what it was.
    pub fn do_move(&mut self, dist: i64)
        requires
            old(self).wf(),
            0 <= dist <= old(self)@.last().room(),
        ensures
            final(self)@ == chain::moved(old(self)@, dist as int),
            final(self).wf(),
            chain::total_length(final(self)@) == chain::total_length(old(self)@),
    {
        self.grow(dist);
        let mut remaining = dist;
        loop
            invariant_except_break
                chain::wf(self@),
                0 <= remaining <= self@.last().spec_size(),
                chain::retracted(self@, remaining as int) == chain::moved(
                    old(self)@,
                    dist as int,
                ),
            ensures
                self@ == chain::moved(old(self)@, dist as int),
            decreases self@.len(),
        {
            let ghost before = self@;
            assert(before[0].wf());
            let mut tail = self.segments.pop_front().unwrap();
            let left = tail.shrink(remaining);
            if left == 0 {
                self.segments.push_front(tail);
                assert(self@ =~= before.update(0, before[0].shrunk(remaining as int)));
                break ;
            }
            proof {
                chain::lemma_drop_first_wf(before);
            }
            remaining = left;
        }
        proof {
            chain::lemma_moved(old(self)@, dist as int);
        }
    }

    /// Whether the box of some segment overlaps `area`.
    pub fn collide(&self, area: &Rect) -> (hit: bool)
        requires
            self.wf(),
        ensures
            hit == chain::collides(self@, *area),
    {
        let n = self.segments.len();
        let mut i: usize = 0;
        while i < n
            invariant
                n == self@.len(),
                i <= n,
                chain::segments_wf(self@),
                forall|j: int| 0 <= j < i ==> !(#[trigger] self@[j]).bbox().overlaps(area),
            decreases n - i,
        {
            assert(self@[i as int].wf());
            if self.segments[i].get_bbox().overlaps(area) {
                return true;
            }
            i = i + 1;
        }
        false
    }

    /// Whether the head's box overlaps the box of a segment other than the
    /// head itself and the one just before it.
    pub fn self_collide(&self) -> (hit: bool)
        requires
            self.wf(),
        ensures
            hit == chain::self_collides(self@),
    {
        let n = self.segments.len();
        if n <= 2 {
            return false;
        }
        assert(self@.last().wf());
        let head = self.head().get_bbox();
        let mut i: usize = 0;
        while i < n - 2
            invariant
                n == self@.len(),
                n > 2,
                i <= n - 2,
                chain::segments_wf(self@),
                head == self@.last().bbox(),
                forall|j: int| 0 <= j < i ==> !(#[trigger] self@[j]).bbox().overlaps(&head),
            decreases n - i,
        {
            assert(self@[i as int].wf());
            if self.segments[i].get_bbox().overlaps(&head) {
                return true;
            }
            i = i + 1;
        }
        false
    }

    /// Whether part of the head's box lies outside `field`.
    pub fn wall_collide(&self, field: &Rect) -> (hit: bool)
        requires
            self.wf(),
        ensures
            hit == chain::wall_collides(self@, *field),
    {
        assert(self@.last().wf());
        !field.encloses(&self.head().get_bbox())
    }
}

} // verus!

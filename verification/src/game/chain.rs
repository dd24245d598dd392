//! The body as a sequence of segments, tail first and head last: what a
//! valid body is, what the operations on it give, and what holds of them.

use vstd::prelude::*;
use crate::game::consts;
use crate::game::direction::Direction;
use crate::game::line::Line;
use crate::game::line::lemma_line_fresh;
use crate::game::line::lemma_line_grown;
use crate::game::line::lemma_line_shrunk;
use crate::game::rect::Rect;

verus! {

/// Every segment is valid.
pub open spec fn segments_wf(s: Seq<Line>) -> bool {
    forall|i: int| 0 <= i < s.len() ==> (#[trigger] s[i]).wf()
}

/// The segment `b` follows the segment `a` in a body: it starts where `a`
/// ends, and it lies on the other axis.
pub open spec fn joined(a: Line, b: Line) -> bool {
    a.end == b.beg && !a.dir.colinear(b.dir)
}

/// The segments at `i` and `i + 1` are joined.
pub open spec fn joint(s: Seq<Line>, i: int) -> bool {
    joined(s[i], s[i + 1])
}

/// The body is continuous, and it turns wherever two segments meet.
pub open spec fn jointed(s: Seq<Line>) -> bool {
    forall|i: int| 0 <= i < s.len() - 1 ==> #[trigger] joint(s, i)
}

/// A valid body has at least one segment, its segments are valid, each
/// starts where the one before it ends, and no two neighbours lie on the
/// same axis.
pub open spec fn wf(s: Seq<Line>) -> bool {
    &&& s.len() > 0
    &&& segments_wf(s)
    &&& jointed(s)
}

/// The sum of the segments' sizes.
pub open spec fn total_length(s: Seq<Line>) -> int
    decreases s.len(),
{
    if s.len() == 0 {
        0
    } else {
        s[0].spec_size() + total_length(s.drop_first())
    }
}

/// The body with its head grown by `dist`.
pub open spec fn grown(s: Seq<Line>, dist: int) -> Seq<Line> {
    s.update(s.len() - 1, s.last().grown(dist))
}

/// The body with `dist` taken off at the tail: a tail segment shorter than
/// what is still to be taken leaves the body, and the rest is taken off the
/// next one.
pub open spec fn retracted(s: Seq<Line>, dist: int) -> Seq<Line>
    decreases s.len(),
{
    if s.len() == 0 {
        s
    } else if dist > s[0].spec_size() {
        retracted(s.drop_first(), dist - s[0].spec_size())
    } else {
        s.update(0, s[0].shrunk(dist))
    }
}

/// The body moved ahead by `dist`: grown at the head, retracted at the tail.
pub open spec fn moved(s: Seq<Line>, dist: int) -> Seq<Line> {
    retracted(grown(s, dist), dist)
}

/// The body moved ahead by each of `dists` in turn.
pub open spec fn moved_all(s: Seq<Line>, dists: Seq<int>) -> Seq<Line>
    decreases dists.len(),
{
    if dists.len() == 0 {
        s
    } else {
        moved(moved_all(s, dists.drop_last()), dists.last())
    }
}

/// The body after a request to go `dir`: unchanged if `dir` lies on the axis
/// of travel, else with a fresh segment going `dir` at the head.
pub open spec fn turned(s: Seq<Line>, dir: Direction) -> Seq<Line> {
    if dir.colinear(s.last().dir) {
        s
    } else {
        s.push(Line::fresh(s.last().end, dir))
    }
}

/// Some segment's box overlaps `area`.
pub open spec fn collides(s: Seq<Line>, area: Rect) -> bool {
    exists|i: int| 0 <= i < s.len() && (#[trigger] s[i]).bbox().overlaps(&area)
}

/// The head's box overlaps the box of a segment other than the head itself
/// and the one just before it.
pub open spec fn self_collides(s: Seq<Line>) -> bool {
    exists|i: int| 0 <= i < s.len() - 2 && (#[trigger] s[i]).bbox().overlaps(&s.last().bbox())
}

/// Part of the head's box lies outside `field`.
pub open spec fn wall_collides(s: Seq<Line>, field: Rect) -> bool {
    !field.encloses(&s.last().bbox())
}

/// The length of a body is the length without its last segment plus the
/// size of that segment.
pub proof fn lemma_total_length_push(s: Seq<Line>, line: Line)
    ensures
        total_length(s.push(line)) == total_length(s) + line.spec_size(),
    decreases s.len(),
{
    if s.len() == 0 {
        assert(s.push(line).drop_first() =~= s);
    } else {
        assert(s.push(line).drop_first() =~= s.drop_first().push(line));
        lemma_total_length_push(s.drop_first(), line);
    }
}

/// Replacing one segment changes the length by the difference of the sizes.
pub proof fn lemma_total_length_update(s: Seq<Line>, i: int, line: Line)
    requires
        0 <= i < s.len(),
    ensures
        total_length(s.update(i, line)) == total_length(s) - s[i].spec_size() + line.spec_size(),
    decreases s.len(),
{
    if i == 0 {
        assert(s.update(i, line).drop_first() =~= s.drop_first());
    } else {
        assert(s.update(i, line).drop_first() =~= s.drop_first().update(i - 1, line));
        lemma_total_length_update(s.drop_first(), i - 1, line);
    }
}

/// A body is at least as long as its head.
pub proof fn lemma_total_length_covers_head(s: Seq<Line>)
    requires
        s.len() > 0,
    ensures
        total_length(s) >= s.last().spec_size(),
        total_length(s) >= 0,
    decreases s.len(),
{
    if s.len() > 1 {
        lemma_total_length_covers_head(s.drop_first());
    } else {
        assert(total_length(s.drop_first()) == 0);
    }
}

/// Without its first segment a valid body of two or more segments is valid.
pub proof fn lemma_drop_first_wf(s: Seq<Line>)
    requires
        wf(s),
        s.len() > 1,
    ensures
        wf(s.drop_first()),
        s.drop_first().last() == s.last(),
{
    let t = s.drop_first();
    assert forall|i: int| 0 <= i < t.len() implies (#[trigger] t[i]).wf() by {
        assert(s[i + 1].wf());
    }
    assert forall|i: int| 0 <= i < t.len() - 1 implies #[trigger] joint(t, i) by {
        assert(joint(s, i + 1));
    }
}

/// Growth keeps every segment but the head, adds exactly `dist` to the
/// length, and keeps the body valid.
pub proof fn lemma_grown(s: Seq<Line>, dist: int)
    requires
        wf(s),
        0 <= dist <= s.last().room(),
    ensures
        wf(grown(s, dist)),
        grown(s, dist).len() == s.len(),
        forall|i: int| 0 <= i < s.len() - 1 ==> grown(s, dist)[i] == s[i],
        grown(s, dist).last() == s.last().grown(dist),
        grown(s, dist).last().spec_size() == s.last().spec_size() + dist,
        grown(s, dist).last().room() == s.last().room() - dist,
        total_length(grown(s, dist)) == total_length(s) + dist,
{
    let g = grown(s, dist);
    let head = s.last();
    assert(head.wf());
    lemma_line_grown(head, dist);
    assert forall|i: int| 0 <= i < g.len() implies (#[trigger] g[i]).wf() by {
        if i < s.len() - 1 {
            assert(s[i].wf());
        }
    }
    assert forall|i: int| 0 <= i < g.len() - 1 implies #[trigger] joint(g, i) by {
        assert(joint(s, i));
    }
    lemma_total_length_update(s, s.len() - 1, head.grown(dist));
}

/// Retraction by no more than the body's length takes exactly `dist` off
/// the length and leaves a valid body with the same leading point and
/// direction.
pub proof fn lemma_retracted(s: Seq<Line>, dist: int)
    requires
        wf(s),
        0 <= dist <= total_length(s),
    ensures
        wf(retracted(s, dist)),
        retracted(s, dist).len() <= s.len(),
        retracted(s, dist).last().end == s.last().end,
        retracted(s, dist).last().dir == s.last().dir,
        total_length(retracted(s, dist)) == total_length(s) - dist,
    decreases s.len(),
{
    let first = s[0];
    assert(first.wf());
    if dist > first.spec_size() {
        if s.len() == 1 {
            assert(total_length(s.drop_first()) == 0);
        }
        lemma_drop_first_wf(s);
        lemma_retracted(s.drop_first(), dist - first.spec_size());
    } else {
        let r = s.update(0, first.shrunk(dist));
        lemma_line_shrunk(first, dist);
        assert forall|i: int| 0 <= i < r.len() implies (#[trigger] r[i]).wf() by {
            if i > 0 {
                assert(s[i].wf());
            }
        }
        assert forall|i: int| 0 <= i < r.len() - 1 implies #[trigger] joint(r, i) by {
            assert(joint(s, i));
        }
        lemma_total_length_update(s, 0, first.shrunk(dist));
    }
}

/// A move keeps the body valid and its length unchanged, and takes the
/// leading point `dist` ahead.
pub proof fn lemma_moved(s: Seq<Line>, dist: int)
    requires
        wf(s),
        0 <= dist <= s.last().room(),
    ensures
        wf(moved(s, dist)),
        total_length(moved(s, dist)) == total_length(s),
        moved(s, dist).len() <= s.len(),
        moved(s, dist).last().end == s.last().end.stepped(s.last().dir, dist),
        moved(s, dist).last().dir == s.last().dir,
        moved(s, dist).last().room() == s.last().room() - dist,
{
    lemma_grown(s, dist);
    lemma_total_length_covers_head(grown(s, dist));
    lemma_retracted(grown(s, dist), dist);
}

/// The sum of the distances.
pub open spec fn total_distance(dists: Seq<int>) -> int
    decreases dists.len(),
{
    if dists.len() == 0 {
        0
    } else {
        total_distance(dists.drop_last()) + dists.last()
    }
}

/// However many moves are made one after another, the body stays valid and
/// its length stays what it was.
pub proof fn lemma_moves_conserve_length(s: Seq<Line>, dists: Seq<int>)
    requires
        wf(s),
        forall|i: int| 0 <= i < dists.len() ==> 0 <= #[trigger] dists[i],
        total_distance(dists) <= s.last().room(),
    ensures
        wf(moved_all(s, dists)),
        total_length(moved_all(s, dists)) == total_length(s),
        moved_all(s, dists).last().room() == s.last().room() - total_distance(dists),
        total_distance(dists) >= 0,
    decreases dists.len(),
{
    if dists.len() > 0 {
        let before = dists.drop_last();
        assert forall|i: int| 0 <= i < before.len() implies 0 <= #[trigger] before[i] by {
            assert(before[i] == dists[i]);
        }
        assert(0 <= dists[dists.len() - 1]);
        if before.len() == 0 {
            assert(total_distance(before) == 0);
        } else {
            lemma_total_distance_nonnegative(before);
        }
        lemma_moves_conserve_length(s, before);
        lemma_moved(moved_all(s, before), dists.last());
    }
}

/// A sum of distances that are not negative is not negative.
pub proof fn lemma_total_distance_nonnegative(dists: Seq<int>)
    requires
        forall|i: int| 0 <= i < dists.len() ==> 0 <= #[trigger] dists[i],
    ensures
        total_distance(dists) >= 0,
    decreases dists.len(),
{
    if dists.len() > 0 {
        let before = dists.drop_last();
        assert forall|i: int| 0 <= i < before.len() implies 0 <= #[trigger] before[i] by {
            assert(before[i] == dists[i]);
        }
        assert(0 <= dists[dists.len() - 1]);
        lemma_total_distance_nonnegative(before);
    }
}

/// A move by more than the size of the tail segment, where the tail is not
/// the head, removes that segment and takes what is left of the distance
/// off the segments after it. A move by no more than that size keeps every
/// segment and shortens the tail. Either way the retraction takes exactly
/// `dist` off the grown body.
pub proof fn lemma_move_prunes_short_tail(s: Seq<Line>, dist: int)
    requires
        wf(s),
        s.len() >= 2,
        0 <= dist <= s.last().room(),
    ensures
        dist > s[0].spec_size() ==> moved(s, dist) == retracted(
            grown(s, dist).drop_first(),
            dist - s[0].spec_size(),
        ) && moved(s, dist).len() < s.len(),
        dist <= s[0].spec_size() ==> moved(s, dist) == grown(s, dist).update(
            0,
            s[0].shrunk(dist),
        ) && moved(s, dist).len() == s.len(),
        total_length(grown(s, dist)) - total_length(moved(s, dist)) == dist,
{
    let g = grown(s, dist);
    lemma_grown(s, dist);
    lemma_moved(s, dist);
    assert(g[0] == s[0]);
    if dist > s[0].spec_size() {
        lemma_drop_first_wf(g);
        let rest = g.drop_first();
        lemma_total_length_covers_head(rest);
        lemma_retracted(rest, dist - s[0].spec_size());
    }
}

/// A turn keeps the body valid and every segment it had. A turn onto the
/// other axis adds a segment of the smallest length at the leading point;
/// a turn along the axis of travel changes nothing.
pub proof fn lemma_turned(s: Seq<Line>, dir: Direction)
    requires
        wf(s),
        !dir.colinear(s.last().dir) ==> consts::EPSILON <= s.last().end.room(dir),
    ensures
        wf(turned(s, dir)),
        forall|i: int| 0 <= i < s.len() ==> turned(s, dir)[i] == s[i],
        dir.colinear(s.last().dir) ==> turned(s, dir) == s,
        !dir.colinear(s.last().dir) ==> {
            &&& turned(s, dir).len() == s.len() + 1
            &&& turned(s, dir).last().dir == dir
            &&& turned(s, dir).last().beg == s.last().end
            &&& total_length(turned(s, dir)) == total_length(s) + consts::EPSILON
        },
{
    if !dir.colinear(s.last().dir) {
        let head = s.last();
        let line = Line::fresh(head.end, dir);
        let t = s.push(line);
        assert(head.wf());
        lemma_line_fresh(head.end, dir);
        assert forall|i: int| 0 <= i < t.len() implies (#[trigger] t[i]).wf() by {
            if i < s.len() {
                assert(s[i].wf());
            }
        }
        assert forall|i: int| 0 <= i < t.len() - 1 implies #[trigger] joint(t, i) by {
            if i < s.len() - 1 {
                assert(joint(s, i));
            }
        }
        lemma_total_length_push(s, line);
    }
}

/// The head is never held against itself or against the segment just
/// before it: a body of one or two segments does not collide with itself,
/// and whether a longer one does is the same whatever the segment before
/// the head is.
pub proof fn lemma_self_collision_skips_neighbour(s: Seq<Line>, other: Line)
    ensures
        s.len() <= 2 ==> !self_collides(s),
        s.len() >= 2 ==> self_collides(s.update(s.len() - 2, other)) == self_collides(s),
{
    if s.len() >= 2 {
        let t = s.update(s.len() - 2, other);
        assert(t.last() == s.last());
        if self_collides(s) {
            let i = choose|i: int|
                0 <= i < s.len() - 2 && (#[trigger] s[i]).bbox().overlaps(&s.last().bbox());
            assert(t[i] == s[i]);
        }
        if self_collides(t) {
            let i = choose|i: int|
                0 <= i < t.len() - 2 && (#[trigger] t[i]).bbox().overlaps(&t.last().bbox());
            assert(t[i] == s[i]);
        }
    }
}

} // verus!

use snake::game::coords::Coords;
use snake::game::direction::Direction;

#[test]
fn unit_vectors_point_the_right_way() {
    assert_eq!(Direction::UP.as_coords(), Coords { x: 0, y: -1 });
    assert_eq!(Direction::DOWN.as_coords(), Coords { x: 0, y: 1 });
    assert_eq!(Direction::LEFT.as_coords(), Coords { x: -1, y: 0 });
    assert_eq!(Direction::RIGHT.as_coords(), Coords { x: 1, y: 0 });
}

#[test]
fn directions_on_one_axis_are_colinear() {
    assert!(Direction::UP.is_colinear(Direction::DOWN));
    assert!(Direction::DOWN.is_colinear(Direction::UP));
    assert!(Direction::LEFT.is_colinear(Direction::RIGHT));
    assert!(Direction::RIGHT.is_colinear(Direction::LEFT));
}

#[test]
fn a_direction_is_colinear_with_itself() {
    let all = [Direction::UP, Direction::DOWN, Direction::LEFT, Direction::RIGHT];
    for d in all {
        assert!(d.is_colinear(d));
        assert!(!d.is_turn(d));
    }
}

#[test]
fn directions_on_different_axes_are_not_colinear() {
    let vertical = [Direction::UP, Direction::DOWN];
    let horizontal = [Direction::LEFT, Direction::RIGHT];
    for v in vertical {
        for h in horizontal {
            assert!(!v.is_colinear(h));
            assert!(!h.is_colinear(v));
            assert!(v.is_turn(h));
            assert!(h.is_turn(v));
        }
    }
}

#[test]
fn colinearity_is_symmetric() {
    let all = [Direction::UP, Direction::DOWN, Direction::LEFT, Direction::RIGHT];
    for a in all {
        for b in all {
            assert_eq!(a.is_colinear(b), b.is_colinear(a));
            assert_eq!(a.is_turn(b), !a.is_colinear(b));
        }
    }
}

#[test]
fn coords_add_and_scale() {
    let a = Coords::new(3, -4);
    let b = Coords::new(10, 20);
    assert_eq!(a + b, Coords { x: 13, y: 16 });
    assert_eq!(a * 5, Coords { x: 15, y: -20 });
    assert_eq!(b + Direction::UP.as_coords() * 7, Coords { x: 10, y: 13 });
}

#[test]
fn coords_bounds_end_at_the_limit() {
    let limit: i64 = snake::game::consts::COORD_LIMIT;
    assert!(Coords::new(0, 0).is_bounded());
    assert!(Coords::new(limit, -limit).is_bounded());
    assert!(!Coords::new(limit + 1, 0).is_bounded());
    assert!(!Coords::new(0, -limit - 1).is_bounded());
}

use snake::game::rect::Rect;

#[test]
fn rects_with_common_area_overlap() {
    let a = Rect::new(0, 0, 10, 10);
    let b = Rect::new(5, 5, 10, 10);
    assert!(a.overlaps(&b));
    assert!(b.overlaps(&a));
}

#[test]
fn a_rect_inside_another_overlaps_it() {
    let outer = Rect::new(0, 0, 100, 100);
    let inner = Rect::new(40, 40, 10, 10);
    assert!(outer.overlaps(&inner));
    assert!(inner.overlaps(&outer));
    assert!(outer.overlaps(&outer));
}

#[test]
fn rects_apart_do_not_overlap() {
    let a = Rect::new(0, 0, 10, 10);
    assert!(!a.overlaps(&Rect::new(20, 0, 10, 10)));
    assert!(!a.overlaps(&Rect::new(0, 20, 10, 10)));
    assert!(!a.overlaps(&Rect::new(-30, -30, 10, 10)));
}

#[test]
fn rects_sharing_an_edge_do_not_overlap() {
    let a = Rect::new(0, 0, 10, 10);
    assert!(!a.overlaps(&Rect::new(10, 0, 10, 10)));
    assert!(!a.overlaps(&Rect::new(0, 10, 10, 10)));
    assert!(!a.overlaps(&Rect::new(-10, 0, 10, 10)));
    assert!(!a.overlaps(&Rect::new(0, -10, 10, 10)));
}

#[test]
fn rects_sharing_a_corner_do_not_overlap() {
    let a = Rect::new(0, 0, 10, 10);
    assert!(!a.overlaps(&Rect::new(10, 10, 10, 10)));
    assert!(!a.overlaps(&Rect::new(-10, -10, 10, 10)));
}

#[test]
fn a_rect_without_area_overlaps_nothing() {
    let big = Rect::new(0, 0, 100, 100);
    let flat = Rect::new(10, 50, 30, 0);
    let thin = Rect::new(50, 10, 0, 30);
    assert!(!big.overlaps(&flat));
    assert!(!flat.overlaps(&big));
    assert!(!big.overlaps(&thin));
    assert!(!thin.overlaps(&big));
}

#[test]
fn overlap_by_one_tick_counts() {
    let a = Rect::new(0, 0, 10, 10);
    assert!(a.overlaps(&Rect::new(9, 9, 10, 10)));
}

#[test]
fn overlap_does_not_overflow_at_the_ends_of_the_range() {
    let a = Rect::new(i64::MAX - 5, i64::MAX - 5, i64::MAX, i64::MAX);
    let b = Rect::new(i64::MAX - 2, i64::MAX - 2, 10, 10);
    assert!(a.overlaps(&b));
    assert!(!a.overlaps(&Rect::new(i64::MIN, i64::MIN, 10, 10)));
}

#[test]
fn encloses_accepts_a_rect_inside_or_on_the_edge() {
    let field = Rect::new(0, 0, 100, 50);
    assert!(field.encloses(&Rect::new(10, 10, 20, 20)));
    assert!(field.encloses(&Rect::new(0, 0, 100, 50)));
    assert!(field.encloses(&Rect::new(80, 30, 20, 20)));
}

#[test]
fn encloses_refuses_a_rect_that_sticks_out() {
    let field = Rect::new(0, 0, 100, 50);
    assert!(!field.encloses(&Rect::new(-1, 10, 20, 20)));
    assert!(!field.encloses(&Rect::new(10, -1, 20, 20)));
    assert!(!field.encloses(&Rect::new(81, 10, 20, 20)));
    assert!(!field.encloses(&Rect::new(10, 31, 20, 20)));
    assert!(!field.encloses(&Rect::new(200, 200, 5, 5)));
}

//! Rectangles and points on a desktop with several displays.

use pinwall::geom::{distance_to_segment_at_most, Point, Rect, Size};

fn u(v: f64) -> i64 {
    (v * 1_000_000.0).round() as i64
}

fn point(x: f64, y: f64) -> Point {
    Point::new(u(x), u(y))
}

fn rect(x: f64, y: f64, w: f64, h: f64) -> Rect {
    Rect::from_xywh(u(x), u(y), u(w), u(h))
}

/// A primary display at the origin and a secondary one to its left.
fn layout() -> (Rect, Rect) {
    (rect(0.0, 0.0, 1470.0, 956.0), rect(-1920.0, 0.0, 1920.0, 1080.0))
}

#[test]
fn union_handles_negative_origin() {
    let (primary, secondary) = layout();
    let union = primary.union(&secondary);
    assert_eq!(union.origin, point(-1920.0, 0.0));
    assert_eq!(union.size, Size::new(u(3390.0), u(1080.0)));
}

#[test]
fn union_is_commutative() {
    let (a, b) = layout();
    assert_eq!(a.union(&b), b.union(&a));
}

#[test]
fn contains_respects_negative_coordinates() {
    let (primary, secondary) = layout();
    assert!(secondary.contains(point(-960.0, 540.0)));
    assert!(!primary.contains(point(-960.0, 540.0)));
    assert!(primary.contains(point(735.0, 478.0)));
    assert!(!secondary.contains(point(735.0, 478.0)));
}

#[test]
fn contains_is_half_open() {
    let r = rect(0.0, 0.0, 10.0, 10.0);
    assert!(r.contains(point(0.0, 0.0)), "the upper left corner belongs to it");
    assert!(!r.contains(point(10.0, 5.0)), "the right edge does not");
    assert!(!r.contains(point(5.0, 10.0)), "the lower edge does not");
}

#[test]
fn adjacent_screens_do_not_overlap_or_gap() {
    let (primary, secondary) = layout();
    let boundary = point(0.0, 300.0);
    assert!(primary.contains(boundary));
    assert!(!secondary.contains(boundary));
    let just_left = point(-0.001, 300.0);
    assert!(!primary.contains(just_left));
    assert!(secondary.contains(just_left));
}

#[test]
fn rectangles_between_points_are_normalized() {
    let r = Rect::from_points(point(30.0, 5.0), point(10.0, 45.0));
    assert_eq!(r, rect(10.0, 5.0, 20.0, 40.0));
    assert_eq!(r, Rect::from_points(point(10.0, 45.0), point(30.0, 5.0)));
}

#[test]
fn intersections_are_what_two_rectangles_share() {
    let a = rect(0.0, 0.0, 10.0, 10.0);
    assert_eq!(a.intersection(&rect(5.0, -5.0, 10.0, 10.0)), Some(rect(5.0, 0.0, 5.0, 5.0)));
    assert_eq!(a.intersection(&rect(10.0, 0.0, 5.0, 5.0)), None);
    assert_eq!(a.area(), 100 * 1_000_000i128 * 1_000_000i128);
}

#[test]
fn vectors_are_measured_exactly() {
    let v = point(3.0, 4.0);
    assert!(v.within(u(5.0)));
    assert!(!v.within(u(5.0) - 1));
    assert!(!v.shorter_than(u(5.0)));
    assert!(v.shorter_than(u(5.0) + 1));
    assert_eq!(point(5.0, 7.0).minus(point(2.0, 3.0)), v);
    assert_eq!(point(2.0, 3.0).plus(v), point(5.0, 7.0));
}

#[test]
fn distances_to_segments_end_at_their_ends() {
    let (a, b) = (point(0.0, 0.0), point(10.0, 0.0));
    assert!(distance_to_segment_at_most(point(5.0, 6.0), a, b, u(6.0)));
    assert!(!distance_to_segment_at_most(point(5.0, 6.0), a, b, u(6.0) - 1));
    assert!(distance_to_segment_at_most(point(13.0, 4.0), a, b, u(5.0)));
    assert!(!distance_to_segment_at_most(point(13.0, 4.0), a, b, u(5.0) - 1));
    assert!(distance_to_segment_at_most(point(3.0, 4.0), a, a, u(5.0)));
    assert!(!distance_to_segment_at_most(point(3.0, 4.0), a, a, u(4.9)));
}

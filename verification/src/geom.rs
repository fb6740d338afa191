//! Points, sizes and rectangles.
//!
//! The origin is the top left corner of the primary display and `y` grows
//! downwards. Displays to the left of or above the primary one have negative
//! coordinates. All numbers are fixed point numbers (see [`crate::fixed`])
//! that stand for logical points.

use vstd::prelude::*;

use crate::fixed;
use crate::fixed::{larger_of, minus, plus, smaller_of, wide_product, MAX_FIXED};
use crate::wide::product_at_most;

verus! {

/// Coordinates of at most this magnitude are far enough from the ends of the
/// number range that differences of them are exact.
pub const COORDINATE_LIMIT: i64 = 4_000_000_000_000_000_000;

pub open spec fn moderate(v: int) -> bool {
    -COORDINATE_LIMIT <= v <= COORDINATE_LIMIT
}

/// A point, or the vector from one point to another.
#[derive(Debug, Clone, Copy, PartialEq, Eq, Structural)]
pub struct Point {
    pub x: i64,
    pub y: i64,
}

#[derive(Debug, Clone, Copy, PartialEq, Eq, Structural)]
pub struct Size {
    pub width: i64,
    pub height: i64,
}

/// A rectangle; `origin` is its top left corner.
#[derive(Debug, Clone, Copy, PartialEq, Eq, Structural)]
pub struct Rect {
    pub origin: Point,
    pub size: Size,
}

pub open spec fn square(v: int) -> int {
    v * v
}

/// The inner product of two vectors.
pub open spec fn dot(a: Point, b: Point) -> int {
    a.x * b.x + a.y * b.y
}

/// The outer product of two vectors.
pub open spec fn cross(a: Point, b: Point) -> int {
    a.x * b.y - a.y * b.x
}

impl Point {
    pub open spec fn spec_new(x: i64, y: i64) -> Point {
        Point { x, y }
    }

    #[verifier::when_used_as_spec(spec_new)]
    pub fn new(x: i64, y: i64) -> (r: Point)
        ensures
            r == (Point { x, y }),
    {
        Point { x, y }
    }

    pub open spec fn spec_minus(self, other: Point) -> Point {
        Point {
            x: fixed::clamped(self.x - other.x),
            y: fixed::clamped(self.y - other.y),
        }
    }

    /// The vector from `other` to this point.
    #[verifier::when_used_as_spec(spec_minus)]
    pub fn minus(self, other: Point) -> (r: Point)
        ensures
            r == self.spec_minus(other),
    {
        Point { x: minus(self.x, other.x), y: minus(self.y, other.y) }
    }

    pub open spec fn spec_plus(self, other: Point) -> Point {
        Point {
            x: fixed::clamped(self.x + other.x),
            y: fixed::clamped(self.y + other.y),
        }
    }

    /// This point moved by a vector.
    #[verifier::when_used_as_spec(spec_plus)]
    pub fn plus(self, other: Point) -> (r: Point)
        ensures
            r == self.spec_plus(other),
    {
        Point { x: plus(self.x, other.x), y: plus(self.y, other.y) }
    }

    pub open spec fn moderate(self) -> bool {
        moderate(self.x as int) && moderate(self.y as int)
    }

    /// The vector is no longer than `radius`.
    pub open spec fn spec_within(self, radius: i64) -> bool {
        radius >= 0 && dot(self, self) <= square(radius as int)
    }

    /// Whether the vector is no longer than `radius`.
    #[verifier::when_used_as_spec(spec_within)]
    pub fn within(self, radius: i64) -> (r: bool)
        ensures
            r == self.spec_within(radius),
    {
        radius >= 0 && squared_length(self) <= squared(radius)
    }

    /// The vector is shorter than `radius`.
    pub open spec fn spec_shorter_than(self, radius: i64) -> bool {
        radius > 0 && dot(self, self) < square(radius as int)
    }

    /// Whether the vector is shorter than `radius`.
    #[verifier::when_used_as_spec(spec_shorter_than)]
    pub fn shorter_than(self, radius: i64) -> (r: bool)
        ensures
            r == self.spec_shorter_than(radius),
    {
        radius > 0 && squared_length(self) < squared(radius)
    }
}

proof fn lemma_square_bound(v: int)
    by (nonlinear_arith)
    requires
        -0x8000_0000_0000_0000 <= v <= 0x7fff_ffff_ffff_ffff,
    ensures
        0 <= v * v <= 0x4000_0000_0000_0000_0000_0000_0000_0000,
        v >= -0x7fff_ffff_ffff_ffff ==> v * v <= 0x3fff_ffff_ffff_ffff_0000_0000_0000_0001,
{
}

fn squared(v: i64) -> (r: u128)
    ensures
        r == square(v as int),
        r <= 0x4000_0000_0000_0000_0000_0000_0000_0000,
{
    proof {
        lemma_square_bound(v as int);
    }
    wide_product(v, v) as u128
}

fn squared_length(v: Point) -> (r: u128)
    ensures
        r == dot(v, v),
{
    squared(v.x) + squared(v.y)
}

proof fn lemma_clamped_product(a: int, b: int)
    by (nonlinear_arith)
    requires
        -0x7fff_ffff_ffff_ffff <= a <= 0x7fff_ffff_ffff_ffff,
        -0x7fff_ffff_ffff_ffff <= b <= 0x7fff_ffff_ffff_ffff,
    ensures
        -0x3fff_ffff_ffff_ffff_0000_0000_0000_0001 <= a * b
            <= 0x3fff_ffff_ffff_ffff_0000_0000_0000_0001,
{
}

spec fn symmetric(v: Point) -> bool {
    -MAX_FIXED <= v.x && -MAX_FIXED <= v.y
}

fn inner(a: Point, b: Point) -> (r: i128)
    requires
        symmetric(a),
        symmetric(b),
    ensures
        r == dot(a, b),
{
    proof {
        lemma_clamped_product(a.x as int, b.x as int);
        lemma_clamped_product(a.y as int, b.y as int);
    }
    wide_product(a.x, b.x) + wide_product(a.y, b.y)
}

fn outer(a: Point, b: Point) -> (r: i128)
    requires
        symmetric(a),
        symmetric(b),
    ensures
        r == cross(a, b),
        r > i128::MIN,
{
    proof {
        lemma_clamped_product(a.x as int, b.y as int);
        lemma_clamped_product(a.y as int, b.x as int);
    }
    wide_product(a.x, b.y) - wide_product(a.y, b.x)
}

/// The distance from `p` to the segment between `a` and `b` is at most
/// `radius`: the foot of the perpendicular decides where it falls inside of
/// the segment, the nearer end elsewhere.
pub open spec fn near_segment(p: Point, a: Point, b: Point, radius: i64) -> bool {
    let ab = b.minus(a);
    let ap = p.minus(a);
    if dot(ap, ab) <= 0 {
        ap.within(radius)
    } else if dot(ap, ab) >= dot(ab, ab) {
        p.minus(b).within(radius)
    } else {
        radius >= 0 && square(cross(ab, ap)) <= square(radius as int) * dot(ab, ab)
    }
}

/// Whether the distance from `p` to the segment between `a` and `b` is at
/// most `radius`.
pub fn distance_to_segment_at_most(p: Point, a: Point, b: Point, radius: i64) -> (r: bool)
    ensures
        r == near_segment(p, a, b, radius),
{
    let ab: Point = b.minus(a);
    let ap: Point = p.minus(a);
    let length: i128 = inner(ab, ab);
    let along: i128 = inner(ap, ab);
    if along <= 0 {
        return ap.within(radius);
    }
    if along >= length {
        return p.minus(b).within(radius);
    }
    if radius < 0 {
        return false;
    }
    let c: i128 = outer(ab, ap);
    let m: u128 = if c < 0 {
        (-c) as u128
    } else {
        c as u128
    };
    proof {
        assert(m * m == c * c) by (nonlinear_arith)
            requires
                m == c || m == -c,
        ;
    }
    product_at_most(m, m, squared(radius), length as u128)
}

impl Rect {
    pub open spec fn spec_new(origin: Point, size: Size) -> Rect {
        Rect { origin, size }
    }

    #[verifier::when_used_as_spec(spec_new)]
    pub fn new(origin: Point, size: Size) -> (r: Rect)
        ensures
            r == (Rect { origin, size }),
    {
        Rect { origin, size }
    }

    pub open spec fn spec_from_xywh(x: i64, y: i64, width: i64, height: i64) -> Rect {
        Rect { origin: Point { x, y }, size: Size { width, height } }
    }

    #[verifier::when_used_as_spec(spec_from_xywh)]
    pub fn from_xywh(x: i64, y: i64, width: i64, height: i64) -> (r: Rect)
        ensures
            r == Rect::spec_from_xywh(x, y, width, height),
    {
        Rect { origin: Point { x, y }, size: Size { width, height } }
    }

    pub open spec fn spec_from_points(a: Point, b: Point) -> Rect {
        let x = fixed::smaller(a.x as int, b.x as int) as i64;
        let y = fixed::smaller(a.y as int, b.y as int) as i64;
        let mx = fixed::larger(a.x as int, b.x as int);
        let my = fixed::larger(a.y as int, b.y as int);
        Rect::from_xywh(x, y, fixed::clamped(mx - x), fixed::clamped(my - y))
    }

    /// The rectangle that has `a` and `b` as opposite corners, whichever of
    /// them is the upper and the left one.
    #[verifier::when_used_as_spec(spec_from_points)]
    pub fn from_points(a: Point, b: Point) -> (r: Rect)
        ensures
            r == Rect::spec_from_points(a, b),
    {
        let x: i64 = smaller_of(a.x, b.x);
        let y: i64 = smaller_of(a.y, b.y);
        Rect::from_xywh(x, y, minus(larger_of(a.x, b.x), x), minus(larger_of(a.y, b.y), y))
    }

    pub open spec fn spec_max_x(&self) -> i64 {
        fixed::clamped(self.origin.x + self.size.width)
    }

    /// The right edge.
    #[verifier::when_used_as_spec(spec_max_x)]
    pub fn max_x(&self) -> (r: i64)
        ensures
            r == self.spec_max_x(),
    {
        plus(self.origin.x, self.size.width)
    }

    pub open spec fn spec_max_y(&self) -> i64 {
        fixed::clamped(self.origin.y + self.size.height)
    }

    /// The lower edge.
    #[verifier::when_used_as_spec(spec_max_y)]
    pub fn max_y(&self) -> (r: i64)
        ensures
            r == self.spec_max_y(),
    {
        plus(self.origin.y, self.size.height)
    }

    pub open spec fn spec_union(&self, other: &Rect) -> Rect {
        let x = fixed::smaller(self.origin.x as int, other.origin.x as int) as i64;
        let y = fixed::smaller(self.origin.y as int, other.origin.y as int) as i64;
        let mx = fixed::larger(self.max_x() as int, other.max_x() as int);
        let my = fixed::larger(self.max_y() as int, other.max_y() as int);
        Rect::from_xywh(x, y, fixed::clamped(mx - x), fixed::clamped(my - y))
    }

    /// The smallest rectangle around two rectangles.
    ///
    /// It serves to convert and to compare coordinates. A window cannot span
    /// displays that have their own spaces, so it is no frame for an overlay
    /// over all displays.
    #[verifier::when_used_as_spec(spec_union)]
    pub fn union(&self, other: &Rect) -> (r: Rect)
        ensures
            r == self.spec_union(other),
    {
        let x: i64 = smaller_of(self.origin.x, other.origin.x);
        let y: i64 = smaller_of(self.origin.y, other.origin.y);
        let mx: i64 = larger_of(self.max_x(), other.max_x());
        let my: i64 = larger_of(self.max_y(), other.max_y());
        Rect::from_xywh(x, y, minus(mx, x), minus(my, y))
    }

    pub open spec fn spec_contains(&self, p: Point) -> bool {
        self.origin.x <= p.x < self.max_x() && self.origin.y <= p.y < self.max_y()
    }

    /// Whether `p` lies in the rectangle. The left and the upper edge belong
    /// to it, the right and the lower edge do not.
    #[verifier::when_used_as_spec(spec_contains)]
    pub fn contains(&self, p: Point) -> (r: bool)
        ensures
            r == self.spec_contains(p),
    {
        p.x >= self.origin.x && p.x < self.max_x() && p.y >= self.origin.y && p.y < self.max_y()
    }

    pub open spec fn spec_intersection(&self, other: &Rect) -> Option<Rect> {
        let x = fixed::larger(self.origin.x as int, other.origin.x as int) as i64;
        let y = fixed::larger(self.origin.y as int, other.origin.y as int) as i64;
        let mx = fixed::smaller(self.max_x() as int, other.max_x() as int);
        let my = fixed::smaller(self.max_y() as int, other.max_y() as int);
        if x < mx && y < my {
            Some(
                Rect::from_xywh(x, y, fixed::clamped(mx - x), fixed::clamped(my - y)),
            )
        } else {
            None
        }
    }

    /// What two rectangles have in common, if they have a point in common.
    #[verifier::when_used_as_spec(spec_intersection)]
    pub fn intersection(&self, other: &Rect) -> (r: Option<Rect>)
        ensures
            r == self.spec_intersection(other),
    {
        let x: i64 = larger_of(self.origin.x, other.origin.x);
        let y: i64 = larger_of(self.origin.y, other.origin.y);
        let mx: i64 = smaller_of(self.max_x(), other.max_x());
        let my: i64 = smaller_of(self.max_y(), other.max_y());
        if x < mx && y < my {
            Some(Rect::from_xywh(x, y, minus(mx, x), minus(my, y)))
        } else {
            None
        }
    }

    /// The area, in units of which `UNIT * UNIT` make a square point.
    pub fn area(&self) -> (r: i128)
        ensures
            r == self.size.width * self.size.height,
    {
        wide_product(self.size.width, self.size.height)
    }

    /// The edges lie well inside of the number range and the size is not
    /// negative.
    pub open spec fn moderate(self) -> bool {
        &&& self.origin.moderate()
        &&& self.size.width >= 0
        &&& self.size.height >= 0
        &&& moderate(self.origin.x + self.size.width)
        &&& moderate(self.origin.y + self.size.height)
    }
}

impl Size {
    pub open spec fn spec_new(width: i64, height: i64) -> Size {
        Size { width, height }
    }

    #[verifier::when_used_as_spec(spec_new)]
    pub fn new(width: i64, height: i64) -> (r: Size)
        ensures
            r == (Size { width, height }),
    {
        Size { width, height }
    }
}

/// The union of two rectangles does not depend on their order.
pub proof fn law_union_commutes(a: Rect, b: Rect)
    ensures
        a.union(&b) == b.union(&a),
{
}

/// The union of two rectangles holds every point of both.
pub proof fn law_union_holds_both(a: Rect, b: Rect, p: Point)
    requires
        a.moderate(),
        b.moderate(),
        a.contains(p) || b.contains(p),
    ensures
        a.union(&b).contains(p),
{
}

/// The rectangle between two corners does not depend on their order, its size
/// is not negative, and its edges are the extreme coordinates.
pub proof fn law_from_points_normalizes(a: Point, b: Point)
    ensures
        Rect::from_points(a, b) == Rect::from_points(b, a),
        Rect::from_points(a, b).size.width >= 0,
        Rect::from_points(a, b).size.height >= 0,
        a.moderate() && b.moderate() ==> {
            let r = Rect::from_points(a, b);
            &&& r.moderate()
            &&& r.origin.x == fixed::smaller(a.x as int, b.x as int)
            &&& r.origin.y == fixed::smaller(a.y as int, b.y as int)
            &&& r.max_x() == fixed::larger(a.x as int, b.x as int)
            &&& r.max_y() == fixed::larger(a.y as int, b.y as int)
        },
{
}

/// The intersection of two rectangles holds the points that lie in both, and
/// exists if there is one.
pub proof fn law_intersection_holds_common_points(a: Rect, b: Rect, p: Point)
    requires
        a.moderate(),
        b.moderate(),
    ensures
        (a.contains(p) && b.contains(p)) <==> (a.intersection(&b) matches Some(r) && r.contains(p)),
        a.intersection(&b) matches Some(r) ==> r.moderate() && r.size.width > 0 && r.size.height
            > 0,
{
}

/// A rectangle holds its left and its upper edge but neither its right nor
/// its lower edge.
pub proof fn law_contains_is_half_open(r: Rect, p: Point)
    requires
        r.moderate(),
    ensures
        r.size.width > 0 && r.size.height > 0 ==> r.contains(r.origin),
        p.x == r.max_x() ==> !r.contains(p),
        p.y == r.max_y() ==> !r.contains(p),
{
}

/// Where one rectangle begins at the right edge of another, a point that lies
/// between the outer edges and level with both is in exactly one of them.
pub proof fn law_neighbours_neither_overlap_nor_leave_a_gap(left: Rect, right: Rect, p: Point)
    requires
        left.moderate(),
        right.moderate(),
        left.max_x() == right.origin.x,
        left.origin.x <= p.x < right.max_x(),
        left.origin.y <= p.y < left.max_y(),
        right.origin.y <= p.y < right.max_y(),
    ensures
        left.contains(p) != right.contains(p),
{
}

/// `p` lies within `radius` of the point that divides the segment from `a` to
/// `b` in the ratio of `part` to `whole - part`.
pub open spec fn near_division(
    p: Point,
    a: Point,
    b: Point,
    radius: i64,
    part: int,
    whole: int,
) -> bool {
    square(whole * (p.x - a.x) - part * (b.x - a.x)) + square(
        whole * (p.y - a.y) - part * (b.y - a.y),
    ) <= square(radius as int) * square(whole)
}

/// Being near a segment means being near one of its points.
pub proof fn law_near_segment_is_near_a_point(p: Point, a: Point, b: Point, radius: i64)
    requires
        p.moderate(),
        a.moderate(),
        b.moderate(),
        radius >= 0,
    ensures
        near_segment(p, a, b, radius) <==> exists|part: int, whole: int|
            0 <= part <= whole && whole > 0 && #[trigger] near_division(
                p,
                a,
                b,
                radius,
                part,
                whole,
            ),
{
    let ux = p.x - a.x;
    let uy = p.y - a.y;
    let vx = b.x - a.x;
    let vy = b.y - a.y;
    let t = ux * vx + uy * vy;
    let len = vx * vx + vy * vy;
    let c = vx * uy - vy * ux;
    let rr = square(radius as int);
    if near_segment(p, a, b, radius) {
        if t <= 0 {
            assert(near_division(p, a, b, radius, 0, 1)) by {
                assert(1 * ux - 0 * vx == ux && 1 * uy - 0 * vy == uy);
                assert(square(1) == 1 && rr * 1 == rr);
            }
        } else if t >= len {
            assert(near_division(p, a, b, radius, 1, 1)) by {
                assert(1 * ux - 1 * vx == p.x - b.x && 1 * uy - 1 * vy == p.y - b.y);
                assert(square(1) == 1 && rr * 1 == rr);
            }
        } else {
            lemma_foot(ux, uy, vx, vy);
            assert(len * (c * c) <= rr * (len * len)) by (nonlinear_arith)
                requires
                    c * c <= rr * len,
                    len >= 0,
            ;
            assert(near_division(p, a, b, radius, t, len));
        }
    }
    if exists|part: int, whole: int|
        0 <= part <= whole && whole > 0 && #[trigger] near_division(p, a, b, radius, part, whole) {
        let (part, whole) = choose|part: int, whole: int|
            0 <= part <= whole && whole > 0 && #[trigger] near_division(
                p,
                a,
                b,
                radius,
                part,
                whole,
            );
        lemma_division(ux, uy, vx, vy, part, whole, rr);
        assert(p.x - b.x == ux - vx && p.y - b.y == uy - vy);
    }
}

proof fn lemma_reorder(a: int, b: int, c: int, d: int)
    by (nonlinear_arith)
    ensures
        (a * b) * (c * d) == (a * c) * (b * d),
{
}

proof fn lemma_square_of_sum(a: int, b: int)
    by (nonlinear_arith)
    ensures
        (a + b) * (a + b) == a * a + 2 * (a * b) + b * b,
        (a - b) * (a - b) == a * a - 2 * (a * b) + b * b,
{
}

proof fn lemma_binomial(w: int, x: int, p: int, y: int)
    ensures
        (w * x - p * y) * (w * x - p * y) == (w * w) * (x * x) - 2 * (w * p) * (x * y) + (p * p)
            * (y * y),
{
    lemma_square_of_sum(w * x, p * y);
    lemma_reorder(w, x, w, x);
    lemma_reorder(p, y, p, y);
    lemma_reorder(w, x, p, y);
    assert(2 * ((w * p) * (x * y)) == 2 * (w * p) * (x * y)) by (nonlinear_arith);
}

proof fn lemma_distribute(k: int, x: int, y: int)
    by (nonlinear_arith)
    ensures
        k * (x + y) == k * x + k * y,
        (x + y) * k == x * k + y * k,
{
}

/// Lagrange's identity in the plane.
proof fn lemma_lagrange(ux: int, uy: int, vx: int, vy: int)
    ensures
        (vx * vx + vy * vy) * (ux * ux + uy * uy) == (vx * uy - vy * ux) * (vx * uy - vy * ux) + (ux
            * vx + uy * vy) * (ux * vx + uy * vy),
{
    lemma_square_of_sum(vx * uy, vy * ux);
    lemma_square_of_sum(ux * vx, uy * vy);
    lemma_distribute(ux * ux + uy * uy, vx * vx, vy * vy);
    lemma_distribute(vx * vx, ux * ux, uy * uy);
    lemma_distribute(vy * vy, ux * ux, uy * uy);
    lemma_reorder(vx, uy, vx, uy);
    lemma_reorder(vy, ux, vy, ux);
    lemma_reorder(ux, vx, ux, vx);
    lemma_reorder(uy, vy, uy, vy);
    lemma_reorder(vx, uy, vy, ux);
    lemma_reorder(ux, vx, uy, vy);
    assert((vx * vy) * (uy * ux) == (ux * uy) * (vx * vy)) by (nonlinear_arith);
    assert((ux * ux) * (vx * vx) == (vx * vx) * (ux * ux)) by (nonlinear_arith);
    assert((uy * uy) * (vy * vy) == (vy * vy) * (uy * uy)) by (nonlinear_arith);
}

/// The foot of the perpendicular: `|L u - t v|^2 = L c^2` for `L = |v|^2`,
/// `t = u . v` and `c = v x u`.
proof fn lemma_foot(ux: int, uy: int, vx: int, vy: int)
    ensures
        ({
            let t = ux * vx + uy * vy;
            let len = vx * vx + vy * vy;
            let c = vx * uy - vy * ux;
            square(len * ux - t * vx) + square(len * uy - t * vy) == len * (c * c)
        }),
{
    let t = ux * vx + uy * vy;
    let len = vx * vx + vy * vy;
    let c = vx * uy - vy * ux;
    lemma_combination(t, len, ux, uy, vx, vy);
    lemma_lagrange(ux, uy, vx, vy);
    let uu = ux * ux + uy * uy;
    assert((len * len) * uu - 2 * (len * t) * t + (t * t) * len == len * (len * uu - t * t))
        by (nonlinear_arith);
}

/// `|w u - p v|^2 = w^2 |u|^2 - 2 w p (u . v) + p^2 |v|^2`.
proof fn lemma_combination(p: int, w: int, ux: int, uy: int, vx: int, vy: int)
    ensures
        square(w * ux - p * vx) + square(w * uy - p * vy) == (w * w) * (ux * ux + uy * uy) - 2 * (w
            * p) * (ux * vx + uy * vy) + (p * p) * (vx * vx + vy * vy),
{
    lemma_binomial(w, ux, p, vx);
    lemma_binomial(w, uy, p, vy);
    lemma_distribute(w * w, ux * ux, uy * uy);
    lemma_distribute(2 * (w * p), ux * vx, uy * vy);
    lemma_distribute(p * p, vx * vx, vy * vy);
}

/// Seen from the start of a segment that leads away, no later point is nearer
/// than the start.
proof fn lemma_leads_away(ux: int, uy: int, vx: int, vy: int, part: int, whole: int, rr: int)
    requires
        0 <= part,
        whole > 0,
        ux * vx + uy * vy <= 0,
        square(whole * ux - part * vx) + square(whole * uy - part * vy) <= rr * square(whole),
    ensures
        ux * ux + uy * uy <= rr,
{
    let t = ux * vx + uy * vy;
    let len = vx * vx + vy * vy;
    let uu = ux * ux + uy * uy;
    let ww = whole * whole;
    lemma_combination(part, whole, ux, uy, vx, vy);
    assert(len >= 0) by (nonlinear_arith)
        requires
            len == vx * vx + vy * vy,
    ;
    let k = 2 * (whole * part);
    assert(k >= 0 && ww > 0) by (nonlinear_arith)
        requires
            0 <= part,
            0 < whole,
            k == 2 * (whole * part),
            ww == whole * whole,
    ;
    assert(k * t <= 0) by (nonlinear_arith)
        requires
            k >= 0,
            t <= 0,
    ;
    assert((part * part) * len >= 0) by (nonlinear_arith)
        requires
            len >= 0,
    ;
    assert(uu <= rr) by (nonlinear_arith)
        requires
            ww * uu <= rr * ww,
            ww > 0,
    ;
}

/// A point of the segment that is near shows that the foot, or the nearer
/// end, is near.
proof fn lemma_division(ux: int, uy: int, vx: int, vy: int, part: int, whole: int, rr: int)
    requires
        0 <= part <= whole,
        whole > 0,
        square(whole * ux - part * vx) + square(whole * uy - part * vy) <= rr * square(whole),
    ensures
        ({
            let t = ux * vx + uy * vy;
            let len = vx * vx + vy * vy;
            let c = vx * uy - vy * ux;
            &&& t <= 0 ==> ux * ux + uy * uy <= rr
            &&& t >= len ==> (ux - vx) * (ux - vx) + (uy - vy) * (uy - vy) <= rr
            &&& 0 < t < len ==> c * c <= rr * len
        }),
{
    let t = ux * vx + uy * vy;
    let len = vx * vx + vy * vy;
    let c = vx * uy - vy * ux;
    if t <= 0 {
        lemma_leads_away(ux, uy, vx, vy, part, whole, rr);
    }
    if t >= len {
        lemma_seen_from_end(ux, vx, part, whole);
        lemma_seen_from_end(uy, vy, part, whole);
        lemma_leads_away(ux - vx, uy - vy, -vx, -vy, whole - part, whole, rr);
    }
    if 0 < t < len {
        let gap = square(whole * ux - part * vx) + square(whole * uy - part * vy);
        let uu = ux * ux + uy * uy;
        let ww = whole * whole;
        lemma_combination(part, whole, ux, uy, vx, vy);
        lemma_lagrange(ux, uy, vx, vy);
        let off = whole * t - part * len;
        lemma_binomial(whole, t, part, len);
        lemma_scale_combination(len, ww, uu, 2 * (whole * part), t, part * part);
        lemma_distribute(ww, c * c, t * t);
        assert(len * gap == ww * (c * c) + off * off);
        assert(off * off >= 0) by (nonlinear_arith);
        assert(ww > 0) by (nonlinear_arith)
            requires
                ww == whole * whole,
                whole > 0,
        ;
        assert(len * gap <= len * (rr * ww)) by (nonlinear_arith)
            requires
                gap <= rr * ww,
                len > 0,
        ;
        assert(len * (rr * ww) == ww * (rr * len)) by (nonlinear_arith);
        assert(c * c <= rr * len) by (nonlinear_arith)
            requires
                ww * (c * c) <= ww * (rr * len),
                ww > 0,
        ;
    }
}

proof fn lemma_seen_from_end(u: int, v: int, part: int, whole: int)
    by (nonlinear_arith)
    ensures
        whole * (u - v) - (whole - part) * -v == whole * u - part * v,
        (u - v) * -v == v * v - u * v,
{
}

proof fn lemma_scale_combination(k: int, a: int, x: int, b: int, y: int, c: int)
    ensures
        k * (a * x - b * y + c * k) == a * (k * x) - b * (y * k) + c * (k * k),
{
    lemma_distribute(k, a * x - b * y, c * k);
    lemma_distribute(k, a * x - b * y, b * y);
    lemma_swap(k, a, x);
    lemma_swap(k, b, y);
    lemma_swap(k, c, k);
    assert(y * k == k * y) by (nonlinear_arith);
}

proof fn lemma_swap(k: int, a: int, x: int)
    by (nonlinear_arith)
    ensures
        k * (a * x) == a * (k * x),
{
}

/// A point lies in a rectangle if it is not left of or above it and before its
/// right and its lower edge.
pub proof fn law_contains_compares_with_the_edges(r: Rect, p: Point)
    requires
        r.moderate(),
    ensures
        r.contains(p) <==> r.origin.x <= p.x && p.x < r.origin.x + r.size.width && r.origin.y
            <= p.y && p.y < r.origin.y + r.size.height,
{
}

/// The union of two rectangles is the smallest one around both: each of its edges
/// is an edge of one of them, and none of their edges lies beyond it.
pub proof fn law_union_is_the_smallest(a: Rect, b: Rect)
    requires
        a.moderate(),
        b.moderate(),
    ensures
        ({
            let u = a.union(&b);
            let right = u.origin.x + u.size.width;
            let low = u.origin.y + u.size.height;
            &&& u.origin.x == a.origin.x || u.origin.x == b.origin.x
            &&& u.origin.y == a.origin.y || u.origin.y == b.origin.y
            &&& right == a.origin.x + a.size.width || right == b.origin.x + b.size.width
            &&& low == a.origin.y + a.size.height || low == b.origin.y + b.size.height
            &&& u.origin.x <= a.origin.x && u.origin.x <= b.origin.x
            &&& u.origin.y <= a.origin.y && u.origin.y <= b.origin.y
            &&& right >= a.origin.x + a.size.width && right >= b.origin.x + b.size.width
            &&& low >= a.origin.y + a.size.height && low >= b.origin.y + b.size.height
        }),
{
}

/// A vector leads from one point to the other, and back.
pub proof fn law_vectors_lead_from_point_to_point(a: Point, b: Point)
    requires
        a.moderate(),
        b.moderate(),
    ensures
        a.plus(b.minus(a)) == b,
        b.minus(a).x == b.x - a.x,
        b.minus(a).y == b.y - a.y,
{
}

/// The length of a vector is compared by the squares of its coordinates.
pub proof fn law_lengths_are_compared_by_squares(v: Point, radius: i64)
    requires
        radius > 0,
    ensures
        v.within(radius) <==> v.x * v.x + v.y * v.y <= radius * radius,
        v.shorter_than(radius) <==> v.x * v.x + v.y * v.y < radius * radius,
{
}

} // verus!

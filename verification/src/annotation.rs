//! Annotations and their editor.
//!
//! Nothing here draws: the editor knows which annotations there are, which of
//! them is selected and how to take a change back.
//!
//! Coordinates are local to the pinned image: the origin is its top left
//! corner and lengths are logical points, so annotations follow the image
//! when it is moved or zoomed.

use vstd::prelude::*;

use crate::fixed;
use crate::fixed::{larger_of, minus, plus};
use crate::geom;
use crate::geom::{distance_to_segment_at_most, Point, Rect};
use crate::text;
use crate::text::is_blank;

verus! {

/// How far from an annotation a click still hits it.
pub const HIT_TOLERANCE: i64 = 6_000_000;

/// Half of `HIT_TOLERANCE`.
pub const HALF_TOLERANCE: i64 = 3_000_000;

/// A figure smaller than this is taken for a slip of the hand.
pub const MIN_SIZE: i64 = 3_000_000;

/// How far from a corner a press grabs the corner.
pub const HANDLE_RADIUS: i64 = 7_000_000;

/// The size that a text has before anything is typed.
pub const TEXT_WIDTH: i64 = 160_000_000;

pub const TEXT_HEIGHT: i64 = 24_000_000;

/// The stroke width of a new editor.
pub const DEFAULT_WIDTH: i64 = 3_000_000;

#[derive(Debug, Clone, Copy, PartialEq, Eq, Structural)]
pub enum Tool {
    Select,
    Rect,
    Ellipse,
    Line,
    Arrow,
    Highlight,
    Redact,
    Number,
    Text,
}

/// A colour. The components are fixed point numbers from zero to one.
#[derive(Debug, Clone, Copy, PartialEq, Eq, Structural)]
pub struct Color {
    pub r: i64,
    pub g: i64,
    pub b: i64,
    pub a: i64,
}

impl Color {
    pub open spec fn spec_rgb(r: i64, g: i64, b: i64) -> Color {
        Color { r, g, b, a: fixed::UNIT }
    }

    /// An opaque colour.
    #[verifier::when_used_as_spec(spec_rgb)]
    pub fn rgb(r: i64, g: i64, b: i64) -> (c: Color)
        ensures
            c == Color::spec_rgb(r, g, b),
    {
        Color { r, g, b, a: fixed::UNIT }
    }

    pub open spec fn spec_red() -> Color {
        Color { r: 1_000_000, g: 230_000, b: 190_000, a: 1_000_000 }
    }

    /// The colour of new annotations: a red that stands out on most images.
    #[verifier::when_used_as_spec(spec_red)]
    pub fn red() -> (c: Color)
        ensures
            c == Color::spec_red(),
    {
        Color { r: 1_000_000, g: 230_000, b: 190_000, a: 1_000_000 }
    }
}

#[derive(Debug, PartialEq)]
pub enum Shape {
    Rect,
    Ellipse,
    Line,
    Arrow,
    Highlight,
    /// Hides what lies below.
    Redact,
    /// A numbered mark.
    Number(u32),
    Text(String),
}

/// The contents of a [`Shape`].
pub enum ShapeView {
    Rect,
    Ellipse,
    Line,
    Arrow,
    Highlight,
    Redact,
    Number(u32),
    Text(Seq<char>),
}

impl View for Shape {
    type V = ShapeView;

    open spec fn view(&self) -> ShapeView {
        match *self {
            Shape::Rect => ShapeView::Rect,
            Shape::Ellipse => ShapeView::Ellipse,
            Shape::Line => ShapeView::Line,
            Shape::Arrow => ShapeView::Arrow,
            Shape::Highlight => ShapeView::Highlight,
            Shape::Redact => ShapeView::Redact,
            Shape::Number(n) => ShapeView::Number(n),
            Shape::Text(s) => ShapeView::Text(s@),
        }
    }
}

impl Clone for Shape {
    fn clone(&self) -> (r: Shape)
        ensures
            r == *self,
    {
        match self {
            Shape::Rect => Shape::Rect,
            Shape::Ellipse => Shape::Ellipse,
            Shape::Line => Shape::Line,
            Shape::Arrow => Shape::Arrow,
            Shape::Highlight => Shape::Highlight,
            Shape::Redact => Shape::Redact,
            Shape::Number(n) => Shape::Number(*n),
            Shape::Text(s) => Shape::Text(s.clone()),
        }
    }
}

#[derive(Debug, PartialEq)]
pub struct Annotation {
    pub shape: Shape,
    /// Where it starts: a corner, the tail of an arrow, the top left corner of
    /// a text.
    pub a: Point,
    /// Where it ends: the opposite corner, the tip of an arrow, the bottom
    /// right corner of a text.
    pub b: Point,
    pub color: Color,
    pub width: i64,
}

/// The contents of an [`Annotation`].
pub struct AnnotationView {
    pub shape: ShapeView,
    pub a: Point,
    pub b: Point,
    pub color: Color,
    pub width: i64,
}

impl View for Annotation {
    type V = AnnotationView;

    open spec fn view(&self) -> AnnotationView {
        AnnotationView {
            shape: self.shape@,
            a: self.a,
            b: self.b,
            color: self.color,
            width: self.width,
        }
    }
}

impl Clone for Annotation {
    fn clone(&self) -> (r: Annotation)
        ensures
            r == *self,
    {
        Annotation {
            shape: self.shape.clone(),
            a: self.a,
            b: self.b,
            color: self.color,
            width: self.width,
        }
    }
}

impl AnnotationView {
    pub open spec fn bounds(self) -> Rect {
        Rect::from_points(self.a, self.b)
    }

    /// Whether the figure is a line from `a` to `b`.
    pub open spec fn is_segment(self) -> bool {
        self.shape is Arrow || self.shape is Line
    }

    /// Whether a click at `p` hits the annotation: a line is hit near the
    /// line, anything else in its bounds or close around them.
    pub open spec fn hit(self, p: Point) -> bool {
        if self.is_segment() {
            geom::near_segment(
                p,
                self.a,
                self.b,
                fixed::larger(self.width as int, HIT_TOLERANCE as int) as i64,
            )
        } else {
            let b = self.bounds();
            Rect::from_xywh(
                fixed::clamped(b.origin.x - HALF_TOLERANCE),
                fixed::clamped(b.origin.y - HALF_TOLERANCE),
                fixed::clamped(b.size.width + HIT_TOLERANCE),
                fixed::clamped(b.size.height + HIT_TOLERANCE),
            ).contains(p)
        }
    }

    /// Whether the annotation is not worth keeping: a text without a visible
    /// character, or a figure that is too small.
    pub open spec fn degenerate(self) -> bool {
        match self.shape {
            ShapeView::Text(s) => text::blank(s),
            _ => if self.is_segment() {
                self.b.minus(self.a).shorter_than(MIN_SIZE)
            } else {
                self.bounds().size.width < MIN_SIZE || self.bounds().size.height < MIN_SIZE
            },
        }
    }
}

impl Annotation {
    /// The rectangle around the annotation, whichever way it was dragged.
    pub fn bounds(&self) -> (r: Rect)
        ensures
            r == self@.bounds(),
    {
        Rect::from_points(self.a, self.b)
    }

    fn is_segment(&self) -> (r: bool)
        ensures
            r == self@.is_segment(),
    {
        match self.shape {
            Shape::Arrow | Shape::Line => true,
            _ => false,
        }
    }

    /// Whether a click at `p` hits the annotation.
    pub fn hit(&self, p: Point) -> (r: bool)
        ensures
            r == self@.hit(p),
    {
        if self.is_segment() {
            // Around a slanted line the bounds hold mostly empty space.
            return distance_to_segment_at_most(
                p,
                self.a,
                self.b,
                larger_of(self.width, HIT_TOLERANCE),
            );
        }
        let b: Rect = self.bounds();
        Rect::from_xywh(
            minus(b.origin.x, HALF_TOLERANCE),
            minus(b.origin.y, HALF_TOLERANCE),
            plus(b.size.width, HIT_TOLERANCE),
            plus(b.size.height, HIT_TOLERANCE),
        ).contains(p)
    }

    /// Whether the annotation is not worth keeping.
    pub fn is_degenerate(&self) -> (r: bool)
        ensures
            r == self@.degenerate(),
    {
        if let Shape::Text(s) = &self.shape {
            return is_blank(s.as_str());
        }
        if self.is_segment() {
            return self.b.minus(self.a).shorter_than(MIN_SIZE);
        }
        let b: Rect = self.bounds();
        b.size.width < MIN_SIZE || b.size.height < MIN_SIZE
    }
}

/// What the pointer is doing.
#[derive(Debug, Clone, Copy, PartialEq, Eq, Structural)]
pub enum Drag {
    /// Nothing.
    Idle,
    /// A new figure is being drawn.
    Creating,
    /// The selected annotation is being moved; `grab` leads from its `a` to
    /// the point where it was grabbed.
    Moving { grab: Point },
    /// A corner is being moved: `a` for zero, `b` otherwise.
    Resizing { corner: u8 },
}

#[derive(Debug, PartialEq)]
pub struct AnnotationDoc {
    pub objects: Vec<Annotation>,
    pub selected: Option<usize>,
}

/// The contents of an [`AnnotationDoc`].
pub struct DocView {
    pub objects: Seq<AnnotationView>,
    pub selected: Option<usize>,
}

pub open spec fn contents(objects: Seq<Annotation>) -> Seq<AnnotationView> {
    objects.map_values(|o: Annotation| o@)
}

impl View for AnnotationDoc {
    type V = DocView;

    open spec fn view(&self) -> DocView {
        DocView { objects: contents(self.objects@), selected: self.selected }
    }
}

impl Default for AnnotationDoc {
    fn default() -> (r: AnnotationDoc)
        ensures
            r@ == (DocView { objects: Seq::empty(), selected: None }),
    {
        let r: AnnotationDoc = AnnotationDoc { objects: Vec::new(), selected: None };
        proof {
            assert(r@.objects =~= Seq::empty());
        }
        r
    }
}

impl Clone for AnnotationDoc {
    fn clone(&self) -> (r: AnnotationDoc)
        ensures
            r@ == self@,
    {
        let mut objects: Vec<Annotation> = Vec::new();
        let mut i: usize = 0;
        while i < self.objects.len()
            invariant
                i <= self.objects@.len(),
                objects@ == self.objects@.take(i as int),
            decreases self.objects@.len() - i,
        {
            objects.push(self.objects[i].clone());
            i = i + 1;
            proof {
                assert(objects@ =~= self.objects@.take(i as int));
            }
        }
        proof {
            assert(objects@ =~= self.objects@);
        }
        AnnotationDoc { objects, selected: self.selected }
    }
}

/// A coordinate of `p` is at least three logical points away from that of `q`.
pub open spec fn far_apart(p: int, q: int) -> bool {
    p - q >= 3_000_000 || q - p >= 3_000_000
}

/// An arrow or a line is not worth keeping if and only if its ends are less than
/// three logical points apart, in whatever direction.
pub proof fn law_a_segment_is_dropped_by_its_length(o: AnnotationView)
    requires
        o.shape is Arrow || o.shape is Line,
        o.a.moderate(),
        o.b.moderate(),
    ensures
        o.degenerate() <==> (o.b.x - o.a.x) * (o.b.x - o.a.x) + (o.b.y - o.a.y) * (o.b.y - o.a.y)
            < 3_000_000 * 3_000_000,
        far_apart(o.a.x as int, o.b.x as int) || far_apart(o.a.y as int, o.b.y as int)
            ==> !o.degenerate(),
{
    let x = o.b.x - o.a.x;
    let y = o.b.y - o.a.y;
    assert(x * x >= 0 && y * y >= 0) by (nonlinear_arith);
    if far_apart(o.a.x as int, o.b.x as int) {
        assert(x * x >= 3_000_000 * 3_000_000) by (nonlinear_arith)
            requires
                x >= 3_000_000 || x <= -3_000_000,
        ;
    }
    if far_apart(o.a.y as int, o.b.y as int) {
        assert(y * y >= 3_000_000 * 3_000_000) by (nonlinear_arith)
            requires
                y >= 3_000_000 || y <= -3_000_000,
        ;
    }
}

/// A figure with an area is not worth keeping if and only if it is less than three
/// logical points wide or high.
pub proof fn law_a_box_is_dropped_by_its_sides(o: AnnotationView)
    requires
        !(o.shape is Arrow || o.shape is Line || o.shape is Text),
        o.a.moderate(),
        o.b.moderate(),
    ensures
        o.degenerate() <==> !far_apart(o.a.x as int, o.b.x as int) || !far_apart(
            o.a.y as int,
            o.b.y as int,
        ),
{
}

/// A text is not worth keeping if and only if it has no visible character,
/// whatever room it takes.
pub proof fn law_a_text_is_dropped_by_its_contents(o: AnnotationView)
    requires
        o.shape is Text,
    ensures
        o.degenerate() <==> forall|i: int|
            0 <= i < o.shape->Text_0.len() ==> text::white_space(#[trigger] o.shape->Text_0[i]),
{
}

/// The bounds reach from the smaller to the larger coordinates of both ends.
pub proof fn law_bounds_reach_from_end_to_end(o: AnnotationView)
    requires
        o.a.moderate(),
        o.b.moderate(),
    ensures
        ({
            let r = o.bounds();
            &&& r.origin.x <= o.a.x <= r.origin.x + r.size.width
            &&& r.origin.x <= o.b.x <= r.origin.x + r.size.width
            &&& r.origin.y <= o.a.y <= r.origin.y + r.size.height
            &&& r.origin.y <= o.b.y <= r.origin.y + r.size.height
            &&& r.size.width == o.a.x - o.b.x || r.size.width == o.b.x - o.a.x
            &&& r.size.height == o.a.y - o.b.y || r.size.height == o.b.y - o.a.y
        }),
{
}

/// A figure with an area is hit between its edges and up to three logical points
/// beyond them.
pub proof fn law_a_box_is_hit_around_its_edges(o: AnnotationView, p: Point)
    requires
        !(o.shape is Arrow || o.shape is Line),
        o.a.moderate(),
        o.b.moderate(),
    ensures
        o.hit(p) <==> {
            &&& o.a.x - 3_000_000 <= p.x || o.b.x - 3_000_000 <= p.x
            &&& p.x < o.a.x + 3_000_000 || p.x < o.b.x + 3_000_000
            &&& o.a.y - 3_000_000 <= p.y || o.b.y - 3_000_000 <= p.y
            &&& p.y < o.a.y + 3_000_000 || p.y < o.b.y + 3_000_000
        },
{
}

/// A line or an arrow is hit where some point of it is no farther away than its
/// stroke width or six logical points, whichever is more.
pub proof fn law_a_segment_is_hit_near_its_points(o: AnnotationView, p: Point, radius: i64)
    requires
        o.shape is Arrow || o.shape is Line,
        o.a.moderate(),
        o.b.moderate(),
        p.moderate(),
        radius >= 6_000_000,
        radius >= o.width,
        radius == 6_000_000 || radius == o.width,
    ensures
        o.hit(p) <==> exists|part: int, whole: int|
            0 <= part <= whole && whole > 0 && #[trigger] geom::near_division(
                p,
                o.a,
                o.b,
                radius,
                part,
                whole,
            ),
{
    geom::law_near_segment_is_near_a_point(p, o.a, o.b, radius);
}

/// What is known of an annotation is all of it: its figure, a text with its characters and
/// a mark with its number, its ends, its colour and its stroke width.
pub proof fn law_a_view_holds_the_whole_annotation(o: Annotation)
    ensures
        o@.a == o.a,
        o@.b == o.b,
        o@.color == o.color,
        o@.width == o.width,
        o.shape matches Shape::Text(s) ==> (o@.shape matches ShapeView::Text(t) && t == s@),
        o.shape matches Shape::Number(n) ==> o@.shape == ShapeView::Number(n),
        o.shape is Rect <==> o@.shape is Rect,
        o.shape is Ellipse <==> o@.shape is Ellipse,
        o.shape is Line <==> o@.shape is Line,
        o.shape is Arrow <==> o@.shape is Arrow,
        o.shape is Highlight <==> o@.shape is Highlight,
        o.shape is Redact <==> o@.shape is Redact,
{
}

/// The annotations of a document are known one by one, in order.
pub proof fn law_contents_are_in_order(objects: Seq<Annotation>, i: int)
    requires
        0 <= i < objects.len(),
    ensures
        contents(objects).len() == objects.len(),
        contents(objects)[i] == objects[i]@,
{
}

} // verus!

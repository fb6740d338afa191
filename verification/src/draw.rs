//! Drawing annotations.
//!
//! Annotations are drawn twice: on the screen, over the pinned image, and into
//! a bitmap when the image is exported. Both come from the one list of paint
//! operations that [`draw`] makes, so what is exported is what was seen.
//!
//! Commands use the coordinates of the image: the origin is its top left corner
//! and y grows downwards. Paint operations are for a canvas whose origin is the
//! bottom left corner and whose y grows upwards.

use vstd::prelude::*;

use crate::fixed;
use crate::fixed::{
    clamp_wide, half_of, larger_of, minus, plus, product_of, wide_product, UNIT,
};
use crate::geom;
use crate::geom::{Point, Rect, Size};
use crate::wide::{product_at_most, sum_at_most};

verus! {

/// How far the selection box lies outside the annotation.
pub const SELECTION_MARGIN: i64 = 3_000_000;

/// Half the side of a corner handle.
pub const HANDLE_HALF: i64 = 3_500_000;

/// The length of an arrow head and half its width, for a line without width.
pub const HEAD_LENGTH: i64 = 8_000_000;

pub const HEAD_HALF_WIDTH: i64 = 4_000_000;

/// The height of a line of text, as a multiple of the font size.
pub const LINE_HEIGHT: i64 = 1_200_000;

/// The font size of the number in a numbered mark, as a multiple of its height.
pub const NUMBER_HEIGHT: i64 = 600_000;

/// A colour with an alpha channel.
#[derive(Debug, Clone, Copy, PartialEq, Eq, Structural)]
pub struct Rgba {
    pub r: i64,
    pub g: i64,
    pub b: i64,
    pub a: i64,
}

impl Rgba {
    pub open spec fn spec_new(r: i64, g: i64, b: i64, a: i64) -> Rgba {
        Rgba { r, g, b, a }
    }

    #[verifier::when_used_as_spec(spec_new)]
    pub fn new(r: i64, g: i64, b: i64, a: i64) -> (c: Rgba)
        ensures
            c == Rgba::spec_new(r, g, b, a),
    {
        Rgba { r, g, b, a }
    }
}

/// The colour that hides what lies below.
pub open spec fn spec_redaction() -> Rgba {
    Rgba { r: 120_000, g: 120_000, b: 120_000, a: 1_000_000 }
}

#[verifier::when_used_as_spec(spec_redaction)]
pub fn redaction() -> (c: Rgba)
    ensures
        c == spec_redaction(),
{
    Rgba { r: 120_000, g: 120_000, b: 120_000, a: 1_000_000 }
}

/// The colour of a highlight, which lets what lies below shine through.
pub open spec fn spec_marker() -> Rgba {
    Rgba { r: 1_000_000, g: 920_000, b: 230_000, a: 400_000 }
}

#[verifier::when_used_as_spec(spec_marker)]
pub fn marker() -> (c: Rgba)
    ensures
        c == spec_marker(),
{
    Rgba { r: 1_000_000, g: 920_000, b: 230_000, a: 400_000 }
}

/// The colour of the selection box.
pub open spec fn spec_accent() -> Rgba {
    Rgba { r: 0, g: 480_000, b: 1_000_000, a: 1_000_000 }
}

#[verifier::when_used_as_spec(spec_accent)]
pub fn accent() -> (c: Rgba)
    ensures
        c == spec_accent(),
{
    Rgba { r: 0, g: 480_000, b: 1_000_000, a: 1_000_000 }
}

pub open spec fn spec_white() -> Rgba {
    Rgba { r: 1_000_000, g: 1_000_000, b: 1_000_000, a: 1_000_000 }
}

#[verifier::when_used_as_spec(spec_white)]
pub fn white() -> (c: Rgba)
    ensures
        c == spec_white(),
{
    Rgba { r: 1_000_000, g: 1_000_000, b: 1_000_000, a: 1_000_000 }
}

/// What to draw over an image.
#[derive(Debug, PartialEq)]
pub enum DrawCommand {
    Rect { rect: Rect, color: Rgba, width: i64 },
    Ellipse { rect: Rect, color: Rgba, width: i64 },
    Line { from: Point, to: Point, color: Rgba, width: i64 },
    Arrow { from: Point, to: Point, color: Rgba, width: i64 },
    Highlight { rect: Rect },
    Redact { rect: Rect },
    Number { rect: Rect, value: u32, color: Rgba },
    Text { origin: Point, text: String, color: Rgba, size: i64 },
    /// Marks the selected annotation.
    SelectionBox { rect: Rect },
}

/// The contents of a [`DrawCommand`].
pub enum CommandView {
    Rect { rect: Rect, color: Rgba, width: i64 },
    Ellipse { rect: Rect, color: Rgba, width: i64 },
    Line { from: Point, to: Point, color: Rgba, width: i64 },
    Arrow { from: Point, to: Point, color: Rgba, width: i64 },
    Highlight { rect: Rect },
    Redact { rect: Rect },
    Number { rect: Rect, value: u32, color: Rgba },
    Text { origin: Point, text: Seq<char>, color: Rgba, size: i64 },
    SelectionBox { rect: Rect },
}

impl View for DrawCommand {
    type V = CommandView;

    open spec fn view(&self) -> CommandView {
        match *self {
            DrawCommand::Rect { rect, color, width } => CommandView::Rect { rect, color, width },
            DrawCommand::Ellipse { rect, color, width } => CommandView::Ellipse {
                rect,
                color,
                width,
            },
            DrawCommand::Line { from, to, color, width } => CommandView::Line {
                from,
                to,
                color,
                width,
            },
            DrawCommand::Arrow { from, to, color, width } => CommandView::Arrow {
                from,
                to,
                color,
                width,
            },
            DrawCommand::Highlight { rect } => CommandView::Highlight { rect },
            DrawCommand::Redact { rect } => CommandView::Redact { rect },
            DrawCommand::Number { rect, value, color } => CommandView::Number {
                rect,
                value,
                color,
            },
            DrawCommand::Text { origin, text, color, size } => CommandView::Text {
                origin,
                text: text@,
                color,
                size,
            },
            DrawCommand::SelectionBox { rect } => CommandView::SelectionBox { rect },
        }
    }
}

impl Clone for DrawCommand {
    fn clone(&self) -> (r: DrawCommand)
        ensures
            r == *self,
    {
        match self {
            DrawCommand::Rect { rect, color, width } => DrawCommand::Rect {
                rect: *rect,
                color: *color,
                width: *width,
            },
            DrawCommand::Ellipse { rect, color, width } => DrawCommand::Ellipse {
                rect: *rect,
                color: *color,
                width: *width,
            },
            DrawCommand::Line { from, to, color, width } => DrawCommand::Line {
                from: *from,
                to: *to,
                color: *color,
                width: *width,
            },
            DrawCommand::Arrow { from, to, color, width } => DrawCommand::Arrow {
                from: *from,
                to: *to,
                color: *color,
                width: *width,
            },
            DrawCommand::Highlight { rect } => DrawCommand::Highlight { rect: *rect },
            DrawCommand::Redact { rect } => DrawCommand::Redact { rect: *rect },
            DrawCommand::Number { rect, value, color } => DrawCommand::Number {
                rect: *rect,
                value: *value,
                color: *color,
            },
            DrawCommand::Text { origin, text, color, size } => DrawCommand::Text {
                origin: *origin,
                text: text.clone(),
                color: *color,
                size: *size,
            },
            DrawCommand::SelectionBox { rect } => DrawCommand::SelectionBox { rect: *rect },
        }
    }
}

pub open spec fn commands(cmds: Seq<DrawCommand>) -> Seq<CommandView> {
    cmds.map_values(|c: DrawCommand| c@)
}

/// One step of painting a canvas.
#[derive(Debug, PartialEq)]
pub enum PaintOp {
    /// Erases a rectangle.
    Clear { rect: Rect },
    FillRect { rect: Rect, color: Rgba },
    StrokeRect { rect: Rect, color: Rgba, width: i64 },
    StrokeEllipse { rect: Rect, color: Rgba, width: i64 },
    StrokeLine { from: Point, to: Point, color: Rgba, width: i64 },
    FillTriangle { tip: Point, left: Point, right: Point, color: Rgba },
    FillRoundRect { rect: Rect, radius: i64, color: Rgba },
    StrokeRoundRect { rect: Rect, radius: i64, color: Rgba, width: i64 },
    /// A numbered mark: an ellipse inside a rectangle, with the number in white at
    /// its centre.
    Number { rect: Rect, value: u32, color: Rgba },
    /// A line of text whose bottom left corner is at `at`.
    Text { at: Point, text: String, color: Rgba, size: i64 },
}

/// The contents of a [`PaintOp`].
pub enum PaintView {
    Clear { rect: Rect },
    FillRect { rect: Rect, color: Rgba },
    StrokeRect { rect: Rect, color: Rgba, width: i64 },
    StrokeEllipse { rect: Rect, color: Rgba, width: i64 },
    StrokeLine { from: Point, to: Point, color: Rgba, width: i64 },
    FillTriangle { tip: Point, left: Point, right: Point, color: Rgba },
    FillRoundRect { rect: Rect, radius: i64, color: Rgba },
    StrokeRoundRect { rect: Rect, radius: i64, color: Rgba, width: i64 },
    Number { rect: Rect, value: u32, color: Rgba },
    Text { at: Point, text: Seq<char>, color: Rgba, size: i64 },
}

impl View for PaintOp {
    type V = PaintView;

    open spec fn view(&self) -> PaintView {
        match *self {
            PaintOp::Clear { rect } => PaintView::Clear { rect },
            PaintOp::FillRect { rect, color } => PaintView::FillRect { rect, color },
            PaintOp::StrokeRect { rect, color, width } => PaintView::StrokeRect {
                rect,
                color,
                width,
            },
            PaintOp::StrokeEllipse { rect, color, width } => PaintView::StrokeEllipse {
                rect,
                color,
                width,
            },
            PaintOp::StrokeLine { from, to, color, width } => PaintView::StrokeLine {
                from,
                to,
                color,
                width,
            },
            PaintOp::FillTriangle { tip, left, right, color } => PaintView::FillTriangle {
                tip,
                left,
                right,
                color,
            },
            PaintOp::FillRoundRect { rect, radius, color } => PaintView::FillRoundRect {
                rect,
                radius,
                color,
            },
            PaintOp::StrokeRoundRect { rect, radius, color, width } => PaintView::StrokeRoundRect {
                rect,
                radius,
                color,
                width,
            },
            PaintOp::Number { rect, value, color } => PaintView::Number { rect, value, color },
            PaintOp::Text { at, text, color, size } => PaintView::Text {
                at,
                text: text@,
                color,
                size,
            },
        }
    }
}

pub open spec fn steps(ops: Seq<PaintOp>) -> Seq<PaintView> {
    ops.map_values(|o: PaintOp| o@)
}

/// What a canvas is to show: paint operations, and how much everything is
/// enlarged, line widths and font sizes too.
#[derive(Debug, PartialEq)]
pub struct Drawing {
    pub scale: i64,
    pub ops: Vec<PaintOp>,
}

/// `h - y`: a height from the top as a height from the bottom.
pub open spec fn flipped_y(y: i64, h: i64) -> i64 {
    fixed::clamped(h - y)
}

pub open spec fn flipped_point(p: Point, h: i64) -> Point {
    Point { x: p.x, y: flipped_y(p.y, h) }
}

/// A rectangle of the image on a canvas of height `h`.
pub open spec fn flipped(r: Rect, h: i64) -> Rect {
    Rect {
        origin: Point {
            x: r.origin.x,
            y: flipped_y(fixed::clamped(r.origin.y + r.size.height), h),
        },
        size: r.size,
    }
}

/// A rectangle with its sides moved inwards by `d`, or outwards where `d` is
/// negative.
pub open spec fn insetted(r: Rect, d: i64) -> Rect {
    Rect {
        origin: Point { x: fixed::clamped(r.origin.x + d), y: fixed::clamped(r.origin.y + d) },
        size: Size {
            width: fixed::larger(0, fixed::clamped(r.size.width - 2 * d) as int) as i64,
            height: fixed::larger(0, fixed::clamped(r.size.height - 2 * d) as int) as i64,
        },
    }
}

/// Where a label of the given size starts, centred on a rectangle.
pub open spec fn centred(r: Rect, size: Size) -> Point {
    Point {
        x: fixed::clamped(
            r.origin.x + fixed::halved(fixed::clamped(r.size.width - size.width)),
        ),
        y: fixed::clamped(
            r.origin.y + fixed::halved(fixed::clamped(r.size.height - size.height)),
        ),
    }
}

/// The square around a point that marks a corner.
pub open spec fn handle(p: Point) -> Rect {
    Rect {
        origin: Point {
            x: fixed::clamped(p.x - HANDLE_HALF),
            y: fixed::clamped(p.y - HANDLE_HALF),
        },
        size: Size { width: (2 * HANDLE_HALF) as i64, height: (2 * HANDLE_HALF) as i64 },
    }
}

/// The square of the length of a vector.
pub open spec fn squared_length(d: Point) -> int {
    d.x * d.x + d.y * d.y
}

/// `n` divided by the square root of `s`, rounded to the nearest integer, halves
/// away from zero.
pub open spec fn over_root(n: int, s: int) -> int
    recommends
        s > 0,
{
    let q = (fixed::root(4 * (n * n) / s) + 1) / 2;
    if n < 0 {
        -q
    } else {
        q
    }
}

/// The point that lies `back` behind `tip` on an arrow with the direction `d`,
/// and `side` to the left of it.
pub open spec fn behind(tip: Point, d: Point, back: i64, side: i64) -> Point {
    Point {
        x: fixed::clamped(tip.x - over_root(d.x * back + d.y * side, squared_length(d))),
        y: fixed::clamped(tip.y - over_root(d.y * back - d.x * side, squared_length(d))),
    }
}

pub open spec fn head_length(width: i64) -> i64 {
    fixed::clamped(HEAD_LENGTH + 2 * width)
}

pub open spec fn head_half_width(width: i64) -> i64 {
    fixed::clamped(HEAD_HALF_WIDTH + width)
}

/// The head of an arrow: an isosceles triangle with its tip at `b`, on the axis
/// from `a` to `b`.
pub open spec fn head(a: Point, b: Point, color: Rgba, width: i64) -> PaintView {
    let d = b.minus(a);
    PaintView::FillTriangle {
        tip: b,
        left: behind(b, d, head_length(width), head_half_width(width)),
        right: behind(b, d, head_length(width), (-head_half_width(width)) as i64),
        color,
    }
}

/// The paint operations of an arrow from `a` to `b`. One without a direction
/// has no head.
pub open spec fn arrow(a: Point, b: Point, color: Rgba, width: i64) -> Seq<PaintView> {
    let shaft = PaintView::StrokeLine { from: a, to: b, color, width };
    if b.minus(a) == (Point { x: 0, y: 0 }) {
        seq![shaft]
    } else {
        seq![shaft, head(a, b, color, width)]
    }
}

/// The paint operations of the box around the selected annotation, with a
/// handle at the top left corner and one at the bottom right corner.
pub open spec fn selection_box(r: Rect) -> Seq<PaintView> {
    let first = handle(Point { x: r.origin.x, y: fixed::clamped(r.origin.y + r.size.height) });
    let second = handle(Point { x: fixed::clamped(r.origin.x + r.size.width), y: r.origin.y });
    seq![
        PaintView::StrokeRect {
            rect: insetted(r, (-SELECTION_MARGIN) as i64),
            color: accent(),
            width: UNIT,
        },
        PaintView::FillRect { rect: first, color: accent() },
        PaintView::StrokeRect { rect: first, color: white(), width: UNIT },
        PaintView::FillRect { rect: second, color: accent() },
        PaintView::StrokeRect { rect: second, color: white(), width: UNIT },
    ]
}

/// The paint operations of one command on a canvas of height `h`.
pub open spec fn painted(c: CommandView, h: i64) -> Seq<PaintView> {
    match c {
        CommandView::Rect { rect, color, width } => seq![
            PaintView::StrokeRect { rect: flipped(rect, h), color, width },
        ],
        CommandView::Ellipse { rect, color, width } => seq![
            PaintView::StrokeEllipse { rect: flipped(rect, h), color, width },
        ],
        CommandView::Line { from, to, color, width } => seq![
            PaintView::StrokeLine {
                from: flipped_point(from, h),
                to: flipped_point(to, h),
                color,
                width,
            },
        ],
        CommandView::Arrow { from, to, color, width } => arrow(
            flipped_point(from, h),
            flipped_point(to, h),
            color,
            width,
        ),
        CommandView::Highlight { rect } => seq![
            PaintView::FillRect { rect: flipped(rect, h), color: marker() },
        ],
        CommandView::Redact { rect } => seq![
            PaintView::FillRect { rect: flipped(rect, h), color: redaction() },
        ],
        CommandView::Number { rect, value, color } => seq![
            PaintView::Number { rect: flipped(rect, h), value, color },
        ],
        CommandView::Text { origin, text, color, size } => seq![
            PaintView::Text {
                at: Point {
                    x: origin.x,
                    y: fixed::clamped(
                        flipped_y(origin.y, h) - fixed::product(size, LINE_HEIGHT),
                    ),
                },
                text,
                color,
                size,
            },
        ],
        CommandView::SelectionBox { rect } => selection_box(flipped(rect, h)),
    }
}

/// The paint operations of a list of commands, in the order of the commands:
/// later ones paint over earlier ones.
pub open spec fn painting(cmds: Seq<CommandView>, h: i64) -> Seq<PaintView>
    decreases cmds.len(),
{
    if cmds.len() == 0 {
        Seq::empty()
    } else {
        painting(cmds.drop_last(), h) + painted(cmds.last(), h)
    }
}

/// Moves the sides of a rectangle inwards by `d`, or outwards where `d` is
/// negative.
pub fn inset(r: Rect, d: i64) -> (q: Rect)
    ensures
        q == insetted(r, d),
{
    Rect {
        origin: Point { x: plus(r.origin.x, d), y: plus(r.origin.y, d) },
        size: Size {
            width: larger_of(0, clamp_wide(r.size.width as i128 - 2 * d as i128)),
            height: larger_of(0, clamp_wide(r.size.height as i128 - 2 * d as i128)),
        },
    }
}

/// The rectangle of the canvas on which a rectangle of the image lies.
pub fn flip(r: Rect, h: i64) -> (q: Rect)
    ensures
        q == flipped(r, h),
{
    Rect {
        origin: Point { x: r.origin.x, y: minus(h, plus(r.origin.y, r.size.height)) },
        size: r.size,
    }
}

/// Centres a label of the given size on a rectangle.
pub fn centre(r: Rect, size: Size) -> (p: Point)
    ensures
        p == centred(r, size),
{
    Point {
        x: plus(r.origin.x, half_of(minus(r.size.width, size.width))),
        y: plus(r.origin.y, half_of(minus(r.size.height, size.height))),
    }
}

/// The font size of the number in a numbered mark.
pub fn number_size(r: Rect) -> (size: i64)
    ensures
        size == fixed::product(r.size.height, NUMBER_HEIGHT),
{
    product_of(r.size.height, NUMBER_HEIGHT)
}

fn flip_point(p: Point, h: i64) -> (q: Point)
    ensures
        q == flipped_point(p, h),
{
    Point { x: p.x, y: minus(h, p.y) }
}

fn handle_at(p: Point) -> (r: Rect)
    ensures
        r == handle(p),
{
    Rect {
        origin: Point { x: minus(p.x, HANDLE_HALF), y: minus(p.y, HANDLE_HALF) },
        size: Size { width: 2 * HANDLE_HALF, height: 2 * HANDLE_HALF },
    }
}

/// Appends an operation.
pub fn put(ops: &mut Vec<PaintOp>, op: PaintOp)
    ensures
        steps(final(ops)@) == steps(old(ops)@).push(op@),
{
    ops.push(op);
    proof {
        assert(steps(ops@) =~= steps(old(ops)@).push(op@));
    }
}

proof fn lemma_clamped_product(a: int, b: int)
    by (nonlinear_arith)
    requires
        -0x7fff_ffff_ffff_ffff <= a <= 0x7fff_ffff_ffff_ffff,
        -0x7fff_ffff_ffff_ffff <= b <= 0x7fff_ffff_ffff_ffff,
    ensures
        -0x3fff_ffff_ffff_ffff_0000_0000_0000_0001 <= a * b
            <= 0x3fff_ffff_ffff_ffff_0000_0000_0000_0001,
{
}

proof fn lemma_square_is_positive(a: int)
    by (nonlinear_arith)
    ensures
        a * a >= 0,
        a != 0 ==> a * a >= 1,
{
}

fn squared_length_of(d: Point) -> (r: u128)
    requires
        d.x >= -0x7fff_ffff_ffff_ffff,
        d.y >= -0x7fff_ffff_ffff_ffff,
    ensures
        r == squared_length(d),
        r <= 0x7fff_ffff_ffff_fffe_0000_0000_0000_0002,
        d != (Point { x: 0, y: 0 }) ==> r > 0,
{
    proof {
        lemma_clamped_product(d.x as int, d.x as int);
        lemma_clamped_product(d.y as int, d.y as int);
        lemma_square_is_positive(d.x as int);
        lemma_square_is_positive(d.y as int);
    }
    wide_product(d.x, d.x) as u128 + wide_product(d.y, d.y) as u128
}

/// An inner product is at most the product of the lengths.
proof fn lemma_cauchy_schwarz(x: int, y: int, u: int, v: int)
    ensures
        (x * u + y * v) * (x * u + y * v) <= (x * x + y * y) * (u * u + v * v),
{
    let a = x * u;
    let b = y * v;
    let c = x * v;
    let e = y * u;
    assert((a + b) * (a + b) == a * a + 2 * (a * b) + b * b) by (nonlinear_arith);
    assert((c - e) * (c - e) == c * c - 2 * (c * e) + e * e) by (nonlinear_arith);
    assert(0 <= (c - e) * (c - e)) by (nonlinear_arith);
    assert((x * x + y * y) * (u * u + v * v) == (x * x) * (u * u) + (x * x) * (v * v) + (y * y) * (u
        * u) + (y * y) * (v * v)) by (nonlinear_arith);
    lemma_exchange(x, x, u, u);
    lemma_exchange(x, x, v, v);
    lemma_exchange(y, y, u, u);
    lemma_exchange(y, y, v, v);
    assert(a * b == c * e) by (nonlinear_arith)
        requires
            a == x * u,
            b == y * v,
            c == x * v,
            e == y * u,
    ;
}

proof fn lemma_exchange(a: int, b: int, c: int, d: int)
    by (nonlinear_arith)
    ensures
        (a * b) * (c * d) == (a * c) * (b * d),
{
}

/// From the root rounded down to the nearest integer: `f` is `m` divided by the
/// root of `s`, rounded down, and `up` says whether at least one half is missing.
proof fn lemma_over_root(m: int, s: int, f: int, up: bool)
    requires
        s > 0,
        f >= 0,
        (f * f) * s <= m * m < ((f + 1) * (f + 1)) * s,
        up == ((f * f + f) * s + (s + 3) / 4 <= m * m),
    ensures
        (fixed::root(4 * (m * m) / s) + 1) / 2 == if up {
            f + 1
        } else {
            f
        },
{
    let x = 4 * (m * m);
    let t = if up {
        2 * f + 1
    } else {
        2 * f
    };
    assert((2 * f) * (2 * f) == 4 * (f * f)) by (nonlinear_arith);
    assert((2 * f + 1) * (2 * f + 1) == 4 * (f * f + f) + 1) by (nonlinear_arith);
    assert((2 * f + 2) * (2 * f + 2) == 4 * ((f + 1) * (f + 1))) by (nonlinear_arith);
    assert((4 * (f * f)) * s == 4 * ((f * f) * s)) by (nonlinear_arith);
    assert((4 * (f * f + f) + 1) * s == 4 * ((f * f + f) * s) + s) by (nonlinear_arith);
    assert((4 * ((f + 1) * (f + 1))) * s == 4 * (((f + 1) * (f + 1)) * s)) by (nonlinear_arith);
    assert((t * t) * s <= x < ((t + 1) * (t + 1)) * s);
    lemma_quotient_between(x, s, t * t, (t + 1) * (t + 1));
    fixed::law_root_is_unique(t, x / s);
}

proof fn lemma_quotient_between(x: int, s: int, lo: int, hi: int)
    by (nonlinear_arith)
    requires
        s > 0,
        lo * s <= x < hi * s,
    ensures
        lo <= x / s < hi,
{
}

/// `n` divided by the square root of `s`, rounded.
fn divided_by_root(n: i128, s: u128) -> (r: i128)
    requires
        s > 0,
        n > i128::MIN,
        n * n < 0x1_0000_0000_0000_0000_0000_0000_0000_0000int * s,
    ensures
        r == over_root(n as int, s as int),
        -0x1_0000_0000_0000_0000 <= r <= 0x1_0000_0000_0000_0000,
{
    let m: u128 = if n < 0 {
        (-n) as u128
    } else {
        n as u128
    };
    let mut lo: u128 = 0;
    let mut hi: u128 = 0x1_0000_0000_0000_0000;
    proof {
        assert(m * m == n * n) by (nonlinear_arith)
            requires
                m == n || m == -n,
        ;
        assert(0 <= m * m) by (nonlinear_arith);
        assert(hi * hi == 0x1_0000_0000_0000_0000_0000_0000_0000_0000int);
        assert((lo * lo) * s == 0) by (nonlinear_arith)
            requires
                lo == 0,
        ;
    }
    while hi - lo > 1
        invariant
            lo < hi <= 0x1_0000_0000_0000_0000,
            (lo * lo) * s <= m * m < (hi * hi) * s,
        decreases hi - lo,
    {
        let mid: u128 = lo + (hi - lo) / 2;
        proof {
            assert(0 <= mid * mid <= 0xffff_ffff_ffff_ffff * 0xffff_ffff_ffff_ffff)
                by (nonlinear_arith)
                requires
                    0 <= mid <= 0xffff_ffff_ffff_ffff,
            ;
        }
        if product_at_most(mid * mid, s, m, m) {
            lo = mid;
        } else {
            hi = mid;
        }
    }
    proof {
        assert(0 <= lo * lo <= 0xffff_ffff_ffff_ffff * 0xffff_ffff_ffff_ffff) by (nonlinear_arith)
            requires
                0 <= lo <= 0xffff_ffff_ffff_ffff,
        ;
        assert((n as int) * (n as int) == (m as int) * (m as int));
    }
    let quarter: u128 = s / 4 + if s % 4 == 0 {
        0
    } else {
        1
    };
    let up: bool = sum_at_most(lo * lo + lo, s, quarter, m, m);
    proof {
        lemma_over_root(m as int, s as int, lo as int, up);
    }
    let q: i128 = if up {
        lo as i128 + 1
    } else {
        lo as i128
    };
    if n < 0 {
        -q
    } else {
        q
    }
}

proof fn lemma_head_bound(d: Point, s: int, u: int, v: int)
    requires
        s == squared_length(d),
        s > 0,
        -0x7fff_ffff_ffff_ffff <= u <= 0x7fff_ffff_ffff_ffff,
        -0x7fff_ffff_ffff_ffff <= v <= 0x7fff_ffff_ffff_ffff,
    ensures
        (d.x * u + d.y * v) * (d.x * u + d.y * v)
            < 0x1_0000_0000_0000_0000_0000_0000_0000_0000int * s,
{
    lemma_cauchy_schwarz(d.x as int, d.y as int, u, v);
    lemma_clamped_product(u, u);
    lemma_clamped_product(v, v);
    let w = u * u + v * v;
    assert(s * w < 0x1_0000_0000_0000_0000_0000_0000_0000_0000int * s) by (nonlinear_arith)
        requires
            s > 0,
            w < 0x1_0000_0000_0000_0000_0000_0000_0000_0000int,
    ;
}

/// The point at `back` behind the tip of an arrow and `side` to its left.
fn point_behind(tip: Point, d: Point, length: u128, back: i64, side: i64) -> (r: Point)
    requires
        d.x >= -0x7fff_ffff_ffff_ffff,
        d.y >= -0x7fff_ffff_ffff_ffff,
        back >= -0x7fff_ffff_ffff_ffff,
        side >= -0x7fff_ffff_ffff_ffff,
        length == squared_length(d),
        length > 0,
    ensures
        r == behind(tip, d, back, side),
{
    proof {
        lemma_clamped_product(d.x as int, back as int);
        lemma_clamped_product(d.y as int, side as int);
        lemma_clamped_product(d.y as int, back as int);
        lemma_clamped_product(d.x as int, side as int);
        lemma_head_bound(d, length as int, back as int, side as int);
        lemma_head_bound(d, length as int, -side as int, back as int);
        assert(d.x * -side == -(d.x * side)) by (nonlinear_arith);
    }
    let along_x: i128 = wide_product(d.x, back) + wide_product(d.y, side);
    let along_y: i128 = wide_product(d.y, back) - wide_product(d.x, side);
    let x: i128 = divided_by_root(along_x, length);
    let y: i128 = divided_by_root(along_y, length);
    Point { x: clamp_wide(tip.x as i128 - x), y: clamp_wide(tip.y as i128 - y) }
}

/// The corners of the head of an arrow from `a` to `b`, beside its tip. An arrow
/// without a direction has no head.
pub fn head_corners(a: Point, b: Point, width: i64) -> (r: Option<(Point, Point)>)
    ensures
        r == if b.minus(a) == (Point { x: 0, y: 0 }) {
            None
        } else {
            Some(
                (
                    behind(b, b.minus(a), head_length(width), head_half_width(width)),
                    behind(b, b.minus(a), head_length(width), (-head_half_width(width)) as i64),
                ),
            )
        },
{
    let d: Point = b.minus(a);
    if d.x == 0 && d.y == 0 {
        return None;
    }
    let length: u128 = squared_length_of(d);
    let back: i64 = clamp_wide(HEAD_LENGTH as i128 + 2 * width as i128);
    let half: i64 = plus(HEAD_HALF_WIDTH, width);
    Some((point_behind(b, d, length, back, half), point_behind(b, d, length, back, -half)))
}

/// Paints an arrow.
fn paint_arrow(a: Point, b: Point, color: Rgba, width: i64, ops: &mut Vec<PaintOp>)
    ensures
        steps(final(ops)@) == steps(old(ops)@) + arrow(a, b, color, width),
{
    put(ops, PaintOp::StrokeLine { from: a, to: b, color, width });
    if let Some((left, right)) = head_corners(a, b, width) {
        put(ops, PaintOp::FillTriangle { tip: b, left, right, color });
    }
    proof {
        assert(steps(ops@) =~= steps(old(ops)@) + arrow(a, b, color, width));
    }
}

/// Paints the box around the selected annotation.
fn paint_selection_box(r: Rect, ops: &mut Vec<PaintOp>)
    ensures
        steps(final(ops)@) == steps(old(ops)@) + selection_box(r),
{
    let first: Rect = handle_at(
        Point { x: r.origin.x, y: plus(r.origin.y, r.size.height) },
    );
    let second: Rect = handle_at(
        Point { x: plus(r.origin.x, r.size.width), y: r.origin.y },
    );
    put(
        ops,
        PaintOp::StrokeRect { rect: inset(r, -SELECTION_MARGIN), color: accent(), width: UNIT },
    );
    put(ops, PaintOp::FillRect { rect: first, color: accent() });
    put(ops, PaintOp::StrokeRect { rect: first, color: white(), width: UNIT });
    put(ops, PaintOp::FillRect { rect: second, color: accent() });
    put(ops, PaintOp::StrokeRect { rect: second, color: white(), width: UNIT });
    proof {
        assert(steps(ops@) =~= steps(old(ops)@) + selection_box(r));
    }
}

/// Paints one command.
fn paint(c: &DrawCommand, h: i64, ops: &mut Vec<PaintOp>)
    ensures
        steps(final(ops)@) == steps(old(ops)@) + painted(c@, h),
{
    match c {
        DrawCommand::Rect { rect, color, width } => {
            put(
                ops,
                PaintOp::StrokeRect { rect: flip(*rect, h), color: *color, width: *width },
            );
        },
        DrawCommand::Ellipse { rect, color, width } => {
            put(
                ops,
                PaintOp::StrokeEllipse { rect: flip(*rect, h), color: *color, width: *width },
            );
        },
        DrawCommand::Line { from, to, color, width } => {
            put(
                ops,
                PaintOp::StrokeLine {
                    from: flip_point(*from, h),
                    to: flip_point(*to, h),
                    color: *color,
                    width: *width,
                },
            );
        },
        DrawCommand::Arrow { from, to, color, width } => {
            paint_arrow(flip_point(*from, h), flip_point(*to, h), *color, *width, ops);
        },
        DrawCommand::Highlight { rect } => {
            put(ops, PaintOp::FillRect { rect: flip(*rect, h), color: marker() });
        },
        DrawCommand::Redact { rect } => {
            // A plain colour and no mosaic: mosaics have been undone before.
            put(ops, PaintOp::FillRect { rect: flip(*rect, h), color: redaction() });
        },
        DrawCommand::Number { rect, value, color } => {
            put(ops, PaintOp::Number { rect: flip(*rect, h), value: *value, color: *color });
        },
        DrawCommand::Text { origin, text, color, size } => {
            let at: Point = Point {
                x: origin.x,
                y: minus(minus(h, origin.y), product_of(*size, LINE_HEIGHT)),
            };
            put(ops, PaintOp::Text { at, text: text.clone(), color: *color, size: *size });
        },
        DrawCommand::SelectionBox { rect } => {
            paint_selection_box(flip(*rect, h), ops);
        },
    }
    proof {
        assert(steps(ops@) =~= steps(old(ops)@) + painted(c@, h));
    }
}

/// Turns commands into paint operations, or into nothing where there are none.
///
/// `logical_height` is the height of the image at its logical size, whatever
/// the size of the canvas. `scale` enlarges everything: the zoom factor on the
/// screen, one for an export.
pub fn draw(cmds: &[DrawCommand], logical_height: i64, scale: i64) -> (r: Option<Drawing>)
    ensures
        r is None <==> cmds@.len() == 0,
        r matches Some(d) ==> d.scale == fixed::larger(scale as int, 1) && steps(d.ops@)
            == painting(commands(cmds@), logical_height),
{
    if cmds.len() == 0 {
        return None;
    }
    let mut ops: Vec<PaintOp> = Vec::new();
    proof {
        assert(steps(ops@) =~= painting(commands(cmds@).take(0), logical_height));
    }
    let mut i: usize = 0;
    while i < cmds.len()
        invariant
            i <= cmds@.len(),
            steps(ops@) == painting(commands(cmds@).take(i as int), logical_height),
        decreases cmds@.len() - i,
    {
        paint(&cmds[i], logical_height, &mut ops);
        proof {
            let next = commands(cmds@).take(i + 1);
            assert(next.drop_last() =~= commands(cmds@).take(i as int));
            assert(next.last() == cmds@[i as int]@);
        }
        i = i + 1;
    }
    proof {
        assert(commands(cmds@).take(i as int) =~= commands(cmds@));
    }
    Some(Drawing { scale: larger_of(scale, 1), ops })
}

/// Flipping a rectangle twice gives the rectangle back.
pub proof fn law_flipping_twice(r: Rect, h: i64)
    requires
        r.moderate(),
        geom::moderate(h as int),
    ensures
        flipped(flipped(r, h), h) == r,
{
}

/// Moving the sides of a rectangle outwards and back inwards gives it back.
pub proof fn law_outset_is_undone_by_inset(r: Rect, d: i64)
    requires
        r.moderate(),
        0 <= d <= geom::COORDINATE_LIMIT,
        r.size.width + 2 * d <= fixed::MAX_FIXED,
        r.size.height + 2 * d <= fixed::MAX_FIXED,
    ensures
        insetted(insetted(r, (-d) as i64), d) == r,
{
}

/// Commands are painted independently of each other: what is painted for two
/// lists, one after the other, is what is painted for each.
pub proof fn law_painting_is_in_order(first: Seq<CommandView>, second: Seq<CommandView>, h: i64)
    ensures
        painting(first + second, h) == painting(first, h) + painting(second, h),
    decreases second.len(),
{
    if second.len() == 0 {
        assert(first + second =~= first);
        assert(painting(first, h) + painting(second, h) =~= painting(first, h));
    } else {
        law_painting_is_in_order(first, second.drop_last(), h);
        assert((first + second).drop_last() =~= first + second.drop_last());
        assert(painting(first, h) + painting(second, h) =~= (painting(first, h) + painting(
            second.drop_last(),
            h,
        )) + painted(second.last(), h));
    }
}

/// The largest `f` with `f * f * s <= m * m`, searched from `k` upwards.
proof fn lemma_floor_of_quotient(m: int, s: int, k: int) -> (f: int)
    requires
        m >= 0,
        s > 0,
        0 <= k,
        (k * k) * s <= m * m,
    ensures
        f >= 0,
        (f * f) * s <= m * m < ((f + 1) * (f + 1)) * s,
    decreases m - k + 1,
{
    assert(k <= m) by (nonlinear_arith)
        requires
            (k * k) * s <= m * m,
            s > 0,
            k >= 0,
            m >= 0,
    ;
    if ((k + 1) * (k + 1)) * s <= m * m {
        lemma_floor_of_quotient(m, s, k + 1)
    } else {
        k
    }
}

/// A quotient by a square root has the sign of the dividend and is off by at most
/// one half: compared by squares, twice its magnitude is within one of twice the
/// dividend.
pub proof fn law_quotient_by_a_root_is_rounded(n: int, s: int)
    requires
        s > 0,
    ensures
        ({
            let q = over_root(n, s);
            let p = if q < 0 {
                -q
            } else {
                q
            };
            &&& n >= 0 ==> q >= 0
            &&& n <= 0 ==> q <= 0
            &&& 4 * (n * n) < ((2 * p + 1) * (2 * p + 1)) * s
            &&& p > 0 ==> ((2 * p - 1) * (2 * p - 1)) * s <= 4 * (n * n)
        }),
{
    let m = if n < 0 {
        -n
    } else {
        n
    };
    assert(m * m == n * n && m * m >= 0) by (nonlinear_arith)
        requires
            m == n || m == -n,
    ;
    assert((0int * 0) * s == 0) by (nonlinear_arith);
    let f = lemma_floor_of_quotient(m, s, 0);
    let up = (f * f + f) * s + (s + 3) / 4 <= m * m;
    lemma_over_root(m, s, f, up);
    assert((-m) * (-m) == m * m) by (nonlinear_arith);
    let p = if up {
        f + 1
    } else {
        f
    };
    assert((2 * f + 1) * (2 * f + 1) == 4 * (f * f + f) + 1) by (nonlinear_arith);
    assert((4 * (f * f + f) + 1) * s == 4 * ((f * f + f) * s) + s) by (nonlinear_arith);
    if up {
        assert(4 * (((f + 1) * (f + 1)) * s) <= ((2 * p + 1) * (2 * p + 1)) * s)
            by (nonlinear_arith)
            requires
                p == f + 1,
                f >= 0,
                s > 0,
        ;
    } else {
        assert(f > 0 ==> ((2 * f - 1) * (2 * f - 1)) * s <= 4 * ((f * f) * s))
            by (nonlinear_arith)
            requires
                s > 0,
        ;
    }
    if m == 0 {
        assert(f == 0 && !up) by (nonlinear_arith)
            requires
                (f * f) * s <= m * m,
                m == 0,
                f >= 0,
                s > 0,
                up == ((f * f + f) * s + (s + 3) / 4 <= m * m),
        ;
    }
}

/// `c` lies, up to rounding, `back` behind `tip` on an arrow from `a` to `tip` and
/// `side` beside it: each coordinate of the way from `c` to `tip`, times the length
/// of the arrow, is that of `back` along and `side` across the arrow.
pub open spec fn is_head_corner(c: Point, a: Point, tip: Point, back: int, side: int) -> bool {
    let dx = tip.x - a.x;
    let dy = tip.y - a.y;
    let s = dx * dx + dy * dy;
    &&& is_rounded_part(tip.x - c.x, dx * back + dy * side, s)
    &&& is_rounded_part(tip.y - c.y, dy * back - dx * side, s)
}

/// `q` is `n` divided by the square root of `s`, up to one half.
pub open spec fn is_rounded_part(q: int, n: int, s: int) -> bool {
    let p = if q < 0 {
        -q
    } else {
        q
    };
    &&& n >= 0 ==> q >= 0
    &&& n <= 0 ==> q <= 0
    &&& 4 * (n * n) < ((2 * p + 1) * (2 * p + 1)) * s
    &&& p > 0 ==> ((2 * p - 1) * (2 * p - 1)) * s <= 4 * (n * n)
}

/// A point behind the tip of an arrow is where its distances say, unless it leaves
/// the number range.
pub proof fn law_a_point_behind_lies_at_its_distances(a: Point, tip: Point, back: i64, side: i64)
    requires
        a.moderate(),
        tip.moderate(),
        a != tip,
        ({
            let p = behind(tip, tip.minus(a), back, side);
            &&& -fixed::MAX_FIXED < p.x < fixed::MAX_FIXED
            &&& -fixed::MAX_FIXED < p.y < fixed::MAX_FIXED
        }),
    ensures
        is_head_corner(behind(tip, tip.minus(a), back, side), a, tip, back as int, side as int),
{
    let d = tip.minus(a);
    lemma_square_is_positive(d.x as int);
    lemma_square_is_positive(d.y as int);
    let s = squared_length(d);
    law_quotient_by_a_root_is_rounded(d.x * back + d.y * side, s);
    law_quotient_by_a_root_is_rounded(d.y * back - d.x * side, s);
}

/// An arrow is a line from end to end and, unless its ends are equal, a triangle of
/// the same colour with its tip at the end. The base of the triangle is eight points
/// and two line widths behind the tip, and reaches four points and a line width to
/// either side.
pub proof fn law_an_arrow_is_a_line_with_a_head(a: Point, b: Point, color: Rgba, width: i64)
    requires
        a.moderate(),
        b.moderate(),
        0 <= width <= 1_000_000_000_000_000_000,
    ensures
        ({
            let ops = arrow(a, b, color, width);
            &&& ops[0] == (PaintView::StrokeLine { from: a, to: b, color, width })
            &&& a == b ==> ops.len() == 1
            &&& a != b ==> {
                &&& ops.len() == 2
                &&& ops[1] matches PaintView::FillTriangle { tip, left, right, color: filled }
                &&& tip == b
                &&& filled == color
                &&& left == behind(b, b.minus(a), (8_000_000 + 2 * width) as i64, (4_000_000
                    + width) as i64)
                &&& right == behind(b, b.minus(a), (8_000_000 + 2 * width) as i64, (-4_000_000
                    - width) as i64)
            }
        }),
{
}

/// `q` is where a rectangle of the image lies on a canvas of height `h` that counts
/// from the bottom: as wide, as high and as far to the right, and as far above the
/// bottom as the rest of the height says.
pub open spec fn upside_down(r: Rect, q: Rect, h: int) -> bool {
    &&& q.origin.x == r.origin.x
    &&& q.size == r.size
    &&& q.origin.y + q.size.height == h - r.origin.y
}

/// Each figure is painted in its place, with its colour and its line width. What is
/// redacted is covered by an opaque colour, what is highlighted by one that is not.
pub proof fn law_figures_are_painted_in_place(c: CommandView, h: i64)
    requires
        geom::moderate(h as int),
        c matches CommandView::Rect { rect, .. } ==> rect.moderate(),
        c matches CommandView::Ellipse { rect, .. } ==> rect.moderate(),
        c matches CommandView::Highlight { rect } ==> rect.moderate(),
        c matches CommandView::Redact { rect } ==> rect.moderate(),
        c matches CommandView::Number { rect, .. } ==> rect.moderate(),
        c matches CommandView::Line { from, to, .. } ==> from.moderate() && to.moderate(),
        c matches CommandView::Arrow { from, to, .. } ==> from.moderate() && to.moderate(),
    ensures
        c matches CommandView::Rect { rect, color, width } ==> (painted(c, h).len() == 1 && (
        painted(c, h)[0] matches PaintView::StrokeRect { rect: q, color: k, width: w }
            && upside_down(rect, q, h as int) && k == color && w == width)),
        c matches CommandView::Ellipse { rect, color, width } ==> (painted(c, h).len() == 1 && (
        painted(c, h)[0] matches PaintView::StrokeEllipse { rect: q, color: k, width: w }
            && upside_down(rect, q, h as int) && k == color && w == width)),
        c matches CommandView::Line { from, to, color, width } ==> (painted(c, h).len() == 1 && (
        painted(c, h)[0] matches PaintView::StrokeLine { from: f, to: t, color: k, width: w } && f.x
            == from.x && f.y == h - from.y && t.x == to.x && t.y == h - to.y && k == color && w
            == width)),
        c matches CommandView::Arrow { from, to, color, width } ==> painted(c, h) == arrow(
            Point { x: from.x, y: (h - from.y) as i64 },
            Point { x: to.x, y: (h - to.y) as i64 },
            color,
            width,
        ),
        c matches CommandView::Highlight { rect } ==> (painted(c, h).len() == 1 && (painted(
            c,
            h,
        )[0] matches PaintView::FillRect { rect: q, color: k } && upside_down(rect, q, h as int)
            && 0 < k.a < 1_000_000)),
        c matches CommandView::Redact { rect } ==> (painted(c, h).len() == 1 && (painted(c, h)[0]
            matches PaintView::FillRect { rect: q, color: k } && upside_down(rect, q, h as int)
            && k.a == 1_000_000)),
        c matches CommandView::Number { rect, value, color } ==> (painted(c, h).len() == 1 && (
        painted(c, h)[0] matches PaintView::Number { rect: q, value: v, color: k } && upside_down(
            rect,
            q,
            h as int,
        ) && v == value && k == color)),
{
}

/// A text is painted in its colour and size, from its left end, and the line of
/// text, which is a fifth higher than its font size, hangs from where it starts.
pub proof fn law_a_text_hangs_from_its_origin(c: CommandView, h: i64)
    requires
        geom::moderate(h as int),
        c matches CommandView::Text { origin, size, .. } ==> origin.moderate() && 0 <= size
            <= 1_000_000_000_000_000,
    ensures
        c matches CommandView::Text { origin, text, color, size } ==> (painted(c, h).len() == 1
            && (painted(c, h)[0] matches PaintView::Text { at, text: t, color: k, size: s } && t
            == text && k == color && s == size && at.x == origin.x && -1_000_000 <= 2 * ((h
            - origin.y - at.y) * 1_000_000 - size * 1_200_000) <= 1_000_000)),
{
    if let CommandView::Text { origin, text, color, size } = c {
        fixed::law_rounding_error(size * LINE_HEIGHT, UNIT as int);
    }
}

/// One command paints what it paints alone, none paints nothing, and more paint
/// what each of them does, in their order.
pub proof fn law_commands_are_painted_one_by_one(cmds: Seq<CommandView>, c: CommandView, h: i64)
    ensures
        painting(Seq::empty(), h).len() == 0,
        painting(cmds.push(c), h) == painting(cmds, h) + painted(c, h),
{
    assert(cmds.push(c).drop_last() =~= cmds);
}

/// The sides of a rectangle move inwards by the given distance, and meet where
/// there is not enough room.
pub proof fn law_sides_move_inwards(r: Rect, d: i64)
    requires
        r.moderate(),
        -1_000_000_000_000_000_000 <= d <= 1_000_000_000_000_000_000,
        r.size.width <= geom::COORDINATE_LIMIT,
        r.size.height <= geom::COORDINATE_LIMIT,
    ensures
        ({
            let q = insetted(r, d);
            &&& q.origin.x == r.origin.x + d
            &&& q.origin.y == r.origin.y + d
            &&& r.size.width >= 2 * d ==> q.origin.x + q.size.width == r.origin.x + r.size.width
                - d
            &&& r.size.height >= 2 * d ==> q.origin.y + q.size.height == r.origin.y
                + r.size.height - d
            &&& r.size.width < 2 * d ==> q.size.width == 0
            &&& r.size.height < 2 * d ==> q.size.height == 0
        }),
{
}

/// A centred label has as much room to its left as to its right and above as below,
/// up to one millionth.
pub proof fn law_labels_are_centred(r: Rect, size: Size)
    requires
        r.moderate(),
        0 <= size.width <= geom::COORDINATE_LIMIT,
        0 <= size.height <= geom::COORDINATE_LIMIT,
        r.size.width <= geom::COORDINATE_LIMIT,
        r.size.height <= geom::COORDINATE_LIMIT,
    ensures
        ({
            let p = centred(r, size);
            let left = p.x - r.origin.x;
            let right = r.origin.x + r.size.width - (p.x + size.width);
            let below = p.y - r.origin.y;
            let above = r.origin.y + r.size.height - (p.y + size.height);
            &&& -1 <= left - right <= 1
            &&& -1 <= below - above <= 1
        }),
{
    fixed::law_halving(fixed::clamped(r.size.width - size.width));
    fixed::law_halving(fixed::clamped(r.size.height - size.height));
}

/// A square of seven logical points around a point.
pub open spec fn surrounds(q: Rect, x: int, y: int) -> bool {
    &&& q.origin.x == x - 3_500_000
    &&& q.origin.y == y - 3_500_000
    &&& q.size.width == 7_000_000
    &&& q.size.height == 7_000_000
}

/// The box around the selected annotation lies three logical points outside of it,
/// and has its handles at the corners where a press grabs them: the top left and the
/// bottom right one.
pub proof fn law_the_selection_box_has_two_handles(rect: Rect, h: i64)
    requires
        rect.moderate(),
        geom::moderate(h as int),
        rect.size.width <= geom::COORDINATE_LIMIT,
        rect.size.height <= geom::COORDINATE_LIMIT,
        geom::moderate(h - rect.origin.y),
        geom::moderate(h - rect.origin.y - rect.size.height),
    ensures
        ({
            let ops = painted(CommandView::SelectionBox { rect }, h);
            let left = rect.origin.x;
            let top = h - rect.origin.y;
            &&& ops.len() == 5
            &&& (ops[0] matches PaintView::StrokeRect { rect: q, color, .. } && q.origin.x == left
                - 3_000_000 && q.size.width == rect.size.width + 6_000_000 && q.origin.y
                + q.size.height == top + 3_000_000 && q.size.height == rect.size.height + 6_000_000
                && color.a == 1_000_000)
            &&& (ops[1] matches PaintView::FillRect { rect: q, .. } && surrounds(
                q,
                left as int,
                top,
            ))
            &&& (ops[2] matches PaintView::StrokeRect { rect: q, .. } && surrounds(
                q,
                left as int,
                top,
            ))
            &&& (ops[3] matches PaintView::FillRect { rect: q, .. } && surrounds(
                q,
                left + rect.size.width,
                top - rect.size.height,
            ))
            &&& (ops[4] matches PaintView::StrokeRect { rect: q, .. } && surrounds(
                q,
                left + rect.size.width,
                top - rect.size.height,
            ))
        }),
{
}

/// What is known of a command or of a paint operation with a text is its text, where it
/// is, its colour and its size, and lists of them are known one by one.
pub proof fn law_views_hold_the_text(
    c: DrawCommand,
    op: PaintOp,
    cmds: Seq<DrawCommand>,
    ops: Seq<PaintOp>,
    i: int,
)
    ensures
        c matches DrawCommand::Text { origin, text, color, size } ==> c@ == (CommandView::Text {
            origin,
            text: text@,
            color,
            size,
        }),
        op matches PaintOp::Text { at, text, color, size } ==> op@ == (PaintView::Text {
            at,
            text: text@,
            color,
            size,
        }),
        commands(cmds).len() == cmds.len(),
        steps(ops).len() == ops.len(),
        0 <= i < cmds.len() ==> commands(cmds)[i] == cmds[i]@,
        0 <= i < ops.len() ==> steps(ops)[i] == ops[i]@,
{
}

} // verus!

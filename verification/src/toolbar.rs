//! The toolbar below a pinned image.
//!
//! Coordinates are those of the toolbar's own view: the origin is its bottom
//! left corner and y grows upwards.

use vstd::prelude::*;

use crate::draw;
use crate::draw::{accent, centre, inset, put, white, PaintOp, PaintView, Rgba};
use crate::fixed;
use crate::fixed::{clamp_wide, half_of, smaller_of, UNIT};
use crate::geom::{Point, Rect, Size};
use crate::input::HandlerId;

verus! {

pub const BUTTON_W: i64 = 52_000_000;

pub const BUTTON_H: i64 = 26_000_000;

/// The gap around the buttons.
pub const PADDING: i64 = 5_000_000;

/// The corner radius of a button.
pub const CORNER: i64 = 5_000_000;

/// The corner radius of the toolbar.
pub const OUTER_CORNER: i64 = 7_000_000;

pub const FONT_SIZE: i64 = 12_000_000;

/// The distance from one button to the next.
pub const PITCH: i128 = 57_000_000;

/// A button of the toolbar.
#[derive(Debug, PartialEq)]
pub struct ToolbarItem {
    pub id: u32,
    pub label: String,
    pub selected: bool,
}

/// The contents of a [`ToolbarItem`].
pub struct ItemView {
    pub id: u32,
    pub label: Seq<char>,
    pub selected: bool,
}

impl View for ToolbarItem {
    type V = ItemView;

    open spec fn view(&self) -> ItemView {
        ItemView { id: self.id, label: self.label@, selected: self.selected }
    }
}

impl Clone for ToolbarItem {
    fn clone(&self) -> (r: ToolbarItem)
        ensures
            r == *self,
    {
        ToolbarItem { id: self.id, label: self.label.clone(), selected: self.selected }
    }
}

pub open spec fn item_views(items: Seq<ToolbarItem>) -> Seq<ItemView> {
    items.map_values(|i: ToolbarItem| i@)
}

/// The size of a toolbar with `count` buttons.
pub open spec fn size_for(count: int) -> Size {
    Size {
        width: fixed::clamped(count * PITCH + PADDING),
        height: (BUTTON_H + 2 * PADDING) as i64,
    }
}

/// Where button `i` lies.
pub open spec fn button(i: int) -> Rect {
    Rect {
        origin: Point { x: fixed::clamped(PADDING + i * PITCH), y: PADDING },
        size: Size { width: BUTTON_W, height: BUTTON_H },
    }
}

/// The first of the first `n` buttons that a point lies on.
pub open spec fn button_at(n: int, p: Point) -> Option<int>
    decreases n,
{
    if n <= 0 {
        None
    } else {
        match button_at(n - 1, p) {
            Some(i) => Some(i),
            None => if button(n - 1).contains(p) {
                Some(n - 1)
            } else {
                None
            },
        }
    }
}

/// The radius of the corners of a rectangle, which its sides have to have room
/// for.
pub open spec fn fitting_radius(r: Rect, radius: i64) -> i64 {
    fixed::smaller(
        fixed::smaller(radius as int, fixed::halved(r.size.width) as int),
        fixed::halved(r.size.height) as int,
    ) as i64
}

pub open spec fn spec_plate() -> Rgba {
    Rgba { r: 110_000, g: 110_000, b: 120_000, a: 940_000 }
}

/// The colour of the toolbar: dark, so that it stands out from any image.
#[verifier::when_used_as_spec(spec_plate)]
fn plate() -> (c: Rgba)
    ensures
        c == spec_plate(),
{
    Rgba { r: 110_000, g: 110_000, b: 120_000, a: 940_000 }
}

pub open spec fn spec_rim() -> Rgba {
    Rgba { r: 1_000_000, g: 1_000_000, b: 1_000_000, a: 140_000 }
}

/// The colour of the line around the toolbar.
#[verifier::when_used_as_spec(spec_rim)]
fn rim() -> (c: Rgba)
    ensures
        c == spec_rim(),
{
    Rgba { r: 1_000_000, g: 1_000_000, b: 1_000_000, a: 140_000 }
}

pub open spec fn spec_faint() -> Rgba {
    Rgba { r: 820_000, g: 820_000, b: 850_000, a: 1_000_000 }
}

/// The colour of the labels of unselected buttons.
#[verifier::when_used_as_spec(spec_faint)]
fn faint() -> (c: Rgba)
    ensures
        c == spec_faint(),
{
    Rgba { r: 820_000, g: 820_000, b: 850_000, a: 1_000_000 }
}

/// The paint operations of button `i`, whose label has the given size.
pub open spec fn button_painting(i: int, item: ItemView, size: Size) -> Seq<PaintView> {
    let r = button(i);
    let label = PaintView::Text {
        at: draw::centred(r, size),
        text: item.label,
        color: if item.selected {
            draw::spec_white()
        } else {
            spec_faint()
        },
        size: FONT_SIZE,
    };
    if item.selected {
        seq![
            PaintView::FillRoundRect {
                rect: r,
                radius: fitting_radius(r, CORNER),
                color: draw::spec_accent(),
            },
            label,
        ]
    } else {
        seq![label]
    }
}

pub open spec fn buttons_painting(items: Seq<ItemView>, sizes: Seq<Size>) -> Seq<PaintView>
    decreases items.len(),
{
    if items.len() == 0 {
        Seq::empty()
    } else {
        buttons_painting(items.drop_last(), sizes) + button_painting(
            items.len() - 1,
            items.last(),
            sizes[items.len() - 1],
        )
    }
}

/// The paint operations of a toolbar: a plate, a line around it, and the
/// buttons.
pub open spec fn toolbar_painting(bounds: Rect, items: Seq<ItemView>, sizes: Seq<Size>) -> Seq<
    PaintView,
> {
    let edge = draw::insetted(bounds, fixed::HALF);
    seq![
        PaintView::FillRoundRect {
            rect: bounds,
            radius: fitting_radius(bounds, OUTER_CORNER),
            color: spec_plate(),
        },
        PaintView::StrokeRoundRect {
            rect: edge,
            radius: fitting_radius(edge, OUTER_CORNER),
            color: spec_rim(),
            width: UNIT,
        },
    ] + buttons_painting(items, sizes)
}

/// The size that a toolbar with `count` buttons needs.
pub fn toolbar_size(count: usize) -> (r: Size)
    ensures
        r == size_for(count as int),
{
    Size {
        width: clamp_wide(count as i128 * PITCH + PADDING as i128),
        height: BUTTON_H + 2 * PADDING,
    }
}

/// The state of a toolbar.
pub struct ToolbarViewIvars {
    pub items: Vec<ToolbarItem>,
    /// Is told which button was clicked.
    pub handler: Option<HandlerId>,
    /// The toolbar has to be drawn again.
    pub needs_display: bool,
}

/// The toolbar.
pub struct ToolbarView {
    pub ivars: ToolbarViewIvars,
}

/// The contents of a [`ToolbarView`].
pub struct ToolbarState {
    pub items: Seq<ItemView>,
    pub handler: Option<HandlerId>,
    pub needs_display: bool,
}

impl View for ToolbarView {
    type V = ToolbarState;

    open spec fn view(&self) -> ToolbarState {
        ToolbarState {
            items: item_views(self.ivars.items@),
            handler: self.ivars.handler,
            needs_display: self.ivars.needs_display,
        }
    }
}

impl ToolbarState {
    /// What a click at `p` tells the handler.
    pub open spec fn clicked(self, p: Point) -> Option<(HandlerId, u32)> {
        match (self.handler, button_at(self.items.len() as int, p)) {
            (Some(handler), Some(i)) => Some((handler, self.items[i].id)),
            _ => None,
        }
    }
}

impl ToolbarView {
    /// A toolbar without buttons.
    pub fn new() -> (r: ToolbarView)
        ensures
            r@ == (ToolbarState { items: Seq::empty(), handler: None, needs_display: false }),
    {
        let r: ToolbarView = ToolbarView {
            ivars: ToolbarViewIvars { items: Vec::new(), handler: None, needs_display: false },
        };
        proof {
            assert(r@.items =~= Seq::empty());
        }
        r
    }

    /// Replaces the buttons.
    pub fn set_items(&mut self, items: &[ToolbarItem])
        ensures
            final(self)@ == (ToolbarState {
                items: item_views(items@),
                needs_display: true,
                ..old(self)@
            }),
    {
        let mut copy: Vec<ToolbarItem> = Vec::new();
        let mut i: usize = 0;
        while i < items.len()
            invariant
                i <= items@.len(),
                copy@ == items@.take(i as int),
            decreases items@.len() - i,
        {
            copy.push(items[i].clone());
            i = i + 1;
            proof {
                assert(copy@ =~= items@.take(i as int));
            }
        }
        proof {
            assert(copy@ =~= items@);
        }
        self.ivars.items = copy;
        self.ivars.needs_display = true;
    }

    pub fn set_handler(&mut self, handler: HandlerId)
        ensures
            final(self)@ == (ToolbarState { handler: Some(handler), ..old(self)@ }),
    {
        self.ivars.handler = Some(handler);
    }

    /// Where button `i` lies.
    pub fn button_rect(&self, i: usize) -> (r: Rect)
        ensures
            r == button(i as int),
    {
        Rect {
            origin: Point { x: clamp_wide(PADDING as i128 + i as i128 * PITCH), y: PADDING },
            size: Size { width: BUTTON_W, height: BUTTON_H },
        }
    }

    /// The identifier of the button that a point lies on.
    pub fn hit_test_button(&self, p: Point) -> (r: Option<u32>)
        ensures
            r == match button_at(self@.items.len() as int, p) {
                Some(i) => Some(self@.items[i].id),
                None => None,
            },
    {
        let mut i: usize = 0;
        while i < self.ivars.items.len()
            invariant
                i <= self.ivars.items@.len(),
                button_at(i as int, p) is None,
            decreases self.ivars.items@.len() - i,
        {
            if self.button_rect(i).contains(p) {
                proof {
                    lemma_first_button(i + 1, self.ivars.items@.len() as int, p);
                }
                return Some(self.ivars.items[i].id);
            }
            i = i + 1;
        }
        None
    }

    /// The button goes down at `p`: whom to tell, and what.
    pub fn mouse_down(&self, p: Point) -> (r: Option<(HandlerId, u32)>)
        ensures
            r == self@.clicked(p),
    {
        match self.hit_test_button(p) {
            Some(id) => match self.ivars.handler {
                Some(handler) => Some((handler, id)),
                None => None,
            },
            None => None,
        }
    }

    /// The paint operations of the toolbar. `sizes` holds the sizes of the
    /// labels.
    pub fn draw(&self, bounds: Rect, sizes: &[Size]) -> (r: Vec<PaintOp>)
        requires
            sizes@.len() == self@.items.len(),
        ensures
            draw::steps(r@) == toolbar_painting(bounds, self@.items, sizes@),
    {
        let mut ops: Vec<PaintOp> = Vec::new();
        put(
            &mut ops,
            PaintOp::FillRoundRect {
                rect: bounds,
                radius: radius_in(bounds, OUTER_CORNER),
                color: plate(),
            },
        );
        let edge: Rect = inset(bounds, fixed::HALF);
        put(
            &mut ops,
            PaintOp::StrokeRoundRect {
                rect: edge,
                radius: radius_in(edge, OUTER_CORNER),
                color: rim(),
                width: UNIT,
            },
        );
        let ghost frame = draw::steps(ops@);
        let mut i: usize = 0;
        proof {
            assert(draw::steps(ops@) =~= frame + buttons_painting(self@.items.take(0), sizes@));
        }
        while i < self.ivars.items.len()
            invariant
                i <= self.ivars.items@.len(),
                sizes@.len() == self.ivars.items@.len(),
                draw::steps(ops@) == frame + buttons_painting(
                    self@.items.take(i as int),
                    sizes@,
                ),
            decreases self.ivars.items@.len() - i,
        {
            let ghost before = draw::steps(ops@);
            let r: Rect = self.button_rect(i);
            let item: &ToolbarItem = &self.ivars.items[i];
            if item.selected {
                put(
                    &mut ops,
                    PaintOp::FillRoundRect {
                        rect: r,
                        radius: radius_in(r, CORNER),
                        color: accent(),
                    },
                );
            }
            let color: Rgba = if item.selected {
                white()
            } else {
                faint()
            };
            put(
                &mut ops,
                PaintOp::Text {
                    at: centre(r, sizes[i]),
                    text: item.label.clone(),
                    color,
                    size: FONT_SIZE,
                },
            );
            proof {
                let next = self@.items.take(i + 1);
                assert(next.drop_last() =~= self@.items.take(i as int));
                assert(next.last() == item@);
                assert(draw::steps(ops@) =~= before + button_painting(
                    i as int,
                    item@,
                    sizes@[i as int],
                ));
                assert(draw::steps(ops@) =~= frame + buttons_painting(next, sizes@));
            }
            i = i + 1;
        }
        proof {
            assert(self@.items.take(i as int) =~= self@.items);
        }
        ops
    }
}

fn radius_in(r: Rect, radius: i64) -> (q: i64)
    ensures
        q == fitting_radius(r, radius),
{
    smaller_of(smaller_of(radius, half_of(r.size.width)), half_of(r.size.height))
}

proof fn lemma_first_button(m: int, n: int, p: Point)
    requires
        0 <= m <= n,
        button_at(m, p) is Some,
    ensures
        button_at(n, p) == button_at(m, p),
    decreases n - m,
{
    if m < n {
        lemma_first_button(m, n - 1, p);
    }
}

proof fn lemma_button_at(n: int, p: Point)
    ensures
        button_at(n, p) matches Some(i) ==> 0 <= i < n && button(i).contains(p),
        button_at(n, p) is None ==> forall|i: int|
            0 <= i < n ==> !(#[trigger] button(i)).contains(p),
    decreases n,
{
    if n > 0 {
        lemma_button_at(n - 1, p);
    }
}

/// A toolbar of at most so many buttons lies well inside the number range.
pub open spec fn reasonable(count: int) -> bool {
    0 <= count <= 0xffff_ffff
}

/// The buttons lie inside of the toolbar, with a gap all around.
pub proof fn law_buttons_fit(i: int, count: int)
    requires
        0 <= i < count,
        reasonable(count),
    ensures
        button(i).origin.x >= PADDING,
        button(i).origin.y >= PADDING,
        button(i).origin.x + button(i).size.width + PADDING <= size_for(count).width,
        button(i).origin.y + button(i).size.height + PADDING <= size_for(count).height,
{
}

/// A click on a button reports that button and no other.
pub proof fn law_a_click_hits_its_button(state: ToolbarState, i: int, p: Point)
    requires
        0 <= i < state.items.len(),
        reasonable(state.items.len() as int),
        button(i).contains(p),
    ensures
        button_at(state.items.len() as int, p) == Some(i),
        state.handler matches Some(handler) ==> state.clicked(p) == Some(
            (handler, state.items[i].id),
        ),
{
    lemma_button_at(state.items.len() as int, p);
}

/// A click beside the buttons reports nothing.
pub proof fn law_a_click_beside_the_buttons(state: ToolbarState, p: Point)
    requires
        forall|i: int| 0 <= i < state.items.len() ==> !(#[trigger] button(i)).contains(p),
    ensures
        state.clicked(p) is None,
{
    lemma_button_at(state.items.len() as int, p);
}

/// The buttons stand in a row from left to right, five logical points apart, each
/// fifty-two wide and twenty-six high, and the toolbar is as large as they need with
/// five points all around.
pub proof fn law_buttons_stand_in_a_row(i: int, count: int)
    requires
        0 <= i < count,
        reasonable(count),
    ensures
        button(i).origin.x == 5_000_000 + i * 57_000_000,
        button(i).origin.y == 5_000_000,
        button(i).size.width == 52_000_000,
        button(i).size.height == 26_000_000,
        button(i + 1).origin.x - (button(i).origin.x + button(i).size.width) == 5_000_000,
        button(count - 1).origin.x + button(count - 1).size.width + 5_000_000 == size_for(
            count,
        ).width,
        size_for(count).height == 36_000_000,
{
}

/// A click tells the handler if and only if it lies on a button: the column of the
/// point says which.
pub proof fn law_a_click_is_told_by_its_place(state: ToolbarState, p: Point, i: int)
    requires
        0 <= i < state.items.len(),
        reasonable(state.items.len() as int),
        state.handler is Some,
    ensures
        5_000_000 + i * 57_000_000 <= p.x < 57_000_000 + i * 57_000_000 && 5_000_000 <= p.y
            < 31_000_000 ==> state.clicked(p) == Some((state.handler->0, state.items[i].id)),
        p.y < 5_000_000 || p.y >= 31_000_000 ==> state.clicked(p) is None,
        57_000_000 + i * 57_000_000 <= p.x < 62_000_000 + i * 57_000_000 ==> state.clicked(p)
            is None,
        p.x < 5_000_000 ==> state.clicked(p) is None,
{
    let n = state.items.len() as int;
    lemma_button_at(n, p);
    if button(i).contains(p) {
        law_a_click_hits_its_button(state, i, p);
    }
    assert forall|k: int|
        0 <= k < n && (p.y < 5_000_000 || p.y >= 31_000_000 || p.x < 5_000_000 || (57_000_000 + i
            * 57_000_000 <= p.x < 62_000_000 + i * 57_000_000)) implies !(#[trigger] button(
        k,
    )).contains(p) by {
        assert(k <= i ==> k * 57_000_000 <= i * 57_000_000);
    }
}

/// The button of the tool in use is filled, and every button shows its label in its
/// middle.
pub proof fn law_a_button_shows_its_label(i: int, item: ItemView, size: Size)
    ensures
        ({
            let ops = button_painting(i, item, size);
            &&& ops.len() == if item.selected {
                2int
            } else {
                1int
            }
            &&& ops[ops.len() - 1] matches PaintView::Text { at, text, color, size: font }
            &&& text == item.label
            &&& at == draw::centred(button(i), size)
            &&& font == 12_000_000
            &&& color.a == 1_000_000
            &&& item.selected ==> (ops[0] matches PaintView::FillRoundRect { rect, radius, color: c }
                && rect == button(i) && c.a == 1_000_000 && radius == 5_000_000)
        }),
{
    fixed::law_halving(52_000_000);
    fixed::law_halving(26_000_000);
}

/// A toolbar is a plate as large as its bounds, a line around it and its buttons, one
/// after the other.
pub proof fn law_a_toolbar_shows_its_buttons(
    bounds: Rect,
    items: Seq<ItemView>,
    item: ItemView,
    sizes: Seq<Size>,
)
    ensures
        toolbar_painting(bounds, Seq::empty(), sizes).len() == 2,
        toolbar_painting(bounds, items, sizes)[0] matches PaintView::FillRoundRect { rect, .. }
            && rect == bounds,
        toolbar_painting(bounds, items, sizes)[1] is StrokeRoundRect,
        toolbar_painting(bounds, items.push(item), sizes) == toolbar_painting(bounds, items, sizes)
            + button_painting(items.len() as int, item, sizes[items.len() as int]),
{
    assert(items.push(item).drop_last() =~= items);
    assert(toolbar_painting(bounds, items.push(item), sizes) =~= toolbar_painting(
        bounds,
        items,
        sizes,
    ) + button_painting(items.len() as int, item, sizes[items.len() as int]));
}

/// Corners are as round as asked for where there is room, and never rounder than
/// half of a side.
pub proof fn law_corners_fit(r: Rect, radius: i64)
    ensures
        fitting_radius(r, radius) <= radius,
        2 * fitting_radius(r, radius) <= r.size.width + 1,
        2 * fitting_radius(r, radius) <= r.size.height + 1,
        2 * radius <= r.size.width && 2 * radius <= r.size.height ==> fitting_radius(r, radius)
            == radius,
{
    fixed::law_halving(r.size.width);
    fixed::law_halving(r.size.height);
}

} // verus!

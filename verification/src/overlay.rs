//! The overlays that cover the displays while a region is selected.
//!
//! A window belongs to one display only, so there is one overlay per display.
//! They share one handler, which sees the pointer in the coordinates of the
//! whole desktop.

use vstd::prelude::*;

use crate::draw;
use crate::draw::{put, PaintOp, PaintView, Rgba};
use crate::fixed;
use crate::fixed::{minus, plus, UNIT};
use crate::geom::{Point, Rect};
use crate::input::{HandlerId, PointerEvent};
use crate::platform::{Error, PlatformKind};
use crate::screen::{ScreenId, ScreenInfo};

verus! {

/// The state of an overlay.
#[derive(Debug, Clone, Copy, PartialEq, Eq, Structural)]
pub struct OverlayViewIvars {
    /// Where the display lies.
    pub screen_frame: Rect,
    /// The height of the primary display.
    pub primary_height: i64,
    /// Is told about pointer events.
    pub handler: Option<HandlerId>,
    /// The region that is selected, on whatever displays it lies.
    pub selection: Option<Rect>,
    /// The overlay has to be drawn again.
    pub needs_display: bool,
}

/// An overlay.
#[derive(Debug, Clone, Copy, PartialEq, Eq, Structural)]
pub struct OverlayView {
    pub ivars: OverlayViewIvars,
}

pub open spec fn spec_shade() -> Rgba {
    Rgba { r: 0, g: 0, b: 0, a: 350_000 }
}

/// What darkens a display.
#[verifier::when_used_as_spec(spec_shade)]
fn shade() -> (c: Rgba)
    ensures
        c == spec_shade(),
{
    Rgba { r: 0, g: 0, b: 0, a: 350_000 }
}

pub open spec fn spec_outline() -> Rgba {
    Rgba { r: 1_000_000, g: 230_000, b: 190_000, a: 1_000_000 }
}

/// The colour of the line around the selection.
#[verifier::when_used_as_spec(spec_outline)]
fn outline() -> (c: Rgba)
    ensures
        c == spec_outline(),
{
    Rgba { r: 1_000_000, g: 230_000, b: 190_000, a: 1_000_000 }
}

impl OverlayViewIvars {
    /// Where on the desktop a point of the window lies, in the coordinates of
    /// the windowing system and in ours.
    pub open spec fn global(self, in_window: Point, window_origin: Point) -> Point {
        Point {
            x: fixed::clamped(window_origin.x + in_window.x),
            y: fixed::clamped(
                self.primary_height - fixed::clamped(window_origin.y + in_window.y),
            ),
        }
    }

    /// A rectangle of the desktop in the coordinates of the overlay's view.
    pub open spec fn local(self, r: Rect) -> Rect {
        let top = fixed::clamped(r.origin.y - self.screen_frame.origin.y);
        Rect {
            origin: Point {
                x: fixed::clamped(r.origin.x - self.screen_frame.origin.x),
                y: fixed::clamped(
                    self.screen_frame.size.height - fixed::clamped(top + r.size.height),
                ),
            },
            size: r.size,
        }
    }

    /// The part of the selection on this display.
    pub open spec fn visible_part(self) -> Option<Rect> {
        match self.selection {
            Some(selection) => selection.intersection(&self.screen_frame),
            None => None,
        }
    }

    /// The paint operations of the overlay: everything dark but the selection,
    /// which has a line around it.
    pub open spec fn painting(self, bounds: Rect) -> Seq<PaintView> {
        let full = Rect { origin: Point { x: 0, y: 0 }, size: bounds.size };
        let dark = seq![PaintView::FillRect { rect: full, color: spec_shade() }];
        match self.visible_part() {
            None => dark,
            Some(part) => dark + seq![
                PaintView::Clear { rect: self.local(part) },
                PaintView::StrokeRect {
                    rect: self.local(part),
                    color: spec_outline(),
                    width: UNIT,
                },
            ],
        }
    }

    /// Whom to tell about a pointer event.
    pub open spec fn told(self, event: PointerEvent) -> Option<(HandlerId, PointerEvent)> {
        match self.handler {
            Some(handler) => Some((handler, event)),
            None => None,
        }
    }
}

impl OverlayView {
    pub fn new(ivars: OverlayViewIvars) -> (r: OverlayView)
        ensures
            r.ivars == ivars,
    {
        OverlayView { ivars }
    }

    pub fn set_handler(&mut self, handler: HandlerId)
        ensures
            final(self).ivars == (OverlayViewIvars { handler: Some(handler), ..old(self).ivars }),
    {
        self.ivars.handler = Some(handler);
    }

    pub fn set_selection(&mut self, rect: Option<Rect>)
        ensures
            final(self).ivars == (OverlayViewIvars {
                selection: rect,
                needs_display: true,
                ..old(self).ivars
            }),
    {
        self.ivars.selection = rect;
        self.ivars.needs_display = true;
    }

    fn emit(&self, event: PointerEvent) -> (r: Option<(HandlerId, PointerEvent)>)
        ensures
            r == self.ivars.told(event),
    {
        match self.ivars.handler {
            Some(handler) => Some((handler, event)),
            None => None,
        }
    }

    /// The button goes down at a point of the window, whose origin is given
    /// unless there is no window. Returns whom to tell, and what.
    pub fn mouse_down(&self, in_window: Point, window_origin: Option<Point>) -> (r: Option<
        (HandlerId, PointerEvent),
    >)
        ensures
            r == self.ivars.told(
                PointerEvent::Down(self.ivars.global(in_window, origin_or_zero(window_origin))),
            ),
    {
        let p: Point = self.global_point(in_window, window_origin);
        self.emit(PointerEvent::Down(p))
    }

    /// The mouse moves with the button down.
    pub fn mouse_dragged(&self, in_window: Point, window_origin: Option<Point>) -> (r: Option<
        (HandlerId, PointerEvent),
    >)
        ensures
            r == self.ivars.told(
                PointerEvent::Moved(self.ivars.global(in_window, origin_or_zero(window_origin))),
            ),
    {
        let p: Point = self.global_point(in_window, window_origin);
        self.emit(PointerEvent::Moved(p))
    }

    /// The button goes up.
    pub fn mouse_up(&self, in_window: Point, window_origin: Option<Point>) -> (r: Option<
        (HandlerId, PointerEvent),
    >)
        ensures
            r == self.ivars.told(
                PointerEvent::Up(self.ivars.global(in_window, origin_or_zero(window_origin))),
            ),
    {
        let p: Point = self.global_point(in_window, window_origin);
        self.emit(PointerEvent::Up(p))
    }

    /// The right button goes down, which cancels. Escape would not do: a window
    /// like this does not always get key events.
    pub fn right_mouse_down(&self) -> (r: Option<(HandlerId, PointerEvent)>)
        ensures
            r == self.ivars.told(PointerEvent::Cancel),
    {
        self.emit(PointerEvent::Cancel)
    }

    /// Where on the desktop a point of the window lies.
    pub fn global_point(&self, in_window: Point, window_origin: Option<Point>) -> (r: Point)
        ensures
            r == self.ivars.global(in_window, origin_or_zero(window_origin)),
    {
        let origin: Point = match window_origin {
            Some(origin) => origin,
            None => Point { x: 0, y: 0 },
        };
        Point {
            x: plus(origin.x, in_window.x),
            y: minus(self.ivars.primary_height, plus(origin.y, in_window.y)),
        }
    }

    /// A rectangle of the desktop in the coordinates of the overlay's view.
    pub fn to_local(&self, r: Rect) -> (q: Rect)
        ensures
            q == self.ivars.local(r),
    {
        let frame: Rect = self.ivars.screen_frame;
        let top: i64 = minus(r.origin.y, frame.origin.y);
        Rect {
            origin: Point {
                x: minus(r.origin.x, frame.origin.x),
                y: minus(frame.size.height, plus(top, r.size.height)),
            },
            size: r.size,
        }
    }

    /// The paint operations of the overlay.
    pub fn draw(&self, bounds: Rect) -> (r: Vec<PaintOp>)
        ensures
            draw::steps(r@) == self.ivars.painting(bounds),
    {
        let mut ops: Vec<PaintOp> = Vec::new();
        let full: Rect = Rect { origin: Point { x: 0, y: 0 }, size: bounds.size };
        put(&mut ops, PaintOp::FillRect { rect: full, color: shade() });
        if let Some(selection) = self.ivars.selection {
            if let Some(part) = selection.intersection(&self.ivars.screen_frame) {
                let local: Rect = self.to_local(part);
                put(&mut ops, PaintOp::Clear { rect: local });
                put(&mut ops, PaintOp::StrokeRect { rect: local, color: outline(), width: UNIT });
            }
        }
        proof {
            assert(draw::steps(ops@) =~= self.ivars.painting(bounds));
        }
        ops
    }
}

pub open spec fn origin_or_zero(origin: Option<Point>) -> Point {
    match origin {
        Some(origin) => origin,
        None => Point { x: 0, y: 0 },
    }
}

/// An overlay with the display that it covers.
#[derive(Debug, Clone, Copy, PartialEq, Eq, Structural)]
pub struct OverlayWindow {
    pub view: OverlayView,
    pub screen_id: ScreenId,
    pub frame: Rect,
}

/// A request to the windowing code, about one overlay.
#[derive(Debug, Clone, Copy, PartialEq, Eq, Structural)]
pub enum OverlayAction {
    /// Makes the window, with this frame in the coordinates of the windowing
    /// system.
    Create(Rect),
    Show,
    Hide,
    Close,
}

/// The overlays of all displays.
pub struct OverlaySet {
    pub overlays: Vec<OverlayWindow>,
}

impl View for OverlaySet {
    type V = Seq<OverlayWindow>;

    open spec fn view(&self) -> Seq<OverlayWindow> {
        self.overlays@
    }
}

/// The overlay of a display.
pub open spec fn covering(screen: ScreenInfo, primary_height: i64) -> OverlayWindow {
    OverlayWindow {
        view: OverlayView {
            ivars: OverlayViewIvars {
                screen_frame: screen.frame,
                primary_height,
                handler: None,
                selection: None,
                needs_display: false,
            },
        },
        screen_id: screen.id,
        frame: screen.frame,
    }
}

/// The same request to every overlay.
pub open spec fn to_all(overlays: Seq<OverlayWindow>, action: OverlayAction) -> Seq<
    (ScreenId, OverlayAction),
> {
    overlays.map_values(|o: OverlayWindow| (o.screen_id, action))
}

pub open spec fn with_handler(o: OverlayWindow, handler: HandlerId) -> OverlayWindow {
    OverlayWindow {
        view: OverlayView {
            ivars: OverlayViewIvars { handler: Some(handler), ..o.view.ivars },
        },
        ..o
    }
}

pub open spec fn with_selection(o: OverlayWindow, rect: Option<Rect>) -> OverlayWindow {
    OverlayWindow {
        view: OverlayView {
            ivars: OverlayViewIvars { selection: rect, needs_display: true, ..o.view.ivars },
        },
        ..o
    }
}

/// The first overlay whose display a point lies on.
pub open spec fn first_at(overlays: Seq<OverlayWindow>, p: Point) -> Option<OverlayWindow>
    decreases overlays.len(),
{
    if overlays.len() == 0 {
        None
    } else if overlays[0].frame.contains(p) {
        Some(overlays[0])
    } else {
        first_at(overlays.skip(1), p)
    }
}

/// Makes the overlay of one display.
pub fn create_overlay(screen: &ScreenInfo, primary_height: i64) -> (r: (OverlayWindow, Rect))
    ensures
        r.0 == covering(*screen, primary_height),
        r.1 == draw::flipped(screen.frame, primary_height),
{
    let view: OverlayView = OverlayView::new(
        OverlayViewIvars {
            screen_frame: screen.frame,
            primary_height,
            handler: None,
            selection: None,
            needs_display: false,
        },
    );
    (
        OverlayWindow { view, screen_id: screen.id, frame: screen.frame },
        crate::platform::to_cocoa(screen.frame, primary_height),
    )
}

impl OverlaySet {
    /// Makes an overlay for every display.
    pub fn covering_all_screens(
        platform: PlatformKind,
        screens: &[ScreenInfo],
        primary_height: i64,
    ) -> (r: Result<(OverlaySet, Vec<(ScreenId, OverlayAction)>), Error>)
        ensures
            r is Ok <==> platform == PlatformKind::Mac,
            r matches Ok((set, actions)) ==> set@ == screens@.map_values(
                |s: ScreenInfo| covering(s, primary_height),
            ) && actions@ == screens@.map_values(
                |s: ScreenInfo|
                    (s.id, OverlayAction::Create(draw::flipped(s.frame, primary_height))),
            ),
            r matches Err(e) ==> (e matches Error::Unsupported(what) && what@ == "screens"@),
    {
        if platform == PlatformKind::Stub {
            return Err(Error::Unsupported("screens"));
        }
        let mut overlays: Vec<OverlayWindow> = Vec::new();
        let mut actions: Vec<(ScreenId, OverlayAction)> = Vec::new();
        let mut i: usize = 0;
        while i < screens.len()
            invariant
                i <= screens@.len(),
                overlays@ == screens@.take(i as int).map_values(
                    |s: ScreenInfo| covering(s, primary_height),
                ),
                actions@ == screens@.take(i as int).map_values(
                    |s: ScreenInfo|
                        (s.id, OverlayAction::Create(draw::flipped(s.frame, primary_height))),
                ),
            decreases screens@.len() - i,
        {
            let (overlay, cocoa): (OverlayWindow, Rect) = create_overlay(
                &screens[i],
                primary_height,
            );
            overlays.push(overlay);
            actions.push((screens[i].id, OverlayAction::Create(cocoa)));
            i = i + 1;
            proof {
                assert(overlays@ =~= screens@.take(i as int).map_values(
                    |s: ScreenInfo| covering(s, primary_height),
                ));
                assert(actions@ =~= screens@.take(i as int).map_values(
                    |s: ScreenInfo|
                        (s.id, OverlayAction::Create(draw::flipped(s.frame, primary_height))),
                ));
            }
        }
        proof {
            assert(screens@.take(i as int) =~= screens@);
        }
        Ok((OverlaySet { overlays }, actions))
    }

    fn tell_all(&self, action: OverlayAction) -> (r: Vec<(ScreenId, OverlayAction)>)
        ensures
            r@ == to_all(self@, action),
    {
        let mut out: Vec<(ScreenId, OverlayAction)> = Vec::new();
        let mut i: usize = 0;
        while i < self.overlays.len()
            invariant
                i <= self.overlays@.len(),
                out@ == to_all(self@.take(i as int), action),
            decreases self.overlays@.len() - i,
        {
            out.push((self.overlays[i].screen_id, action));
            i = i + 1;
            proof {
                assert(out@ =~= to_all(self@.take(i as int), action));
            }
        }
        proof {
            assert(self@.take(i as int) =~= self@);
        }
        out
    }

    pub fn show(&self) -> (r: Vec<(ScreenId, OverlayAction)>)
        ensures
            r@ == to_all(self@, OverlayAction::Show),
    {
        self.tell_all(OverlayAction::Show)
    }

    pub fn hide_all(&self) -> (r: Vec<(ScreenId, OverlayAction)>)
        ensures
            r@ == to_all(self@, OverlayAction::Hide),
    {
        self.tell_all(OverlayAction::Hide)
    }

    /// Lets one handler hear from all overlays.
    pub fn set_pointer_handler(&mut self, handler: HandlerId)
        ensures
            final(self)@ == old(self)@.map_values(|o: OverlayWindow| with_handler(o, handler)),
    {
        let mut i: usize = 0;
        while i < self.overlays.len()
            invariant
                i <= self.overlays@.len(),
                self.overlays@.len() == old(self).overlays@.len(),
                forall|k: int|
                    0 <= k < i ==> #[trigger] self.overlays@[k] == with_handler(
                        old(self).overlays@[k],
                        handler,
                    ),
                forall|k: int|
                    i <= k < self.overlays@.len() ==> #[trigger] self.overlays@[k] == old(
                        self,
                    ).overlays@[k],
            decreases self.overlays@.len() - i,
        {
            let mut o: OverlayWindow = self.overlays[i];
            o.view.set_handler(handler);
            self.overlays.set(i, o);
            i = i + 1;
        }
        proof {
            assert(self@ =~= old(self)@.map_values(|o: OverlayWindow| with_handler(o, handler)));
        }
    }

    /// Tells every overlay about the selection, which may lie on several
    /// displays.
    pub fn set_selection(&mut self, rect: Option<Rect>)
        ensures
            final(self)@ == old(self)@.map_values(|o: OverlayWindow| with_selection(o, rect)),
    {
        let mut i: usize = 0;
        while i < self.overlays.len()
            invariant
                i <= self.overlays@.len(),
                self.overlays@.len() == old(self).overlays@.len(),
                forall|k: int|
                    0 <= k < i ==> #[trigger] self.overlays@[k] == with_selection(
                        old(self).overlays@[k],
                        rect,
                    ),
                forall|k: int|
                    i <= k < self.overlays@.len() ==> #[trigger] self.overlays@[k] == old(
                        self,
                    ).overlays@[k],
            decreases self.overlays@.len() - i,
        {
            let mut o: OverlayWindow = self.overlays[i];
            o.view.set_selection(rect);
            self.overlays.set(i, o);
            i = i + 1;
        }
        proof {
            assert(self@ =~= old(self)@.map_values(|o: OverlayWindow| with_selection(o, rect)));
        }
    }

    pub fn len(&self) -> (r: usize)
        ensures
            r == self@.len(),
    {
        self.overlays.len()
    }

    pub fn is_empty(&self) -> (r: bool)
        ensures
            r == (self@.len() == 0),
    {
        self.overlays.len() == 0
    }

    /// The overlays, in the order of the displays.
    pub fn iter(&self) -> (r: &[OverlayWindow])
        ensures
            r@ == self@,
    {
        self.overlays.as_slice()
    }

    /// The overlay on whose display a point lies.
    pub fn overlay_at(&self, p: Point) -> (r: Option<OverlayWindow>)
        ensures
            r == first_at(self@, p),
    {
        let mut i: usize = 0;
        proof {
            assert(self@.skip(0) =~= self@);
        }
        while i < self.overlays.len()
            invariant
                i <= self.overlays@.len(),
                first_at(self@.skip(i as int), p) == first_at(self@, p),
            decreases self.overlays@.len() - i,
        {
            if self.overlays[i].frame.contains(p) {
                return Some(self.overlays[i]);
            }
            proof {
                assert(self@.skip(i as int).skip(1) =~= self@.skip(i + 1));
            }
            i = i + 1;
        }
        None
    }

    /// Closes all overlays. New ones are made for every capture, so hiding them
    /// would not be enough.
    pub fn close(self) -> (r: Vec<(ScreenId, OverlayAction)>)
        ensures
            r@ == to_all(self@, OverlayAction::Close),
    {
        self.tell_all(OverlayAction::Close)
    }
}

/// What is drawn for a selection lies on the overlay's own display.
pub proof fn law_selection_is_drawn_inside(o: OverlayViewIvars, part: Rect)
    requires
        o.screen_frame.moderate(),
        o.selection matches Some(s) && s.moderate(),
        o.visible_part() == Some(part),
    ensures
        0 <= o.local(part).origin.x,
        0 <= o.local(part).origin.y,
        o.local(part).origin.x + o.local(part).size.width <= o.screen_frame.size.width,
        o.local(part).origin.y + o.local(part).size.height <= o.screen_frame.size.height,
{
}

/// An overlay is found for a point if and only if some display has it.
pub proof fn law_overlay_at_finds_a_display(overlays: Seq<OverlayWindow>, p: Point)
    ensures
        first_at(overlays, p) is Some <==> exists|i: int|
            0 <= i < overlays.len() && (#[trigger] overlays[i]).frame.contains(p),
        first_at(overlays, p) matches Some(o) ==> o.frame.contains(p) && overlays.contains(o),
    decreases overlays.len(),
{
    if overlays.len() > 0 && !overlays[0].frame.contains(p) {
        let rest = overlays.skip(1);
        law_overlay_at_finds_a_display(rest, p);
        if exists|i: int| 0 <= i < overlays.len() && (#[trigger] overlays[i]).frame.contains(p) {
            let i = choose|i: int|
                0 <= i < overlays.len() && (#[trigger] overlays[i]).frame.contains(p);
            assert(rest[i - 1] == overlays[i]);
        }
        if first_at(rest, p) is Some {
            let o = first_at(rest, p)->0;
            let k = choose|k: int| 0 <= k < rest.len() && rest[k] == o;
            assert(overlays[k + 1] == o);
        }
    } else if overlays.len() > 0 {
        assert(overlays.contains(overlays[0]));
    }
}

/// Telling the overlays about a selection leaves none of them with an old one.
pub proof fn law_every_overlay_knows_the_selection(
    overlays: Seq<OverlayWindow>,
    rect: Option<Rect>,
    i: int,
)
    requires
        0 <= i < overlays.len(),
    ensures
        overlays.map_values(|o: OverlayWindow| with_selection(o, rect))[i].view.ivars.selection
            == rect,
{
}

/// A point of the window lies on the desktop as far to the right of the corner of
/// the window as in it, and as far below the top of the primary display as is left of
/// its height.
pub proof fn law_a_point_of_the_window_lies_on_the_desktop(
    o: OverlayViewIvars,
    in_window: Point,
    window_origin: Option<Point>,
)
    requires
        crate::geom::moderate(o.primary_height as int),
        -2_000_000_000_000_000_000 <= in_window.x <= 2_000_000_000_000_000_000,
        -2_000_000_000_000_000_000 <= in_window.y <= 2_000_000_000_000_000_000,
        window_origin matches Some(p) ==> -2_000_000_000_000_000_000 <= p.x
            <= 2_000_000_000_000_000_000 && -2_000_000_000_000_000_000 <= p.y
            <= 2_000_000_000_000_000_000,
    ensures
        ({
            let g = o.global(in_window, origin_or_zero(window_origin));
            match window_origin {
                Some(p) => g.x == p.x + in_window.x && g.y == o.primary_height - p.y
                    - in_window.y,
                None => g.x == in_window.x && g.y == o.primary_height - in_window.y,
            }
        }),
{
}

/// A selection is drawn where it was dragged: a point of the window is as far from the
/// sides of what is drawn as the point of the desktop that it stands for is from the
/// sides of the selection.
pub proof fn law_a_selection_is_drawn_where_it_is(
    o: OverlayViewIvars,
    r: Rect,
    in_window: Point,
    window_origin: Point,
)
    requires
        r.moderate(),
        o.screen_frame.moderate(),
        o.screen_frame.size.height <= crate::geom::COORDINATE_LIMIT,
        crate::geom::moderate(o.primary_height as int),
        crate::geom::moderate(r.origin.y + r.size.height - o.screen_frame.origin.y),
        -2_000_000_000_000_000_000 <= in_window.x <= 2_000_000_000_000_000_000,
        -2_000_000_000_000_000_000 <= in_window.y <= 2_000_000_000_000_000_000,
        -2_000_000_000_000_000_000 <= window_origin.x <= 2_000_000_000_000_000_000,
        -2_000_000_000_000_000_000 <= window_origin.y <= 2_000_000_000_000_000_000,
        window_origin.x == o.screen_frame.origin.x,
        window_origin.y == o.primary_height - o.screen_frame.origin.y
            - o.screen_frame.size.height,
    ensures
        ({
            let g = o.global(in_window, window_origin);
            let drawn = o.local(r);
            &&& in_window.x - drawn.origin.x == g.x - r.origin.x
            &&& in_window.y - drawn.origin.y == r.origin.y + r.size.height - g.y
            &&& drawn.size == r.size
        }),
{
}

/// An overlay darkens its whole display without hiding it, and takes the darkness off
/// what is selected of it, with a line around it.
pub proof fn law_all_but_the_selection_is_dark(o: OverlayViewIvars, bounds: Rect)
    ensures
        ({
            let ops = o.painting(bounds);
            &&& ops[0] matches PaintView::FillRect { rect, color }
            &&& rect.origin == (Point { x: 0, y: 0 })
            &&& rect.size == bounds.size
            &&& color.r == 0 && color.g == 0 && color.b == 0
            &&& 0 < color.a < 1_000_000
            &&& o.selection is None ==> ops.len() == 1
            &&& o.selection matches Some(s) ==> match s.intersection(&o.screen_frame) {
                None => ops.len() == 1,
                Some(part) => {
                    &&& ops.len() == 3
                    &&& ops[1] == (PaintView::Clear { rect: o.local(part) })
                    &&& ops[2] matches PaintView::StrokeRect { rect: around, color: line, width }
                    &&& around == o.local(part)
                    &&& line.a == 1_000_000
                    &&& width == 1_000_000
                },
            }
        }),
{
}

/// Every overlay covers its display and belongs to it, and starts without a handler
/// and without a selection.
pub proof fn law_an_overlay_covers_its_display(screen: ScreenInfo, primary_height: i64)
    ensures
        ({
            let o = covering(screen, primary_height);
            &&& o.frame == screen.frame
            &&& o.screen_id == screen.id
            &&& o.view.ivars.screen_frame == screen.frame
            &&& o.view.ivars.primary_height == primary_height
            &&& o.view.ivars.handler is None
            &&& o.view.ivars.selection is None
            &&& !o.view.ivars.needs_display
        }),
{
}

/// What is asked of all overlays is asked of each, once and in order.
pub proof fn law_every_overlay_is_asked(
    overlays: Seq<OverlayWindow>,
    action: OverlayAction,
    i: int,
)
    requires
        0 <= i < overlays.len(),
    ensures
        to_all(overlays, action).len() == overlays.len(),
        to_all(overlays, action)[i].0 == overlays[i].screen_id,
        to_all(overlays, action)[i].1 == action,
{
}

/// An overlay with a handler tells it every event as it is, and one without tells
/// nobody.
pub proof fn law_an_overlay_tells_its_handler(
    o: OverlayWindow,
    handler: HandlerId,
    rect: Option<Rect>,
    event: PointerEvent,
)
    ensures
        with_handler(o, handler).view.ivars.told(event) == Some((handler, event)),
        o.view.ivars.handler is None ==> o.view.ivars.told(event) is None,
        with_selection(o, rect).view.ivars.told(event) == o.view.ivars.told(event),
        with_selection(o, rect).view.ivars.needs_display,
        with_handler(o, handler).frame == o.frame,
        with_handler(o, handler).screen_id == o.screen_id,
{
}

} // verus!

//! The view of a pinned image: how it answers the mouse, the wheel and the
//! keyboard.

use vstd::prelude::*;

use crate::draw;
use crate::draw::{inset, put, CommandView, DrawCommand, Drawing, PaintOp, PaintView, Rgba};
use crate::effect;
use crate::effect::{ask, Effect, EffectView};
use crate::fixed;
use crate::fixed::{
    clamp_wide, half_of, larger_of, limit, minus, nearest_quotient, plus, product_of, quotient_of,
    wide_product, UNIT,
};
use crate::geom;
use crate::geom::{Point, Rect, Size};
use crate::input::{HandlerId, KeyPress, PointerEvent, TextInput, TextInputView};

verus! {

/// The smallest zoom factor: an image must not get too small to be clicked.
pub const ZOOM_MIN: i64 = 100_000;

pub const ZOOM_MAX: i64 = 8_000_000;

pub const OPACITY_MIN: i64 = 100_000;

/// How far the text field lies to the left of its text. A text field has some
/// padding, and the text must not jump when typing ends.
pub const FIELD_INSET: i64 = 2_000_000;

/// How much wider than its text the text field is, for the caret.
pub const FIELD_SLACK: i64 = 8_000_000;

/// The least height of the text field, as a multiple of the font size.
pub const FIELD_LINE: i64 = 1_400_000;

/// The least width of the text field, as a multiple of the font size.
pub const FIELD_WIDTH: i64 = 4_000_000;

/// What a wheel movement of one is divided by.
pub const WHEEL_STEPS: i64 = 100;

/// The gap between an image and a child window.
pub const CHILD_GAP: i64 = 5_000_000;

/// How far inside of the image the dark and the light line of the border run:
/// half a point puts a line of width one on whole pixels.
pub const OUTER_BORDER: i64 = 500_000;

pub const INNER_BORDER: i64 = 1_500_000;

/// The state of the view.
pub struct PinViewIvars {
    /// There is an image to show.
    pub has_image: bool,
    /// What is drawn over the image.
    pub commands: Vec<DrawCommand>,
    /// The mouse draws and does not move the window.
    pub annotating: bool,
    /// Is told about pointer events.
    pub handler: Option<HandlerId>,
    /// Where in the window the mouse grabbed it.
    pub grab_offset: Option<Point>,
    /// The user has closed the window.
    pub closed: bool,
    /// The size without zoom. Zooming starts from it and never from the current
    /// size, so that errors do not add up.
    pub base_size: Size,
    pub zoom: i64,
    pub opacity: i64,
    /// Clicks go to what lies below the window.
    pub click_through: bool,
    /// The frame of the text field that is open.
    pub text_field: Option<Rect>,
    /// Where the text that is edited starts, in image coordinates, and its font
    /// size without zoom.
    pub text_anchor: Option<(Point, i64)>,
    /// The user is done typing.
    pub text_done: bool,
    /// The text field has had the keyboard. Until it has, being without it does
    /// not mean that the user has left it.
    pub text_focused: bool,
    /// Is told about key presses.
    pub key_handler: Option<HandlerId>,
    /// While annotating, the mouse moves the window.
    pub window_drag: bool,
    /// The user wants the image copied and closed.
    pub copy_requested: bool,
    /// The view has to be drawn again.
    pub needs_display: bool,
}

/// The view.
pub struct PinView {
    pub ivars: PinViewIvars,
}

/// The contents of a [`PinView`].
pub struct PinViewState {
    pub has_image: bool,
    pub commands: Seq<CommandView>,
    pub annotating: bool,
    pub handler: Option<HandlerId>,
    pub grab_offset: Option<Point>,
    pub closed: bool,
    pub base_size: Size,
    pub zoom: i64,
    pub opacity: i64,
    pub click_through: bool,
    pub text_field: Option<Rect>,
    pub text_anchor: Option<(Point, i64)>,
    pub text_done: bool,
    pub text_focused: bool,
    pub key_handler: Option<HandlerId>,
    pub window_drag: bool,
    pub copy_requested: bool,
    pub needs_display: bool,
}

impl View for PinView {
    type V = PinViewState;

    open spec fn view(&self) -> PinViewState {
        PinViewState {
            has_image: self.ivars.has_image,
            commands: draw::commands(self.ivars.commands@),
            annotating: self.ivars.annotating,
            handler: self.ivars.handler,
            grab_offset: self.ivars.grab_offset,
            closed: self.ivars.closed,
            base_size: self.ivars.base_size,
            zoom: self.ivars.zoom,
            opacity: self.ivars.opacity,
            click_through: self.ivars.click_through,
            text_field: self.ivars.text_field,
            text_anchor: self.ivars.text_anchor,
            text_done: self.ivars.text_done,
            text_focused: self.ivars.text_focused,
            key_handler: self.ivars.key_handler,
            window_drag: self.ivars.window_drag,
            copy_requested: self.ivars.copy_requested,
            needs_display: self.ivars.needs_display,
        }
    }
}

/// The mouse button goes down in the window.
#[derive(Debug, Clone, Copy, PartialEq, Eq, Structural)]
pub struct Press {
    /// Where in the window, and in the view.
    pub at: Point,
    /// The height of the view.
    pub view_height: i64,
    /// How many clicks in quick succession this makes.
    pub click_count: i64,
}

/// The wheel turns.
#[derive(Debug, Clone, Copy, PartialEq, Eq, Structural)]
pub struct Wheel {
    pub dx: i64,
    pub dy: i64,
    pub shift: bool,
    pub option: bool,
    /// Where on the screen the mouse is.
    pub mouse: Point,
    /// The frame of the window, if there is one.
    pub window: Option<Rect>,
}

/// What the text field shows, and how large it is in the font of the field.
#[derive(Debug, PartialEq)]
pub struct FieldFacts {
    pub text: String,
    pub measured: Size,
    /// The field has the keyboard.
    pub editing: bool,
}

/// How the zoom factor answers a wheel movement: every step changes it by the
/// same ratio.
pub open spec fn zoomed(zoom: i64, dy: i64) -> i64 {
    fixed::limited(
        fixed::clamped(
            fixed::nearest(
                zoom * fixed::clamped(WHEEL_STEPS * UNIT + dy),
                WHEEL_STEPS * UNIT,
            ),
        ),
        ZOOM_MIN,
        ZOOM_MAX,
    )
}

pub open spec fn faded(opacity: i64, dy: i64) -> i64 {
    fixed::limited(
        fixed::clamped(opacity + fixed::nearest(dy as int, WHEEL_STEPS as int)),
        OPACITY_MIN,
        UNIT,
    )
}

/// One coordinate of the new origin of a window that had the origin `origin`
/// and the length `len`, and now has the length `new_len`: the mouse stays
/// at the same fraction of the length.
pub open spec fn anchored(mouse: i64, origin: i64, len: i64, new_len: i64) -> i64 {
    let offset = fixed::clamped(mouse - origin);
    if len <= 0 {
        fixed::clamped(mouse - fixed::halved(new_len))
    } else if offset <= 0 {
        mouse
    } else if offset >= len {
        fixed::clamped(mouse - new_len)
    } else {
        fixed::clamped(mouse - fixed::nearest(offset * new_len, len as int))
    }
}

pub open spec fn zoomed_size(base: Size, zoom: i64) -> Size {
    Size { width: fixed::product(base.width, zoom), height: fixed::product(base.height, zoom) }
}

/// The frame of a window after zooming, with the mouse as the anchor.
pub open spec fn zoomed_frame(old: Rect, mouse: Point, size: Size) -> Rect {
    Rect {
        origin: Point {
            x: anchored(mouse.x, old.origin.x, old.size.width, size.width),
            y: anchored(mouse.y, old.origin.y, old.size.height, size.height),
        },
        size,
    }
}

/// Where a child window of the given size goes: centred below the window.
pub open spec fn below(pin: Rect, size: Size) -> Point {
    Point {
        x: fixed::clamped(
            pin.origin.x + fixed::halved(fixed::clamped(pin.size.width - size.width)),
        ),
        y: fixed::clamped(fixed::clamped(pin.origin.y - size.height) - CHILD_GAP),
    }
}

/// The frame of the text field for a text that covers `rect` of the image.
pub open spec fn field_frame(rect: Rect, zoom: i64, font_size: i64, view_height: i64) -> Rect {
    let font = fixed::product(font_size, zoom);
    let h = fixed::larger(
        fixed::product(rect.size.height, zoom) as int,
        fixed::product(font, FIELD_LINE) as int,
    ) as i64;
    let w = fixed::larger(
        fixed::product(rect.size.width, zoom) as int,
        fixed::product(font, FIELD_WIDTH) as int,
    ) as i64;
    Rect {
        origin: Point {
            x: fixed::clamped(fixed::product(rect.origin.x, zoom) - FIELD_INSET),
            y: fixed::clamped(
                fixed::clamped(view_height - fixed::product(rect.origin.y, zoom)) - h,
            ),
        },
        size: Size { width: w, height: h },
    }
}

impl PinViewState {
    /// The zoom factor and the opacity are in their ranges.
    pub open spec fn wf(self) -> bool {
        &&& ZOOM_MIN <= self.zoom <= ZOOM_MAX
        &&& OPACITY_MIN <= self.opacity <= UNIT
    }

    /// A view of the given size.
    pub open spec fn fresh(size: Size) -> PinViewState {
        PinViewState {
            has_image: true,
            commands: Seq::empty(),
            annotating: false,
            handler: None,
            grab_offset: None,
            closed: false,
            base_size: size,
            zoom: UNIT,
            opacity: UNIT,
            click_through: false,
            text_field: None,
            text_anchor: None,
            text_done: false,
            text_focused: false,
            key_handler: None,
            window_drag: false,
            copy_requested: false,
            needs_display: false,
        }
    }

    /// Where in the image a point of the view lies.
    pub open spec fn local(self, at: Point, view_height: i64) -> Point {
        Point {
            x: fixed::quotient(at.x, self.zoom),
            y: fixed::quotient(fixed::clamped(view_height - at.y), self.zoom),
        }
    }

    /// Whom to tell about a pointer event.
    pub open spec fn told(self, event: PointerEvent) -> Option<(HandlerId, PointerEvent)> {
        match self.handler {
            Some(handler) => Some((handler, event)),
            None => None,
        }
    }

    /// What giving the window the keyboard asks for. `is_key` says whether it
    /// has it, `None` stands for no window.
    pub open spec fn focusing(self, is_key: Option<bool>) -> Seq<EffectView> {
        match is_key {
            None => Seq::empty(),
            Some(key) => {
                let front = if key {
                    Seq::empty()
                } else {
                    seq![EffectView::Activate, EffectView::MakeKey]
                };
                if self.text_field is None {
                    front.push(EffectView::FocusView)
                } else {
                    front
                }
            },
        }
    }

    /// The second of two clicks asks for a copy where the first one drew
    /// nothing.
    pub open spec fn double_clicked(self, press: Press) -> bool {
        press.click_count >= 2 && (self.annotating ==> self.window_drag)
    }

    pub open spec fn after_mouse_down(self, press: Press) -> PinViewState {
        if self.text_field is Some {
            PinViewState { text_done: true, ..self }
        } else if self.double_clicked(press) {
            PinViewState { copy_requested: true, ..self }
        } else {
            PinViewState { grab_offset: Some(press.at), window_drag: false, ..self }
        }
    }

    /// What a press tells the handler.
    pub open spec fn mouse_down_event(self, press: Press) -> Option<(HandlerId, PointerEvent)> {
        if self.text_field is None && self.annotating && !self.double_clicked(press) {
            self.told(PointerEvent::Down(self.local(press.at, press.view_height)))
        } else {
            None
        }
    }

    /// The mouse draws.
    pub open spec fn draws(self) -> bool {
        self.annotating && !self.window_drag
    }

    /// Where the window goes when the mouse drags it to `mouse`.
    pub open spec fn drag_effects(self, mouse: Point) -> Seq<EffectView> {
        if self.draws() {
            Seq::empty()
        } else {
            match self.grab_offset {
                Some(grab) => seq![EffectView::MoveWindow(mouse.minus(grab))],
                None => Seq::empty(),
            }
        }
    }

    pub open spec fn after_mouse_up(self) -> PinViewState {
        PinViewState { grab_offset: None, ..self }
    }

    pub open spec fn after_close(self) -> PinViewState {
        PinViewState { closed: true, ..self }
    }

    pub open spec fn after_right_mouse_down(self) -> PinViewState {
        if self.annotating {
            self
        } else {
            self.after_close()
        }
    }

    pub open spec fn with_click_through(self, on: bool) -> PinViewState {
        PinViewState { click_through: on, ..self }
    }

    /// The wheel changes the opacity and not the zoom factor.
    pub open spec fn fades(wheel: Wheel) -> bool {
        wheel.shift || wheel.option
    }

    /// How far the wheel turned. With the shift key held, the system reports it
    /// as a horizontal movement.
    pub open spec fn fade_delta(wheel: Wheel) -> i64 {
        if wheel.dy != 0 {
            wheel.dy
        } else {
            wheel.dx
        }
    }

    pub open spec fn after_fade(self, dy: i64) -> PinViewState {
        PinViewState { opacity: faded(self.opacity, dy), ..self }
    }

    /// Zooming ends typing: the field would be in the wrong place.
    pub open spec fn after_zoom(self, dy: i64, window: Option<Rect>) -> PinViewState {
        if window is None {
            self
        } else {
            let next = zoomed(self.zoom, dy);
            let rest = PinViewState {
                text_done: self.text_done || self.text_field is Some,
                ..self
            };
            if next == self.zoom {
                rest
            } else {
                PinViewState { zoom: next, needs_display: true, ..rest }
            }
        }
    }

    pub open spec fn zoom_effects(self, dy: i64, mouse: Point, window: Option<Rect>) -> Seq<
        EffectView,
    > {
        match window {
            None => Seq::empty(),
            Some(old) => {
                let next = zoomed(self.zoom, dy);
                if next == self.zoom {
                    Seq::empty()
                } else {
                    seq![
                        EffectView::SetFrame(
                            zoomed_frame(old, mouse, zoomed_size(self.base_size, next)),
                        ),
                    ]
                }
            },
        }
    }

    pub open spec fn after_wheel(self, wheel: Wheel) -> PinViewState {
        if PinViewState::fades(wheel) {
            if PinViewState::fade_delta(wheel) != 0 {
                self.after_fade(PinViewState::fade_delta(wheel))
            } else {
                self
            }
        } else if wheel.dy != 0 {
            self.after_zoom(wheel.dy, wheel.window)
        } else {
            self
        }
    }

    pub open spec fn wheel_effects(self, wheel: Wheel) -> Seq<EffectView> {
        if PinViewState::fades(wheel) {
            if PinViewState::fade_delta(wheel) != 0 {
                seq![
                    EffectView::SetAlpha(
                        faded(self.opacity, PinViewState::fade_delta(wheel)),
                    ),
                ]
            } else {
                Seq::empty()
            }
        } else if wheel.dy != 0 {
            self.zoom_effects(wheel.dy, wheel.mouse, wheel.window)
        } else {
            Seq::empty()
        }
    }

    /// No text is being typed.
    pub open spec fn after_end_text(self) -> PinViewState {
        PinViewState {
            text_field: None,
            text_anchor: None,
            text_done: false,
            text_focused: false,
            needs_display: true,
            ..self
        }
    }

    pub open spec fn end_text_effects(self) -> Seq<EffectView> {
        if self.text_field is Some {
            seq![EffectView::DropFocus, EffectView::RemoveField]
        } else {
            Seq::empty()
        }
    }

    pub open spec fn after_set_annotating(self, on: bool) -> PinViewState {
        let rest = if on {
            self
        } else {
            self.after_end_text()
        };
        PinViewState {
            annotating: on,
            grab_offset: None,
            window_drag: false,
            needs_display: true,
            ..rest
        }
    }

    pub open spec fn set_annotating_effects(self, on: bool) -> Seq<EffectView> {
        if on {
            Seq::empty()
        } else {
            self.end_text_effects()
        }
    }

    pub open spec fn after_begin_text(self, rect: Rect, font_size: i64, view_height: i64)
        -> PinViewState {
        PinViewState {
            text_field: Some(field_frame(rect, self.zoom, font_size, view_height)),
            text_anchor: Some((rect.origin, font_size)),
            ..self.after_end_text()
        }
    }

    pub open spec fn begin_text_effects(
        self,
        rect: Rect,
        initial: Seq<char>,
        font_size: i64,
        color: Rgba,
        view_height: i64,
    ) -> Seq<EffectView> {
        self.end_text_effects() + seq![
            EffectView::AddField {
                frame: field_frame(rect, self.zoom, font_size, view_height),
                text: initial,
                font_size: fixed::product(font_size, self.zoom),
                color,
            },
            EffectView::Activate,
            EffectView::MakeKey,
            EffectView::FocusField,
        ]
    }

    /// The width that the text field needs for a text of the given width.
    pub open spec fn wanted_width(measured: Size) -> i64 {
        fixed::clamped(measured.width + FIELD_SLACK)
    }

    pub open spec fn after_poll(self, measured: Size, editing: bool) -> PinViewState {
        match self.text_field {
            None => self,
            Some(frame) => PinViewState {
                text_field: Some(
                    if PinViewState::wanted_width(measured) > frame.size.width {
                        Rect {
                            size: Size {
                                width: PinViewState::wanted_width(measured),
                                height: frame.size.height,
                            },
                            ..frame
                        }
                    } else {
                        frame
                    },
                ),
                text_focused: self.text_focused || editing,
                ..self
            },
        }
    }

    pub open spec fn poll_effects(self, measured: Size) -> Seq<EffectView> {
        match self.text_field {
            Some(frame) => if PinViewState::wanted_width(measured) > frame.size.width {
                seq![
                    EffectView::ResizeField(
                        Size {
                            width: PinViewState::wanted_width(measured),
                            height: frame.size.height,
                        },
                    ),
                ]
            } else {
                Seq::empty()
            },
            None => Seq::empty(),
        }
    }

    /// What has been typed, if a field is open. Having lost the keyboard after
    /// having had it ends typing.
    pub open spec fn polled(self, text: Seq<char>, measured: Size, editing: bool) -> Option<
        TextInputView,
    > {
        if self.text_field is None {
            None
        } else {
            Some(
                TextInputView {
                    text,
                    extent: Size {
                        width: fixed::quotient(measured.width, self.zoom),
                        height: fixed::quotient(measured.height, self.zoom),
                    },
                    finished: self.text_done || (self.text_focused && !editing),
                },
            )
        }
    }

    /// What is drawn over the image in a view of the given height.
    pub open spec fn overlay(self, bounds: Rect) -> Option<(i64, Seq<PaintView>)> {
        if self.commands.len() == 0 {
            None
        } else {
            Some(
                (
                    self.zoom,
                    draw::painting(
                        self.commands,
                        fixed::quotient(bounds.size.height, self.zoom),
                    ),
                ),
            )
        }
    }
}

/// The border: a dark line and a light line inside of it, of which one is
/// visible on any background.
pub open spec fn border(bounds: Rect) -> Seq<PaintView> {
    seq![
        PaintView::StrokeRect {
            rect: draw::insetted(bounds, OUTER_BORDER),
            color: Rgba { r: 0, g: 0, b: 0, a: 450_000 },
            width: UNIT,
        },
        PaintView::StrokeRect {
            rect: draw::insetted(bounds, INNER_BORDER),
            color: Rgba { r: 1_000_000, g: 1_000_000, b: 1_000_000, a: 300_000 },
            width: UNIT,
        },
    ]
}

/// Moves one coordinate of the origin of a window so that the mouse stays at
/// the same fraction of its length.
fn anchor(mouse: i64, origin: i64, len: i64, new_len: i64) -> (r: i64)
    ensures
        r == anchored(mouse, origin, len, new_len),
{
    let offset: i64 = minus(mouse, origin);
    if len <= 0 {
        minus(mouse, half_of(new_len))
    } else if offset <= 0 {
        mouse
    } else if offset >= len {
        minus(mouse, new_len)
    } else {
        let part: i128 = nearest_quotient(wide_product(offset, new_len), len as i128);
        clamp_wide(mouse as i128 - part)
    }
}

/// Where a child window of the given size goes: centred below the window.
pub fn place_below(pin: Rect, size: Size) -> (r: Point)
    ensures
        r == below(pin, size),
{
    Point {
        x: plus(pin.origin.x, half_of(minus(pin.size.width, size.width))),
        y: minus(minus(pin.origin.y, size.height), CHILD_GAP),
    }
}

impl PinView {
    /// A view of an image of the given size.
    pub fn new(size: Size) -> (r: PinView)
        ensures
            r@ == PinViewState::fresh(size),
            r@.wf(),
    {
        let r: PinView = PinView {
            ivars: PinViewIvars {
                has_image: true,
                commands: Vec::new(),
                annotating: false,
                handler: None,
                grab_offset: None,
                closed: false,
                base_size: size,
                zoom: UNIT,
                opacity: UNIT,
                click_through: false,
                text_field: None,
                text_anchor: None,
                text_done: false,
                text_focused: false,
                key_handler: None,
                window_drag: false,
                copy_requested: false,
                needs_display: false,
            },
        };
        proof {
            assert(r@.commands =~= Seq::empty());
        }
        r
    }

    /// The button goes down. `is_key` says whether the window has the keyboard,
    /// `None` stands for no window. Returns whom to tell, and what.
    ///
    /// With a text field open, a click beside it ends typing. While annotating,
    /// the press starts a stroke, or, where the last one hit nothing and this is
    /// its double click, asks for the image to be copied and closed, as a double
    /// click does otherwise.
    pub fn mouse_down(&mut self, press: Press, is_key: Option<bool>, fx: &mut Vec<Effect>) -> (r:
        Option<(HandlerId, PointerEvent)>)
        requires
            old(self)@.wf(),
        ensures
            final(self)@.wf(),
            final(self)@ == old(self)@.after_mouse_down(press),
            effect::log(final(fx)@) == effect::log(old(fx)@) + old(self)@.focusing(is_key),
            r == old(self)@.mouse_down_event(press),
    {
        self.focus_window(is_key, fx);
        if self.ivars.text_field.is_some() {
            self.ivars.text_done = true;
            return None;
        }
        if press.click_count >= 2 && (!self.ivars.annotating || self.ivars.window_drag) {
            self.ivars.copy_requested = true;
            return None;
        }
        self.ivars.grab_offset = Some(press.at);
        self.ivars.window_drag = false;
        if self.ivars.annotating {
            let p: Point = self.local_point(press.at, press.view_height);
            return self.emit(PointerEvent::Down(p));
        }
        None
    }

    /// The mouse moves with the button down: it draws, or moves the window so
    /// that the point where it was grabbed stays below the mouse.
    ///
    /// `at` is the position in the view and `mouse` that on the screen.
    pub fn mouse_dragged(&self, at: Point, view_height: i64, mouse: Point, fx: &mut Vec<Effect>)
        -> (r: Option<(HandlerId, PointerEvent)>)
        requires
            self@.wf(),
        ensures
            effect::log(final(fx)@) == effect::log(old(fx)@) + self@.drag_effects(mouse),
            r == if self@.draws() {
                self@.told(PointerEvent::Moved(self@.local(at, view_height)))
            } else {
                None
            },
    {
        if self.ivars.annotating && !self.ivars.window_drag {
            proof {
                assert(effect::log(fx@) =~= effect::log(old(fx)@) + self@.drag_effects(mouse));
            }
            let p: Point = self.local_point(at, view_height);
            return self.emit(PointerEvent::Moved(p));
        }
        if let Some(grab) = self.ivars.grab_offset {
            ask(fx, Effect::MoveWindow(mouse.minus(grab)));
        }
        proof {
            assert(effect::log(fx@) =~= effect::log(old(fx)@) + self@.drag_effects(mouse));
        }
        None
    }

    /// The button goes up.
    pub fn mouse_up(&mut self, at: Point, view_height: i64) -> (r: Option<
        (HandlerId, PointerEvent),
    >)
        requires
            old(self)@.wf(),
        ensures
            final(self)@.wf(),
            final(self)@ == old(self)@.after_mouse_up(),
            r == if old(self)@.annotating {
                old(self)@.told(PointerEvent::Up(old(self)@.local(at, view_height)))
            } else {
                None
            },
    {
        self.ivars.grab_offset = None;
        if self.ivars.annotating {
            let p: Point = self.local_point(at, view_height);
            return self.emit(PointerEvent::Up(p));
        }
        None
    }

    /// The right button goes down: while annotating it takes something back,
    /// otherwise it closes the window.
    pub fn right_mouse_down(&mut self, fx: &mut Vec<Effect>) -> (r: Option<
        (HandlerId, PointerEvent),
    >)
        requires
            old(self)@.wf(),
        ensures
            final(self)@.wf(),
            final(self)@ == old(self)@.after_right_mouse_down(),
            old(self)@.annotating ==> r == old(self)@.told(PointerEvent::Cancel) && effect::log(
                final(fx)@,
            ) == effect::log(old(fx)@),
            !old(self)@.annotating ==> r is None && effect::log(final(fx)@) == effect::log(
                old(fx)@,
            ).push(EffectView::OrderOut),
    {
        if self.ivars.annotating {
            return self.emit(PointerEvent::Cancel);
        }
        self.close_self(fx);
        None
    }

    /// The middle button goes down: clicks go through the window, or no longer
    /// do.
    pub fn other_mouse_down(&mut self, fx: &mut Vec<Effect>)
        requires
            old(self)@.wf(),
        ensures
            final(self)@.wf(),
            final(self)@ == old(self)@.with_click_through(!old(self)@.click_through),
            effect::log(final(fx)@) == effect::log(old(fx)@).push(
                EffectView::SetIgnoresMouse(!old(self)@.click_through),
            ),
    {
        let on: bool = !self.ivars.click_through;
        self.set_click_through(on, fx);
    }

    /// The wheel turns: it zooms, and with the shift or the option key held it
    /// changes the opacity.
    pub fn scroll_wheel(&mut self, wheel: Wheel, fx: &mut Vec<Effect>)
        requires
            old(self)@.wf(),
        ensures
            final(self)@.wf(),
            final(self)@ == old(self)@.after_wheel(wheel),
            effect::log(final(fx)@) == effect::log(old(fx)@) + old(self)@.wheel_effects(wheel),
    {
        if wheel.shift || wheel.option {
            let delta: i64 = if wheel.dy != 0 {
                wheel.dy
            } else {
                wheel.dx
            };
            if delta != 0 {
                self.adjust_opacity(delta, fx);
            }
        } else if wheel.dy != 0 {
            self.adjust_zoom(wheel.dy, wheel.mouse, wheel.window, fx);
        }
        proof {
            assert(effect::log(fx@) =~= effect::log(old(fx)@) + old(self)@.wheel_effects(wheel));
        }
    }

    /// A key goes down. With a text field open, keys belong to it.
    pub fn key_down(&self, press: Option<KeyPress>) -> (r: Option<(HandlerId, KeyPress)>)
        ensures
            r == match (self@.text_field, self@.key_handler, press) {
                (None, Some(handler), Some(press)) => Some((handler, press)),
                _ => None,
            },
    {
        if self.ivars.text_field.is_some() {
            return None;
        }
        match (self.ivars.key_handler, press) {
            (Some(handler), Some(press)) => Some((handler, press)),
            _ => None,
        }
    }

    /// A key goes down that may be a shortcut: those with the command key take
    /// this way. Returns `None` where the key is not taken.
    pub fn perform_key_equivalent(&self, press: Option<KeyPress>) -> (r: Option<
        (HandlerId, KeyPress),
    >)
        ensures
            r == match (self@.text_field, self@.key_handler, press) {
                (None, Some(handler), Some(KeyPress::Command(c))) => Some(
                    (handler, KeyPress::Command(c)),
                ),
                (None, Some(handler), Some(KeyPress::CommandShift(c))) => Some(
                    (handler, KeyPress::CommandShift(c)),
                ),
                _ => None,
            },
    {
        match press {
            Some(KeyPress::Command(_)) | Some(KeyPress::CommandShift(_)) => self.key_down(press),
            _ => None,
        }
    }

    /// The user pressed enter in the text field.
    pub fn text_committed(&mut self)
        requires
            old(self)@.wf(),
        ensures
            final(self)@.wf(),
            final(self)@ == (PinViewState { text_done: true, ..old(self)@ }),
    {
        self.ivars.text_done = true;
    }

    pub fn is_click_through(&self) -> (r: bool)
        ensures
            r == self@.click_through,
    {
        self.ivars.click_through
    }

    /// Lets clicks through, or no longer. A window that lets clicks through gets
    /// none, so something else has to call this.
    pub fn set_click_through(&mut self, on: bool, fx: &mut Vec<Effect>)
        requires
            old(self)@.wf(),
        ensures
            final(self)@.wf(),
            final(self)@ == old(self)@.with_click_through(on),
            effect::log(final(fx)@) == effect::log(old(fx)@).push(
                EffectView::SetIgnoresMouse(on),
            ),
    {
        self.ivars.click_through = on;
        ask(fx, Effect::SetIgnoresMouse(on));
    }

    fn adjust_opacity(&mut self, dy: i64, fx: &mut Vec<Effect>)
        requires
            old(self)@.wf(),
        ensures
            final(self)@.wf(),
            final(self)@ == old(self)@.after_fade(dy),
            effect::log(final(fx)@) == effect::log(old(fx)@).push(
                EffectView::SetAlpha(faded(old(self)@.opacity, dy)),
            ),
    {
        let step: i64 = nearest_quotient(dy as i128, WHEEL_STEPS as i128) as i64;
        let next: i64 = limit(plus(self.ivars.opacity, step), OPACITY_MIN, UNIT);
        self.ivars.opacity = next;
        ask(fx, Effect::SetAlpha(next));
    }

    /// Zooms with the mouse as the anchor: what lies below it stays there.
    fn adjust_zoom(&mut self, dy: i64, mouse: Point, window: Option<Rect>, fx: &mut Vec<Effect>)
        requires
            old(self)@.wf(),
        ensures
            final(self)@.wf(),
            final(self)@ == old(self)@.after_zoom(dy, window),
            effect::log(final(fx)@) == effect::log(old(fx)@) + old(self)@.zoom_effects(
                dy,
                mouse,
                window,
            ),
    {
        proof {
            assert(effect::log(fx@) =~= effect::log(old(fx)@) + Seq::<EffectView>::empty());
        }
        let old_frame: Rect = match window {
            Some(frame) => frame,
            None => return,
        };
        if self.ivars.text_field.is_some() {
            self.ivars.text_done = true;
        }
        let ratio: i64 = plus(WHEEL_STEPS * UNIT, dy);
        let wide: i128 = nearest_quotient(
            wide_product(self.ivars.zoom, ratio),
            WHEEL_STEPS as i128 * UNIT as i128,
        );
        let next: i64 = limit(clamp_wide(wide), ZOOM_MIN, ZOOM_MAX);
        if next == self.ivars.zoom {
            return;
        }
        self.ivars.zoom = next;
        let base: Size = self.ivars.base_size;
        let size: Size = Size {
            width: product_of(base.width, next),
            height: product_of(base.height, next),
        };
        let origin: Point = Point {
            x: anchor(mouse.x, old_frame.origin.x, old_frame.size.width, size.width),
            y: anchor(mouse.y, old_frame.origin.y, old_frame.size.height, size.height),
        };
        ask(fx, Effect::SetFrame(Rect { origin, size }));
        self.ivars.needs_display = true;
        proof {
            assert(effect::log(fx@) =~= effect::log(old(fx)@) + old(self)@.zoom_effects(
                dy,
                mouse,
                window,
            ));
        }
    }

    /// Replaces what is drawn over the image.
    pub fn set_commands(&mut self, commands: &[DrawCommand])
        requires
            old(self)@.wf(),
        ensures
            final(self)@.wf(),
            final(self)@ == (PinViewState {
                commands: draw::commands(commands@),
                needs_display: true,
                ..old(self)@
            }),
    {
        let mut copy: Vec<DrawCommand> = Vec::new();
        let mut i: usize = 0;
        while i < commands.len()
            invariant
                i <= commands@.len(),
                copy@ == commands@.take(i as int),
            decreases commands@.len() - i,
        {
            copy.push(commands[i].clone());
            i = i + 1;
            proof {
                assert(copy@ =~= commands@.take(i as int));
            }
        }
        proof {
            assert(copy@ =~= commands@);
        }
        self.ivars.commands = copy;
        self.ivars.needs_display = true;
    }

    /// Lets the mouse draw, or no longer. Leaving closes the text field, and a
    /// drag that is under way is forgotten.
    pub fn set_annotating(&mut self, on: bool, fx: &mut Vec<Effect>)
        requires
            old(self)@.wf(),
        ensures
            final(self)@.wf(),
            final(self)@ == old(self)@.after_set_annotating(on),
            effect::log(final(fx)@) == effect::log(old(fx)@) + old(self)@.set_annotating_effects(
                on,
            ),
    {
        proof {
            assert(effect::log(fx@) =~= effect::log(fx@) + Seq::<EffectView>::empty());
        }
        if !on {
            self.end_text_input(fx);
        }
        self.ivars.annotating = on;
        self.ivars.grab_offset = None;
        self.ivars.window_drag = false;
        self.ivars.needs_display = true;
    }

    pub fn is_annotating(&self) -> (r: bool)
        ensures
            r == self@.annotating,
    {
        self.ivars.annotating
    }

    pub fn set_handler(&mut self, handler: HandlerId)
        requires
            old(self)@.wf(),
        ensures
            final(self)@.wf(),
            final(self)@ == (PinViewState { handler: Some(handler), ..old(self)@ }),
    {
        self.ivars.handler = Some(handler);
    }

    pub fn set_key_handler(&mut self, handler: HandlerId)
        requires
            old(self)@.wf(),
        ensures
            final(self)@.wf(),
            final(self)@ == (PinViewState { key_handler: Some(handler), ..old(self)@ }),
    {
        self.ivars.key_handler = Some(handler);
    }

    /// Says whether the mouse moves the window while annotating.
    pub fn set_window_drag(&mut self, on: bool)
        requires
            old(self)@.wf(),
        ensures
            final(self)@.wf(),
            final(self)@ == (PinViewState { window_drag: on, ..old(self)@ }),
    {
        self.ivars.window_drag = on;
    }

    /// Whether the user has asked for a copy since the last call.
    pub fn take_copy_request(&mut self) -> (r: bool)
        requires
            old(self)@.wf(),
        ensures
            final(self)@.wf(),
            r == old(self)@.copy_requested,
            final(self)@ == (PinViewState { copy_requested: false, ..old(self)@ }),
    {
        let r: bool = self.ivars.copy_requested;
        self.ivars.copy_requested = false;
        r
    }

    /// Lets the window have the keyboard. The program has to be the active one
    /// for that, since key events go nowhere else.
    pub fn focus_window(&self, is_key: Option<bool>, fx: &mut Vec<Effect>)
        ensures
            effect::log(final(fx)@) == effect::log(old(fx)@) + self@.focusing(is_key),
    {
        if let Some(key) = is_key {
            if !key {
                ask(fx, Effect::Activate);
                ask(fx, Effect::MakeKey);
            }
            if self.ivars.text_field.is_none() {
                ask(fx, Effect::FocusView);
            }
        }
        proof {
            assert(effect::log(fx@) =~= effect::log(old(fx)@) + self@.focusing(is_key));
        }
    }

    /// Opens a text field over the image.
    ///
    /// `rect` and `font_size` are those of the image without zoom.
    pub fn begin_text_input(
        &mut self,
        rect: Rect,
        initial: &str,
        font_size: i64,
        color: Rgba,
        view_height: i64,
        fx: &mut Vec<Effect>,
    )
        requires
            old(self)@.wf(),
        ensures
            final(self)@.wf(),
            final(self)@ == old(self)@.after_begin_text(rect, font_size, view_height),
            effect::log(final(fx)@) == effect::log(old(fx)@) + old(self)@.begin_text_effects(
                rect,
                initial@,
                font_size,
                color,
                view_height,
            ),
    {
        // One text is edited at a time.
        self.end_text_input(fx);
        let z: i64 = self.ivars.zoom;
        let frame: Rect = self.field_frame(rect, font_size, view_height);
        ask(
            fx,
            Effect::AddField {
                frame,
                text: initial.to_owned(),
                font_size: product_of(font_size, z),
                color,
            },
        );
        ask(fx, Effect::Activate);
        ask(fx, Effect::MakeKey);
        ask(fx, Effect::FocusField);
        self.ivars.text_anchor = Some((rect.origin, font_size));
        self.ivars.text_field = Some(frame);
        proof {
            assert(effect::log(fx@) =~= effect::log(old(fx)@) + old(self)@.begin_text_effects(
                rect,
                initial@,
                font_size,
                color,
                view_height,
            ));
        }
    }

    /// Reads what has been typed. The field grows with its text, which would
    /// scroll out of sight otherwise.
    pub fn poll_text_input(&mut self, facts: &FieldFacts, fx: &mut Vec<Effect>) -> (r: Option<
        TextInput,
    >)
        requires
            old(self)@.wf(),
        ensures
            final(self)@.wf(),
            final(self)@ == old(self)@.after_poll(facts.measured, facts.editing),
            effect::log(final(fx)@) == effect::log(old(fx)@) + old(self)@.poll_effects(
                facts.measured,
            ),
            r is Some <==> old(self)@.text_field is Some,
            r matches Some(input) ==> Some(input@) == old(self)@.polled(
                facts.text@,
                facts.measured,
                facts.editing,
            ),
    {
        proof {
            assert(effect::log(fx@) =~= effect::log(fx@) + Seq::<EffectView>::empty());
        }
        let frame: Rect = match self.ivars.text_field {
            Some(frame) => frame,
            None => return None,
        };
        let want: i64 = plus(facts.measured.width, FIELD_SLACK);
        if want > frame.size.width {
            let size: Size = Size { width: want, height: frame.size.height };
            ask(fx, Effect::ResizeField(size));
            self.ivars.text_field = Some(Rect { origin: frame.origin, size });
        }
        let finished: bool = self.ivars.text_done || (self.ivars.text_focused && !facts.editing);
        if facts.editing {
            self.ivars.text_focused = true;
        }
        let z: i64 = self.ivars.zoom;
        proof {
            assert(effect::log(fx@) =~= effect::log(old(fx)@) + old(self)@.poll_effects(
                facts.measured,
            ));
        }
        Some(
            TextInput {
                text: facts.text.clone(),
                extent: Size {
                    width: quotient_of(facts.measured.width, z),
                    height: quotient_of(facts.measured.height, z),
                },
                finished,
            },
        )
    }

    /// Closes the text field.
    pub fn end_text_input(&mut self, fx: &mut Vec<Effect>)
        requires
            old(self)@.wf(),
        ensures
            final(self)@.wf(),
            final(self)@ == old(self)@.after_end_text(),
            effect::log(final(fx)@) == effect::log(old(fx)@) + old(self)@.end_text_effects(),
    {
        if self.ivars.text_field.is_some() {
            // First the keyboard, or it would be left with a field that is gone.
            ask(fx, Effect::DropFocus);
            ask(fx, Effect::RemoveField);
        }
        self.ivars.text_field = None;
        self.ivars.text_anchor = None;
        self.ivars.text_done = false;
        self.ivars.text_focused = false;
        self.ivars.needs_display = true;
        proof {
            assert(effect::log(fx@) =~= effect::log(old(fx)@) + old(self)@.end_text_effects());
        }
    }

    fn field_frame(&self, rect: Rect, font_size: i64, view_height: i64) -> (r: Rect)
        ensures
            r == field_frame(rect, self@.zoom, font_size, view_height),
    {
        let z: i64 = self.ivars.zoom;
        let font: i64 = product_of(font_size, z);
        let h: i64 = larger_of(product_of(rect.size.height, z), product_of(font, FIELD_LINE));
        let w: i64 = larger_of(product_of(rect.size.width, z), product_of(font, FIELD_WIDTH));
        Rect {
            origin: Point {
                x: minus(product_of(rect.origin.x, z), FIELD_INSET),
                y: minus(minus(view_height, product_of(rect.origin.y, z)), h),
            },
            size: Size { width: w, height: h },
        }
    }

    fn emit(&self, event: PointerEvent) -> (r: Option<(HandlerId, PointerEvent)>)
        ensures
            r == self@.told(event),
    {
        match self.ivars.handler {
            Some(handler) => Some((handler, event)),
            None => None,
        }
    }

    /// Where in the image a point of the view lies. Annotations are kept in the
    /// coordinates of the image, so they follow it when it is zoomed.
    pub fn local_point(&self, at: Point, view_height: i64) -> (r: Point)
        requires
            self@.wf(),
        ensures
            r == self@.local(at, view_height),
    {
        let z: i64 = self.ivars.zoom;
        Point { x: quotient_of(at.x, z), y: quotient_of(minus(view_height, at.y), z) }
    }

    pub fn is_closed(&self) -> (r: bool)
        ensures
            r == self@.closed,
    {
        self.ivars.closed
    }

    /// What is drawn over the image, if anything. The height of the image is
    /// that without zoom.
    pub fn draw_commands(&self, bounds: Rect) -> (r: Option<Drawing>)
        requires
            self@.wf(),
        ensures
            r is Some <==> self@.overlay(bounds) is Some,
            r matches Some(d) ==> self@.overlay(bounds) == Some((d.scale, draw::steps(d.ops@))),
    {
        let z: i64 = self.ivars.zoom;
        draw::draw(self.ivars.commands.as_slice(), quotient_of(bounds.size.height, z), z)
    }

    /// The border, which tells a pinned image from the window that it shows.
    pub fn draw_border(&self, bounds: Rect) -> (r: Vec<PaintOp>)
        ensures
            draw::steps(r@) == border(bounds),
    {
        let mut ops: Vec<PaintOp> = Vec::new();
        put(
            &mut ops,
            PaintOp::StrokeRect {
                rect: inset(bounds, OUTER_BORDER),
                color: Rgba { r: 0, g: 0, b: 0, a: 450_000 },
                width: UNIT,
            },
        );
        put(
            &mut ops,
            PaintOp::StrokeRect {
                rect: inset(bounds, INNER_BORDER),
                color: Rgba { r: 1_000_000, g: 1_000_000, b: 1_000_000, a: 300_000 },
                width: UNIT,
            },
        );
        proof {
            assert(draw::steps(ops@) =~= border(bounds));
        }
        ops
    }

    /// Closes the window: it leaves the screen, and whoever keeps it will find
    /// it closed.
    pub fn close_self(&mut self, fx: &mut Vec<Effect>)
        requires
            old(self)@.wf(),
        ensures
            final(self)@.wf(),
            final(self)@ == old(self)@.after_close(),
            effect::log(final(fx)@) == effect::log(old(fx)@).push(EffectView::OrderOut),
    {
        self.ivars.closed = true;
        ask(fx, Effect::OrderOut);
    }
}

/// Where child windows of the given sizes go when their window has a new frame.
pub fn reposition_children(pin: Rect, sizes: &[Size]) -> (r: Vec<Point>)
    ensures
        r@ == sizes@.map_values(|size: Size| below(pin, size)),
{
    let mut out: Vec<Point> = Vec::new();
    let mut i: usize = 0;
    while i < sizes.len()
        invariant
            i <= sizes@.len(),
            out@ == sizes@.take(i as int).map_values(|size: Size| below(pin, size)),
        decreases sizes@.len() - i,
    {
        out.push(place_below(pin, sizes[i]));
        i = i + 1;
        proof {
            assert(out@ =~= sizes@.take(i as int).map_values(|size: Size| below(pin, size)));
        }
    }
    proof {
        assert(sizes@.take(i as int) =~= sizes@);
    }
    out
}

/// Zooming keeps what lies below the mouse where it is: the mouse is at the same
/// fraction of the new length as of the old one, up to the rounding of a fixed
/// point number.
pub proof fn law_zoom_is_anchored_at_the_mouse(mouse: i64, origin: i64, len: i64, new_len: i64)
    requires
        geom::moderate(mouse as int),
        0 < len,
        0 <= new_len <= geom::COORDINATE_LIMIT,
        origin <= mouse <= origin + len,
    ensures
        -len <= 2 * ((mouse - anchored(mouse, origin, len, new_len)) * len - (mouse - origin)
            * new_len) <= len,
        anchored(mouse, origin, len, new_len) <= mouse,
        mouse <= anchored(mouse, origin, len, new_len) + new_len,
{
    let offset = mouse - origin;
    let part = fixed::nearest(offset * new_len, len as int);
    fixed::law_rounding_error(offset * new_len, len as int);
    assert(0 <= offset * new_len <= len * new_len) by (nonlinear_arith)
        requires
            0 <= offset <= len,
            0 <= new_len,
    ;
    assert(0 <= part <= new_len) by (nonlinear_arith)
        requires
            0 < len,
            0 <= offset * new_len <= len * new_len,
            -len <= 2 * (part * len - offset * new_len) <= len,
    ;
    assert(new_len * len == len * new_len) by (nonlinear_arith);
    if offset <= 0 {
        assert(0 * len == 0 && 0 * new_len == 0) by (nonlinear_arith);
    }
}

/// A position in an image that is shown at its size or larger is found again
/// from where it appears.
pub proof fn law_enlarged_position_is_found_again(x: i64, zoom: i64)
    requires
        UNIT <= zoom <= ZOOM_MAX,
        -1_000_000_000_000_000_000 <= x <= 1_000_000_000_000_000_000,
    ensures
        fixed::quotient(fixed::product(x, zoom), zoom) == x,
{
    let shown = fixed::nearest(x * zoom, UNIT as int);
    fixed::law_rounding_error(x * zoom, UNIT as int);
    assert(-8_000_000 * 1_000_000_000_000_000_000 <= x * zoom <= 8_000_000
        * 1_000_000_000_000_000_000) by (nonlinear_arith)
        requires
            1_000_000 <= zoom <= 8_000_000,
            -1_000_000_000_000_000_000 <= x <= 1_000_000_000_000_000_000,
    ;
    if zoom == UNIT {
        fixed::law_rounding_is_unique(x * zoom, UNIT as int, x as int);
    }
    fixed::law_rounding_is_unique(shown * UNIT, zoom as int, x as int);
}

/// What is drawn on the screen is what is exported, enlarged by the zoom factor:
/// the paint operations are the same.
pub proof fn law_screen_and_export_agree(view: PinViewState, bounds: Rect, height: i64)
    requires
        view.wf(),
        view.commands.len() > 0,
        fixed::quotient(bounds.size.height, view.zoom) == height,
    ensures
        view.overlay(bounds) == Some((view.zoom, draw::painting(view.commands, height))),
{
}

/// Turning clicks through on and off again, with the middle button or from
/// outside, leaves the view as it was.
pub proof fn law_click_through_is_undone(view: PinViewState)
    ensures
        view.with_click_through(!view.click_through).with_click_through(view.click_through)
            == view,
{
}

/// Leaving annotation mode leaves no text field behind and no half finished
/// drag.
pub proof fn law_leaving_annotation_mode_clears_input(view: PinViewState)
    ensures
        view.after_set_annotating(false).text_field is None,
        view.after_set_annotating(false).grab_offset is None,
        !view.after_set_annotating(false).annotating,
        view.text_field is Some ==> view.set_annotating_effects(false).last()
            == EffectView::RemoveField,
{
}

/// Anything that changes a view.
pub enum ViewStep {
    MouseDown(Press),
    MouseUp,
    RightMouseDown,
    OtherMouseDown,
    Wheel(Wheel),
    TextCommitted,
    ClickThrough(bool),
    Commands(Seq<CommandView>),
    Annotating(bool),
    Handler(HandlerId),
    KeyHandler(HandlerId),
    WindowDrag(bool),
    CopyTaken,
    BeginText { rect: Rect, font_size: i64, view_height: i64 },
    Polled { measured: Size, editing: bool },
    EndText,
    CloseSelf,
}

impl PinViewState {
    /// The view after a step.
    pub open spec fn after_step(self, step: ViewStep) -> PinViewState {
        match step {
            ViewStep::MouseDown(press) => self.after_mouse_down(press),
            ViewStep::MouseUp => self.after_mouse_up(),
            ViewStep::RightMouseDown => self.after_right_mouse_down(),
            ViewStep::OtherMouseDown => self.with_click_through(!self.click_through),
            ViewStep::Wheel(wheel) => self.after_wheel(wheel),
            ViewStep::TextCommitted => PinViewState { text_done: true, ..self },
            ViewStep::ClickThrough(on) => self.with_click_through(on),
            ViewStep::Commands(commands) => PinViewState {
                commands,
                needs_display: true,
                ..self
            },
            ViewStep::Annotating(on) => self.after_set_annotating(on),
            ViewStep::Handler(handler) => PinViewState { handler: Some(handler), ..self },
            ViewStep::KeyHandler(handler) => PinViewState { key_handler: Some(handler), ..self },
            ViewStep::WindowDrag(on) => PinViewState { window_drag: on, ..self },
            ViewStep::CopyTaken => PinViewState { copy_requested: false, ..self },
            ViewStep::BeginText { rect, font_size, view_height } => self.after_begin_text(
                rect,
                font_size,
                view_height,
            ),
            ViewStep::Polled { measured, editing } => self.after_poll(measured, editing),
            ViewStep::EndText => self.after_end_text(),
            ViewStep::CloseSelf => self.after_close(),
        }
    }

    pub open spec fn after_steps(self, steps: Seq<ViewStep>) -> PinViewState
        decreases steps.len(),
    {
        if steps.len() == 0 {
            self
        } else {
            self.after_steps(steps.drop_last()).after_step(steps.last())
        }
    }

    /// Step `i` closes the window: it was told to close, or the right button went
    /// down while nothing was being drawn.
    pub open spec fn closes(self, steps: Seq<ViewStep>, i: int) -> bool {
        ||| steps[i] is CloseSelf
        ||| steps[i] is RightMouseDown && !self.after_steps(steps.take(i)).annotating
    }
}

/// A view is closed if and only if it was told to close, and it stays closed.
pub proof fn law_closed_views_were_told_to_close(size: Size, steps: Seq<ViewStep>)
    ensures
        PinViewState::fresh(size).after_steps(steps).closed <==> exists|i: int|
            0 <= i < steps.len() && #[trigger] PinViewState::fresh(size).closes(steps, i),
    decreases steps.len(),
{
    let start = PinViewState::fresh(size);
    if steps.len() > 0 {
        let init = steps.drop_last();
        let last = steps.len() - 1;
        law_closed_views_were_told_to_close(size, init);
        assert(steps.take(last) =~= init);
        assert forall|i: int| 0 <= i < last implies #[trigger] start.closes(init, i)
            == start.closes(steps, i) by {
            assert(init.take(i) =~= steps.take(i));
        }
        if start.after_steps(init).closed {
            let i = choose|i: int| 0 <= i < init.len() && #[trigger] start.closes(init, i);
            assert(start.closes(steps, i));
        }
        if start.closes(steps, last) {
            assert(start.after_steps(steps).closed);
        }
        if exists|i: int| 0 <= i < steps.len() && #[trigger] start.closes(steps, i) {
            let i = choose|i: int| 0 <= i < steps.len() && #[trigger] start.closes(steps, i);
            if i < last {
                assert(start.closes(init, i));
            }
        }
    }
}

/// While annotating, the right button closes nothing and a double click on a
/// figure copies nothing.
pub proof fn law_annotating_protects_the_image(view: PinViewState, press: Press)
    requires
        view.annotating,
        !view.window_drag,
    ensures
        view.after_mouse_down(press).copy_requested == view.copy_requested,
        view.after_mouse_down(press).closed == view.closed,
        view.after_right_mouse_down() == view,
{
}

/// A length is another length at a zoom factor, to the nearest millionth.
pub open spec fn is_scaled(len: int, base: int, zoom: int) -> bool {
    -1_000_000 <= 2 * (len * 1_000_000 - base * zoom) <= 1_000_000
}

/// An image is neither empty nor so large that its size at a zoom factor leaves the
/// number range.
pub open spec fn can_be_zoomed(base: Size) -> bool {
    &&& 0 <= base.width <= 1_000_000_000_000_000_000
    &&& 0 <= base.height <= 1_000_000_000_000_000_000
}

proof fn lemma_scaled(base: i64, zoom: i64)
    requires
        0 <= base <= 1_000_000_000_000_000_000,
        0 <= zoom <= ZOOM_MAX,
    ensures
        is_scaled(fixed::product(base, zoom) as int, base as int, zoom as int),
        0 <= fixed::product(base, zoom) <= 8_000_000_000_000_000_001,
{
    assert(0 <= base * zoom <= 8_000_000 * 1_000_000_000_000_000_000) by (nonlinear_arith)
        requires
            0 <= base <= 1_000_000_000_000_000_000,
            0 <= zoom <= 8_000_000,
    ;
    fixed::law_rounding_error(base * zoom, UNIT as int);
}

/// Whenever a turn of the wheel asks for a frame, its width and its height are those
/// of the image without zoom times the zoom factor after the turn, whatever the size
/// of the window was.
pub proof fn law_zoomed_windows_have_the_scaled_size(view: PinViewState, wheel: Wheel, i: int)
    requires
        view.wf(),
        can_be_zoomed(view.base_size),
        0 <= i < view.wheel_effects(wheel).len(),
    ensures
        view.wheel_effects(wheel)[i] matches EffectView::SetFrame(frame) ==> {
            let zoom = view.after_wheel(wheel).zoom as int;
            &&& is_scaled(frame.size.width as int, view.base_size.width as int, zoom)
            &&& is_scaled(frame.size.height as int, view.base_size.height as int, zoom)
        },
{
    let zoom = view.after_wheel(wheel).zoom;
    lemma_scaled(view.base_size.width, zoom);
    lemma_scaled(view.base_size.height, zoom);
}

/// The size that a turn of the wheel asks for does not depend on the window or on
/// where the mouse is.
pub proof fn law_zoomed_size_does_not_depend_on_the_window(
    view: PinViewState,
    wheel: Wheel,
    window: Rect,
    mouse: Point,
)
    requires
        wheel.window is Some,
    ensures
        ({
            let other = Wheel { window: Some(window), mouse, ..wheel };
            &&& view.wheel_effects(other).len() == view.wheel_effects(wheel).len()
            &&& view.after_wheel(other).zoom == view.after_wheel(wheel).zoom
            &&& forall|i: int|
                0 <= i < view.wheel_effects(wheel).len() ==> (
                #[trigger] view.wheel_effects(wheel)[i] matches EffectView::SetFrame(frame) ==> (
                view.wheel_effects(other)[i] matches EffectView::SetFrame(moved) && moved.size
                    == frame.size))
        }),
{
}

proof fn lemma_a_step_keeps_the_base_size(view: PinViewState, step: ViewStep)
    requires
        view.wf(),
    ensures
        view.after_step(step).base_size == view.base_size,
        view.after_step(step).wf(),
{
    match step {
        ViewStep::Wheel(wheel) => {
            assert(ZOOM_MIN <= zoomed(view.zoom, wheel.dy) <= ZOOM_MAX);
            let turn = PinViewState::fade_delta(wheel);
            assert(OPACITY_MIN <= faded(view.opacity, turn) <= UNIT);
        },
        _ => {},
    }
}

proof fn lemma_steps_keep_the_base_size(view: PinViewState, steps: Seq<ViewStep>)
    requires
        view.wf(),
    ensures
        view.after_steps(steps).base_size == view.base_size,
        view.after_steps(steps).wf(),
    decreases steps.len(),
{
    if steps.len() > 0 {
        lemma_steps_keep_the_base_size(view, steps.drop_last());
        lemma_a_step_keeps_the_base_size(view.after_steps(steps.drop_last()), steps.last());
    }
}

/// However often a view was zoomed before, and whatever else happened to it, the
/// frame that zooming asks for next has the size of the image at the zoom factor
/// after it. Rounding errors never add up.
pub proof fn law_zooming_starts_from_the_image(
    size: Size,
    steps: Seq<ViewStep>,
    wheel: Wheel,
    i: int,
)
    requires
        can_be_zoomed(size),
        0 <= i < PinViewState::fresh(size).after_steps(steps).wheel_effects(wheel).len(),
    ensures
        ({
            let view = PinViewState::fresh(size).after_steps(steps);
            let zoom = view.after_wheel(wheel).zoom as int;
            view.wheel_effects(wheel)[i] matches EffectView::SetFrame(frame) ==> is_scaled(
                frame.size.width as int,
                size.width as int,
                zoom,
            ) && is_scaled(frame.size.height as int, size.height as int, zoom)
        }),
{
    lemma_steps_keep_the_base_size(PinViewState::fresh(size), steps);
    law_zoomed_windows_have_the_scaled_size(
        PinViewState::fresh(size).after_steps(steps),
        wheel,
        i,
    );
}

/// A turn of the wheel that changes the zoom factor asks for one frame, and one that
/// does not asks for none.
pub proof fn law_a_new_zoom_factor_asks_for_a_frame(view: PinViewState, wheel: Wheel)
    requires
        !wheel.shift,
        !wheel.option,
        wheel.window is Some,
    ensures
        view.after_wheel(wheel).zoom != view.zoom ==> view.wheel_effects(wheel).len() == 1
            && view.wheel_effects(wheel)[0] is SetFrame && view.after_wheel(wheel).needs_display,
        view.after_wheel(wheel).zoom == view.zoom ==> view.wheel_effects(wheel).len() == 0,
        view.after_wheel(wheel).opacity == view.opacity,
        view.after_wheel(wheel).base_size == view.base_size,
        wheel.dy != 0 && view.text_field is Some ==> view.after_wheel(wheel).text_done,
{
}

/// What lies under the mouse stays under it when the window is zoomed: in both
/// directions the mouse is at the same fraction of the frame that is asked for as of
/// the window, up to rounding.
pub proof fn law_the_point_under_the_mouse_stays(view: PinViewState, wheel: Wheel, old: Rect)
    requires
        view.wf(),
        0 <= view.base_size.width <= 400_000_000_000_000_000,
        0 <= view.base_size.height <= 400_000_000_000_000_000,
        wheel.window == Some(old),
        !wheel.shift,
        !wheel.option,
        wheel.mouse.moderate(),
        0 < old.size.width,
        0 < old.size.height,
        old.origin.x <= wheel.mouse.x <= old.origin.x + old.size.width,
        old.origin.y <= wheel.mouse.y <= old.origin.y + old.size.height,
        view.wheel_effects(wheel).len() > 0,
    ensures
        view.wheel_effects(wheel)[0] matches EffectView::SetFrame(f) && ({
            let across = wheel.mouse.x - old.origin.x;
            let up = wheel.mouse.y - old.origin.y;
            &&& -old.size.width <= 2 * ((wheel.mouse.x - f.origin.x) * old.size.width - across
                * f.size.width) <= old.size.width
            &&& -old.size.height <= 2 * ((wheel.mouse.y - f.origin.y) * old.size.height - up
                * f.size.height) <= old.size.height
        }),
{
    let zoom = view.after_wheel(wheel).zoom;
    let size = zoomed_size(view.base_size, zoom);
    lemma_zoomed_length(view.base_size.width, zoom);
    lemma_zoomed_length(view.base_size.height, zoom);
    law_zoom_is_anchored_at_the_mouse(
        wheel.mouse.x,
        old.origin.x,
        old.size.width,
        size.width,
    );
    law_zoom_is_anchored_at_the_mouse(
        wheel.mouse.y,
        old.origin.y,
        old.size.height,
        size.height,
    );
}

proof fn lemma_zoomed_length(base: i64, zoom: i64)
    requires
        0 <= base <= 400_000_000_000_000_000,
        0 <= zoom <= ZOOM_MAX,
    ensures
        0 <= fixed::product(base, zoom) <= geom::COORDINATE_LIMIT,
{
    lemma_scaled(base, zoom);
    assert(0 <= base * zoom <= 8_000_000 * 400_000_000_000_000_000) by (nonlinear_arith)
        requires
            0 <= base <= 400_000_000_000_000_000,
            0 <= zoom <= 8_000_000,
    ;
}

/// A turn of the wheel by `dy` changes the zoom factor by `dy` hundredths of it, to
/// the nearest millionth, as far as the limits of a tenth and of eight allow: upwards
/// it never gets smaller, downwards never larger.
pub proof fn law_the_wheel_zooms_by_hundredths(zoom: i64, dy: i64)
    requires
        100_000 <= zoom <= 8_000_000,
        geom::moderate(dy as int),
    ensures
        100_000 <= zoomed(zoom, dy) <= 8_000_000,
        100_000 < zoomed(zoom, dy) < 8_000_000 ==> -100_000_000 <= 2 * (zoomed(zoom, dy)
            * 100_000_000 - zoom * (100_000_000 + dy)) <= 100_000_000,
        zoomed(zoom, dy) == 100_000 ==> 2 * zoom * (100_000_000 + dy) <= 100_000_000 * 200_001,
        zoomed(zoom, dy) == 8_000_000 ==> 2 * zoom * (100_000_000 + dy) >= 100_000_000
            * 15_999_999,
        dy >= 0 ==> zoomed(zoom, dy) >= zoom,
        dy <= 0 ==> zoomed(zoom, dy) <= zoom,
        zoomed(zoom, 0) == zoom,
{
    let n = zoom * (100_000_000 + dy);
    fixed::law_rounding_error(n, 100_000_000);
    assert(2 * zoom * (100_000_000 + dy) == 2 * n) by (nonlinear_arith)
        requires
            n == zoom * (100_000_000 + dy),
    ;
    assert(dy >= 0 ==> n >= zoom * 100_000_000) by (nonlinear_arith)
        requires
            n == zoom * (100_000_000 + dy),
            zoom > 0,
    ;
    assert(dy <= 0 ==> n <= zoom * 100_000_000) by (nonlinear_arith)
        requires
            n == zoom * (100_000_000 + dy),
            zoom > 0,
    ;
    fixed::law_rounding_is_unique(zoom * 100_000_000, 100_000_000, zoom as int);
}

/// A turn of the wheel with shift or option held changes the opacity by a hundredth
/// of the turn, to the nearest millionth, as far as the limits of a tenth and of one
/// allow, and leaves the zoom factor and the frame alone.
pub proof fn law_the_wheel_fades_by_hundredths(view: PinViewState, wheel: Wheel)
    requires
        view.wf(),
        wheel.shift || wheel.option,
        wheel.dx == 0 || wheel.dy == 0,
        geom::moderate(wheel.dx as int),
        geom::moderate(wheel.dy as int),
    ensures
        ({
            let turn = wheel.dx + wheel.dy;
            let next = view.after_wheel(wheel).opacity;
            &&& 100_000 <= next <= 1_000_000
            &&& 100_000 < next < 1_000_000 ==> -100 <= 2 * ((next - view.opacity) * 100 - turn)
                <= 100
            &&& turn >= 0 ==> next >= view.opacity
            &&& turn <= 0 ==> next <= view.opacity
            &&& next == 100_000 ==> 2 * (view.opacity * 100 + turn) <= 100 * 200_001
            &&& next == 1_000_000 ==> 2 * (view.opacity * 100 + turn) >= 100 * 1_999_999
            &&& view.after_wheel(wheel) == (PinViewState { opacity: next, ..view })
            &&& turn != 0 ==> view.wheel_effects(wheel) == seq![EffectView::SetAlpha(next)]
            &&& turn == 0 ==> view.wheel_effects(wheel).len() == 0
        }),
{
    let turn = wheel.dx + wheel.dy;
    fixed::law_rounding_error(turn, 100);
}

/// A point of the view lies at the point of the image that the zoom factor moves to
/// it, counted from the top.
pub proof fn law_a_point_of_the_view_lies_in_the_image(
    view: PinViewState,
    at: Point,
    view_height: i64,
)
    requires
        view.wf(),
        -900_000_000_000_000_000 <= at.x <= 900_000_000_000_000_000,
        -400_000_000_000_000_000 <= at.y <= 400_000_000_000_000_000,
        -400_000_000_000_000_000 <= view_height <= 400_000_000_000_000_000,
    ensures
        ({
            let p = view.local(at, view_height);
            &&& -view.zoom <= 2 * (p.x * view.zoom - at.x * 1_000_000) <= view.zoom
            &&& -view.zoom <= 2 * (p.y * view.zoom - (view_height - at.y) * 1_000_000)
                <= view.zoom
        }),
{
    fixed::law_quotients_are_rounded(at.x, view.zoom);
    fixed::law_quotients_are_rounded(fixed::clamped(view_height - at.y), view.zoom);
}

/// Dragging a window keeps the point where it was grabbed under the mouse.
pub proof fn law_a_dragged_window_keeps_its_grip(view: PinViewState, press: Press, mouse: Point)
    requires
        !view.annotating,
        view.text_field is None,
        press.click_count < 2,
        press.at.moderate(),
        mouse.moderate(),
    ensures
        ({
            let effects = view.after_mouse_down(press).drag_effects(mouse);
            &&& effects.len() == 1
            &&& effects[0] matches EffectView::MoveWindow(origin)
            &&& origin.x + press.at.x == mouse.x
            &&& origin.y + press.at.y == mouse.y
        }),
{
}

/// Once the button is up, the mouse no longer moves the window; while something is
/// drawn, it never does.
pub proof fn law_only_a_held_window_moves(view: PinViewState, mouse: Point)
    ensures
        view.after_mouse_up().drag_effects(mouse).len() == 0,
        view.annotating && !view.window_drag ==> view.drag_effects(mouse).len() == 0,
        view.after_set_annotating(true).drag_effects(mouse).len() == 0,
{
}

/// While annotating, a press tells the handler where in the image it was. A press
/// beside an open text field ends typing and tells nothing.
pub proof fn law_presses_reach_the_handler(view: PinViewState, press: Press)
    ensures
        view.text_field is Some ==> view.mouse_down_event(press) is None && view.after_mouse_down(
            press,
        ) == (PinViewState { text_done: true, ..view }),
        !view.annotating ==> view.mouse_down_event(press) is None,
        view.text_field is None && view.annotating && press.click_count < 2 ==> (match view.handler {
            Some(handler) => view.mouse_down_event(press) == Some(
                (handler, PointerEvent::Down(view.local(press.at, press.view_height))),
            ),
            None => view.mouse_down_event(press) is None,
        }),
{
}

/// A double click asks for a copy, unless it may have drawn something.
pub proof fn law_a_double_click_asks_for_a_copy(view: PinViewState, press: Press)
    requires
        view.text_field is None,
        !view.copy_requested,
    ensures
        view.after_mouse_down(press).copy_requested <==> press.click_count >= 2 && (!view.annotating
            || view.window_drag),
{
}

/// A window that is given the keyboard is brought to the front if it had not the
/// keyboard, and the image gets the key events unless a text is being typed.
pub proof fn law_the_keyboard_goes_to_the_image_or_the_field(view: PinViewState)
    ensures
        view.focusing(None).len() == 0,
        view.text_field is None ==> view.focusing(Some(true)) == seq![EffectView::FocusView],
        view.text_field is Some ==> view.focusing(Some(true)).len() == 0,
        view.focusing(Some(false)) == seq![EffectView::Activate, EffectView::MakeKey]
            + view.focusing(Some(true)),
{
    assert(view.focusing(Some(true)) =~= if view.text_field is None {
        seq![EffectView::FocusView]
    } else {
        Seq::empty()
    });
    assert(view.focusing(Some(false)) =~= seq![EffectView::Activate, EffectView::MakeKey]
        + view.focusing(Some(true)));
}

/// The text field lies on its text: two points to the left of where the text starts,
/// with its upper edge where the text starts, and no smaller than the text. It is at
/// least four font sizes wide and one and two fifths high.
pub proof fn law_the_field_lies_on_its_text(
    rect: Rect,
    zoom: i64,
    font_size: i64,
    view_height: i64,
)
    requires
        ZOOM_MIN <= zoom <= ZOOM_MAX,
        0 <= rect.origin.x <= 100_000_000_000_000_000,
        0 <= rect.origin.y <= 100_000_000_000_000_000,
        0 <= rect.size.width <= 100_000_000_000_000_000,
        0 <= rect.size.height <= 100_000_000_000_000_000,
        0 <= font_size <= 100_000_000_000,
        0 <= view_height <= 1_000_000_000_000_000_000,
    ensures
        ({
            let f = field_frame(rect, zoom, font_size, view_height);
            let font = fixed::product(font_size, zoom);
            &&& is_scaled(f.origin.x + 2_000_000, rect.origin.x as int, zoom as int)
            &&& is_scaled(
                view_height - (f.origin.y + f.size.height),
                rect.origin.y as int,
                zoom as int,
            )
            &&& is_scaled(f.size.width as int, rect.size.width as int, zoom as int)
                || f.size.width == 4 * font
            &&& is_scaled(f.size.height as int, rect.size.height as int, zoom as int)
                || is_scaled(f.size.height as int, font as int, 1_400_000)
            &&& 2 * (f.size.width * 1_000_000 - rect.size.width * zoom) >= -1_000_000
            &&& 2 * (f.size.height * 1_000_000 - rect.size.height * zoom) >= -1_000_000
            &&& f.size.width >= 4 * font
            &&& 2 * (f.size.height * 1_000_000 - font * 1_400_000) >= -1_000_000
        }),
{
    lemma_scaled(rect.origin.x, zoom);
    lemma_scaled(rect.origin.y, zoom);
    lemma_scaled(rect.size.width, zoom);
    lemma_scaled(rect.size.height, zoom);
    lemma_scaled(font_size, zoom);
    lemma_zoomed_length(rect.origin.x, zoom);
    lemma_zoomed_length(rect.origin.y, zoom);
    lemma_zoomed_length(rect.size.width, zoom);
    lemma_zoomed_length(rect.size.height, zoom);
    let font = fixed::product(font_size, zoom);
    assert(font_size * zoom <= 8_000_000 * 100_000_000_000) by (nonlinear_arith)
        requires
            0 <= font_size <= 100_000_000_000,
            0 <= zoom <= 8_000_000,
    ;
    fixed::law_rounding_error(font * FIELD_LINE, UNIT as int);
    fixed::law_rounding_is_unique(font * FIELD_WIDTH, UNIT as int, 4 * font);
}

/// A text field opens with the text, in its colour and at the font size that the zoom
/// factor makes of its own, and gets the keyboard. An open field is removed first.
pub proof fn law_a_text_field_opens(
    view: PinViewState,
    rect: Rect,
    initial: Seq<char>,
    font_size: i64,
    color: Rgba,
    view_height: i64,
)
    requires
        view.wf(),
        0 <= font_size <= 1_000_000_000_000_000_000,
    ensures
        ({
            let effects = view.begin_text_effects(rect, initial, font_size, color, view_height);
            let after = view.after_begin_text(rect, font_size, view_height);
            let n = effects.len();
            &&& n == if view.text_field is Some {
                6int
            } else {
                4int
            }
            &&& view.text_field is Some ==> effects[0] is DropFocus && effects[1] is RemoveField
            &&& effects[n - 4] matches EffectView::AddField { frame, text, font_size: size, color: c }
            &&& after.text_field == Some(frame)
            &&& after.text_anchor == Some((rect.origin, font_size))
            &&& text == initial
            &&& c == color
            &&& is_scaled(size as int, font_size as int, view.zoom as int)
            &&& effects[n - 3] is Activate
            &&& effects[n - 2] is MakeKey
            &&& effects[n - 1] is FocusField
            &&& !after.text_done
            &&& !after.text_focused
        }),
{
    lemma_scaled(font_size, view.zoom);
}

/// What is typed is handed on with the size that it has in the image. Typing is over
/// once the user says so, or once the field has lost the keyboard after having had it.
pub proof fn law_typed_text_is_handed_on(
    view: PinViewState,
    text: Seq<char>,
    measured: Size,
    editing: bool,
)
    requires
        view.wf(),
        0 <= measured.width <= 900_000_000_000_000_000,
        0 <= measured.height <= 900_000_000_000_000_000,
    ensures
        view.text_field is None ==> view.polled(text, measured, editing) is None,
        view.text_field is Some ==> (view.polled(text, measured, editing) matches Some(input) && ({
            &&& input.text == text
            &&& -view.zoom <= 2 * (input.extent.width * view.zoom - measured.width * 1_000_000)
                <= view.zoom
            &&& -view.zoom <= 2 * (input.extent.height * view.zoom - measured.height * 1_000_000)
                <= view.zoom
            &&& input.finished <==> view.text_done || (view.text_focused && !editing)
        })),
{
    fixed::law_quotients_are_rounded(measured.width, view.zoom);
    fixed::law_quotients_are_rounded(measured.height, view.zoom);
}

/// The text field grows with its text and never shrinks: it is always wider than the
/// text by eight logical points or more.
pub proof fn law_the_field_grows_with_its_text(view: PinViewState, measured: Size, editing: bool)
    requires
        view.text_field is Some,
        0 <= measured.width <= geom::COORDINATE_LIMIT,
    ensures
        ({
            let old = view.text_field->0;
            let after = view.after_poll(measured, editing);
            &&& after.text_field matches Some(new)
            &&& new.origin == old.origin
            &&& new.size.height == old.size.height
            &&& new.size.width >= old.size.width
            &&& new.size.width >= measured.width + 8_000_000
            &&& new.size.width == old.size.width || new.size.width == measured.width + 8_000_000
            &&& new.size == old.size ==> view.poll_effects(measured).len() == 0
            &&& new.size != old.size ==> view.poll_effects(measured) == seq![
                EffectView::ResizeField(new.size),
            ]
            &&& after.text_focused == (view.text_focused || editing)
        }),
{
}

/// A child window hangs five logical points below its window, and as much of it lies
/// to the left as to the right.
pub proof fn law_children_hang_centred_below(pin: Rect, size: Size)
    requires
        pin.moderate(),
        pin.size.width <= geom::COORDINATE_LIMIT,
        0 <= size.width <= geom::COORDINATE_LIMIT,
        0 <= size.height <= geom::COORDINATE_LIMIT,
    ensures
        ({
            let p = below(pin, size);
            &&& p.y + size.height + 5_000_000 == pin.origin.y
            &&& -1 <= (p.x - pin.origin.x) - (pin.origin.x + pin.size.width - p.x - size.width)
                <= 1
        }),
{
    fixed::law_halving(fixed::clamped(pin.size.width - size.width));
}

/// The border is a dark line and a light line inside of it, each one logical point
/// wide, on the outermost two points of the image.
pub proof fn law_the_border_has_two_lines(bounds: Rect)
    requires
        bounds.moderate(),
        3_000_000 <= bounds.size.width <= geom::COORDINATE_LIMIT,
        3_000_000 <= bounds.size.height <= geom::COORDINATE_LIMIT,
    ensures
        ({
            let ops = border(bounds);
            &&& ops.len() == 2
            &&& (ops[0] matches PaintView::StrokeRect { rect, color, width } && rect.origin.x
                == bounds.origin.x + 500_000 && rect.origin.y == bounds.origin.y + 500_000
                && rect.size.width == bounds.size.width - 1_000_000 && rect.size.height
                == bounds.size.height - 1_000_000 && width == 1_000_000 && color.r == 0 && color.g
                == 0 && color.b == 0)
            &&& (ops[1] matches PaintView::StrokeRect { rect, color, width } && rect.origin.x
                == bounds.origin.x + 1_500_000 && rect.origin.y == bounds.origin.y + 1_500_000
                && rect.size.width == bounds.size.width - 3_000_000 && rect.size.height
                == bounds.size.height - 3_000_000 && width == 1_000_000 && color.r == 1_000_000
                && color.g == 1_000_000 && color.b == 1_000_000)
        }),
{
}

/// A new view shows its image as it is: neither zoomed nor faded, and neither
/// annotating nor clicked through.
pub proof fn law_a_new_view_shows_its_image(size: Size)
    ensures
        ({
            let view = PinViewState::fresh(size);
            &&& view.wf()
            &&& view.has_image
            &&& view.base_size == size
            &&& view.zoom == 1_000_000
            &&& view.opacity == 1_000_000
            &&& !view.annotating
            &&& !view.click_through
            &&& !view.closed
            &&& !view.copy_requested
            &&& view.commands.len() == 0
            &&& view.text_field is None
        }),
{
}

/// A single press starts afresh: whatever the press before it was meant for, this one is
/// meant for drawing until the editor says otherwise, and the window is held where it
/// was pressed.
pub proof fn law_a_press_starts_afresh(view: PinViewState, press: Press)
    requires
        view.text_field is None,
        press.click_count < 2,
    ensures
        ({
            let after = view.after_mouse_down(press);
            &&& !after.window_drag
            &&& after.grab_offset == Some(press.at)
            &&& after.annotating ==> after.draws()
            &&& after.copy_requested == view.copy_requested
            &&& after.zoom == view.zoom
            &&& after.opacity == view.opacity
        }),
{
}

/// A turn of the wheel that goes up or down counts as that, however far it goes to the
/// side. Only one that goes to the side alone counts sideways, and it only fades.
pub proof fn law_the_wheel_counts_up_and_down_first(view: PinViewState, wheel: Wheel, dx: i64)
    ensures
        wheel.dy != 0 ==> view.after_wheel(Wheel { dx, ..wheel }) == view.after_wheel(wheel),
        wheel.dy != 0 ==> view.wheel_effects(Wheel { dx, ..wheel }) == view.wheel_effects(wheel),
        wheel.dy == 0 && !wheel.shift && !wheel.option ==> view.after_wheel(wheel) == view
            && view.wheel_effects(wheel).len() == 0,
{
}

/// Without a window there is nothing to zoom.
pub proof fn law_nothing_is_zoomed_without_a_window(view: PinViewState, wheel: Wheel)
    requires
        wheel.window is None,
        !wheel.shift,
        !wheel.option,
    ensures
        view.after_wheel(wheel) == view,
        view.wheel_effects(wheel).len() == 0,
{
}

/// Where the mouse is not over the window, the nearer side of the window goes to the
/// mouse; a window without a length is centred on it.
pub proof fn law_zooming_from_beside_the_window(mouse: i64, origin: i64, len: i64, new_len: i64)
    requires
        geom::moderate(mouse as int),
        geom::moderate(origin as int),
        0 <= new_len <= geom::COORDINATE_LIMIT,
    ensures
        len > 0 && mouse <= origin ==> anchored(mouse, origin, len, new_len) == mouse,
        len > 0 && mouse >= origin + len ==> anchored(mouse, origin, len, new_len) + new_len
            == mouse,
        len <= 0 ==> -1 <= 2 * (mouse - anchored(mouse, origin, len, new_len)) - new_len <= 1,
{
    fixed::law_halving(new_len);
}

/// What is drawn over the image is enlarged by the zoom factor, for an image as high as
/// the view is without it. Without commands nothing is.
pub proof fn law_drawings_are_enlarged_by_the_zoom_factor(view: PinViewState, bounds: Rect)
    requires
        view.wf(),
        0 <= bounds.size.height <= 900_000_000_000_000_000,
    ensures
        view.commands.len() == 0 <==> view.overlay(bounds) is None,
        view.overlay(bounds) matches Some((scale, ops)) ==> scale == view.zoom && exists|h: i64|
            -view.zoom <= 2 * (h * view.zoom - bounds.size.height * 1_000_000) <= view.zoom && ops
                == #[trigger] draw::painting(view.commands, h),
{
    let h = fixed::quotient(bounds.size.height, view.zoom);
    fixed::law_quotients_are_rounded(bounds.size.height, view.zoom);
    if view.commands.len() > 0 {
        assert((view.overlay(bounds)->0).1 == draw::painting(view.commands, h));
    }
}

} // verus!

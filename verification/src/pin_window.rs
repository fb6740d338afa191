//! The window of a pinned image: the view of the image, and the toolbar.

use vstd::prelude::*;

use crate::bitmap;
use crate::bitmap::{bitmap_from_bgra, Bitmap};
use crate::draw;
use crate::draw::{DrawCommand, Rgba};
use crate::effect;
use crate::effect::{ask, Effect, EffectView};
use crate::fixed;
use crate::fixed::{half_of, limit, minus, plus, product_of, UNIT};
use crate::geom;
use crate::geom::{Point, Rect, Size};
use crate::image;
use crate::image::PinImage;
use crate::input::{HandlerId, TextInput, TextInputView};
use crate::pin_view::{FieldFacts, PinView, PinViewState};
use crate::platform::Error;
use crate::toolbar;
use crate::toolbar::{toolbar_size, ItemView, ToolbarItem, ToolbarState, ToolbarView, PADDING};

verus! {

/// A toolbar and the size that its window was opened with.
pub struct Toolbar {
    pub size: Size,
    pub view: ToolbarView,
}

/// The window of a pinned image.
pub struct PinWindow {
    /// Comes with the image.
    pub view: Option<PinView>,
    pub toolbar: Option<Toolbar>,
    pub toolbar_handler: Option<HandlerId>,
    pub primary_height: i64,
}

/// The contents of a [`PinWindow`].
pub struct WindowState {
    pub view: Option<PinViewState>,
    pub toolbar: Option<(Size, ToolbarState)>,
    pub toolbar_handler: Option<HandlerId>,
    pub primary_height: i64,
}

impl View for PinWindow {
    type V = WindowState;

    open spec fn view(&self) -> WindowState {
        WindowState {
            view: match self.view {
                Some(v) => Some(v@),
                None => None,
            },
            toolbar: match self.toolbar {
                Some(t) => Some((t.size, t.view@)),
                None => None,
            },
            toolbar_handler: self.toolbar_handler,
            primary_height: self.primary_height,
        }
    }
}

/// Where the toolbar goes: centred below the image, or above it where it would
/// leave the display at the bottom. `bottom` is the lower edge of the display,
/// if it is known.
pub open spec fn toolbar_place(pin: Rect, size: Size, bottom: Option<i64>) -> Point {
    let below = fixed::clamped(fixed::clamped(pin.origin.y - size.height) - PADDING);
    Point {
        x: fixed::clamped(
            pin.origin.x + fixed::halved(fixed::clamped(pin.size.width - size.width)),
        ),
        y: if bottom matches Some(b) && below < b {
            fixed::clamped(fixed::clamped(pin.origin.y + pin.size.height) + PADDING)
        } else {
            below
        },
    }
}

/// The frame of a window that gets a new size and keeps its upper left corner.
pub open spec fn resized(old: Rect, size: Size) -> Rect {
    Rect {
        origin: Point {
            x: old.origin.x,
            y: fixed::clamped(fixed::clamped(old.origin.y + old.size.height) - size.height),
        },
        size,
    }
}

impl WindowState {
    pub open spec fn wf(self) -> bool {
        self.view matches Some(v) ==> v.wf()
    }

    /// A window without an image.
    pub open spec fn fresh(primary_height: i64) -> WindowState {
        WindowState { view: None, toolbar: None, toolbar_handler: None, primary_height }
    }

    pub open spec fn annotating(self) -> bool {
        self.view matches Some(v) && v.annotating
    }

    pub open spec fn with_commands(self, cmds: Seq<draw::CommandView>) -> WindowState {
        match self.view {
            Some(v) => WindowState {
                view: Some(PinViewState { commands: cmds, needs_display: true, ..v }),
                ..self
            },
            None => self,
        }
    }

    pub open spec fn with_annotation_mode(self, on: bool) -> WindowState {
        match self.view {
            Some(v) => WindowState { view: Some(v.after_set_annotating(on)), ..self },
            None => self,
        }
    }

    pub open spec fn annotation_mode_effects(self, on: bool) -> Seq<EffectView> {
        match self.view {
            Some(v) => v.set_annotating_effects(on),
            None => Seq::empty(),
        }
    }

    pub open spec fn with_window_drag(self, on: bool) -> WindowState {
        match self.view {
            Some(v) => WindowState {
                view: Some(PinViewState { window_drag: on, ..v }),
                ..self
            },
            None => self,
        }
    }

    /// The toolbar shows these buttons. Without buttons there is no toolbar.
    pub open spec fn with_toolbar(self, items: Seq<ItemView>) -> WindowState {
        if items.len() == 0 {
            WindowState { toolbar: None, ..self }
        } else {
            let (size, handler) = match self.toolbar {
                Some((size, state)) => (size, state.handler),
                None => (toolbar::size_for(items.len() as int), self.toolbar_handler),
            };
            WindowState {
                toolbar: Some((size, ToolbarState { items, handler, needs_display: true })),
                ..self
            }
        }
    }

    pub open spec fn toolbar_effects(self, items: Seq<ItemView>) -> Seq<EffectView> {
        if items.len() == 0 {
            if self.toolbar is Some {
                seq![EffectView::CloseToolbar]
            } else {
                Seq::empty()
            }
        } else {
            match self.toolbar {
                Some((size, _)) => seq![EffectView::PlaceToolbar(size)],
                None => {
                    let size = toolbar::size_for(items.len() as int);
                    seq![EffectView::OpenToolbar(size), EffectView::PlaceToolbar(size)]
                },
            }
        }
    }

    /// The height of the view at its zoom factor.
    pub open spec fn view_height(v: PinViewState) -> i64 {
        fixed::product(v.base_size.height, v.zoom)
    }

    pub open spec fn with_text_input(self, rect: Rect, font_size: i64) -> WindowState {
        match self.view {
            Some(v) => WindowState {
                view: Some(v.after_begin_text(rect, font_size, WindowState::view_height(v))),
                ..self
            },
            None => self,
        }
    }

    pub open spec fn text_input_effects(
        self,
        rect: Rect,
        initial: Seq<char>,
        font_size: i64,
        color: Rgba,
    ) -> Seq<EffectView> {
        match self.view {
            Some(v) => v.begin_text_effects(
                rect,
                initial,
                font_size,
                color,
                WindowState::view_height(v),
            ),
            None => Seq::empty(),
        }
    }

    /// A look at the text field, which shows what `facts` says.
    pub open spec fn after_poll(self, facts: Option<&FieldFacts>) -> WindowState {
        match (self.view, facts) {
            (Some(v), Some(f)) => WindowState {
                view: Some(v.after_poll(f.measured, f.editing)),
                ..self
            },
            _ => self,
        }
    }

    pub open spec fn poll_effects(self, facts: Option<&FieldFacts>) -> Seq<EffectView> {
        match (self.view, facts) {
            (Some(v), Some(f)) => v.poll_effects(f.measured),
            _ => Seq::empty(),
        }
    }

    pub open spec fn polled(self, facts: Option<&FieldFacts>) -> Option<TextInputView> {
        match (self.view, facts) {
            (Some(v), Some(f)) => v.polled(f.text@, f.measured, f.editing),
            _ => None,
        }
    }

    pub open spec fn after_end_text(self) -> WindowState {
        match self.view {
            Some(v) => WindowState { view: Some(v.after_end_text()), ..self },
            None => self,
        }
    }

    pub open spec fn end_text_effects(self) -> Seq<EffectView> {
        match self.view {
            Some(v) => v.end_text_effects(),
            None => Seq::empty(),
        }
    }
}

/// Where the toolbar goes.
pub fn reposition_toolbar(pin: Rect, size: Size, bottom: Option<i64>) -> (r: Point)
    ensures
        r == toolbar_place(pin, size, bottom),
{
    let x: i64 = plus(pin.origin.x, half_of(minus(pin.size.width, size.width)));
    let below: i64 = minus(minus(pin.origin.y, size.height), PADDING);
    let too_low: bool = match bottom {
        Some(b) => below < b,
        None => false,
    };
    let y: i64 = if too_low {
        plus(plus(pin.origin.y, pin.size.height), PADDING)
    } else {
        below
    };
    Point { x, y }
}

impl PinWindow {
    /// A window without an image.
    pub fn new(primary_height: i64) -> (r: PinWindow)
        ensures
            r@ == WindowState::fresh(primary_height),
            r@.wf(),
    {
        PinWindow { view: None, toolbar: None, toolbar_handler: None, primary_height }
    }

    /// Shows an image. The window takes its size and keeps its upper left
    /// corner; `frame` is its frame now, in the coordinates of the windowing system.
    pub fn set_image(&mut self, image: &PinImage<'_>, frame: Rect, fx: &mut Vec<Effect>) -> (r:
        Result<Bitmap, Error>)
        requires
            old(self)@.wf(),
            image.scale != 0,
            image::byte_count(image.width, image.height) <= usize::MAX,
        ensures
            final(self)@.wf(),
            r is Ok <==> bitmap::flaw(image@) is None,
            r matches Err(e) ==> e.says(bitmap::flaw(image@)->0),
            r matches Ok(b) ==> b.logical == bitmap::logical(
                image.width,
                image.height,
                image.scale,
            ) && b.width == image.width && b.height == image.height && b.rgba@
                == crate::encode::swapped(
                image@.bgra.take(image::byte_count(image.width, image.height)),
            ),
            r is Ok ==> final(self)@ == (WindowState {
                view: Some(
                    PinViewState::fresh(
                        bitmap::logical(image.width, image.height, image.scale),
                    ),
                ),
                ..old(self)@
            }),
            r is Err ==> final(self)@ == old(self)@,
            effect::log(final(fx)@) == if bitmap::flaw(image@) is None {
                effect::log(old(fx)@).push(
                    EffectView::SetFrame(
                        resized(
                            frame,
                            bitmap::logical(image.width, image.height, image.scale),
                        ),
                    ),
                )
            } else {
                effect::log(old(fx)@)
            },
    {
        let bitmap: Bitmap = match bitmap_from_bgra(image) {
            Ok(bitmap) => bitmap,
            Err(e) => return Err(e),
        };
        let size: Size = bitmap.logical;
        self.view = Some(PinView::new(size));
        let origin: Point = Point {
            x: frame.origin.x,
            y: minus(plus(frame.origin.y, frame.size.height), size.height),
        };
        ask(fx, Effect::SetFrame(Rect { origin, size }));
        Ok(bitmap)
    }

    /// Brings the window to the front.
    pub fn show(&self, fx: &mut Vec<Effect>)
        ensures
            effect::log(final(fx)@) == effect::log(old(fx)@).push(EffectView::OrderFront),
    {
        ask(fx, Effect::OrderFront);
    }

    /// Takes the window off the screen. It can be shown again.
    pub fn hide_window(&self, fx: &mut Vec<Effect>)
        ensures
            effect::log(final(fx)@) == effect::log(old(fx)@).push(EffectView::OrderOut),
    {
        ask(fx, Effect::OrderOut);
    }

    /// Closes the window for good.
    pub fn close(self, fx: &mut Vec<Effect>)
        ensures
            effect::log(final(fx)@) == effect::log(old(fx)@).push(EffectView::CloseWindow),
    {
        ask(fx, Effect::CloseWindow);
    }

    pub fn set_opacity(&self, alpha: i64, fx: &mut Vec<Effect>)
        ensures
            effect::log(final(fx)@) == effect::log(old(fx)@).push(
                EffectView::SetAlpha(fixed::limited(alpha, 0, UNIT)),
            ),
    {
        ask(fx, Effect::SetAlpha(limit(alpha, 0, UNIT)));
    }

    /// Lets clicks through, or no longer. The view has to know, since the middle
    /// button goes by what it knows.
    pub fn set_click_through(&mut self, on: bool, fx: &mut Vec<Effect>)
        requires
            old(self)@.wf(),
        ensures
            final(self)@.wf(),
            final(self)@ == match old(self)@.view {
                Some(v) => WindowState { view: Some(v.with_click_through(on)), ..old(self)@ },
                None => old(self)@,
            },
            effect::log(final(fx)@) == effect::log(old(fx)@).push(EffectView::SetIgnoresMouse(on)),
    {
        match &mut self.view {
            Some(v) => v.set_click_through(on, fx),
            None => ask(fx, Effect::SetIgnoresMouse(on)),
        }
    }

    /// Moves the upper left corner to a point of the desktop. `size` is the size
    /// of the window.
    pub fn move_to(&self, origin: Point, size: Size, fx: &mut Vec<Effect>)
        ensures
            effect::log(final(fx)@) == effect::log(old(fx)@).push(
                EffectView::MoveWindow(
                    draw::flipped(Rect { origin, size }, self@.primary_height).origin,
                ),
            ),
    {
        let cocoa: Rect = draw::flip(Rect { origin, size }, self.primary_height);
        ask(fx, Effect::MoveWindow(cocoa.origin));
    }

    /// Where on the desktop the window lies, given its frame in the coordinates
    /// of the windowing system.
    pub fn frame(&self, cocoa: Rect) -> (r: Rect)
        ensures
            r == draw::flipped(cocoa, self@.primary_height),
    {
        draw::flip(cocoa, self.primary_height)
    }

    pub fn set_draw_commands(&mut self, commands: &[DrawCommand])
        requires
            old(self)@.wf(),
        ensures
            final(self)@.wf(),
            final(self)@ == old(self)@.with_commands(draw::commands(commands@)),
    {
        if let Some(v) = &mut self.view {
            v.set_commands(commands);
        }
    }

    pub fn set_annotation_mode(&mut self, on: bool, fx: &mut Vec<Effect>)
        requires
            old(self)@.wf(),
        ensures
            final(self)@.wf(),
            final(self)@ == old(self)@.with_annotation_mode(on),
            effect::log(final(fx)@) == effect::log(old(fx)@) + old(self)@.annotation_mode_effects(
                on,
            ),
    {
        proof {
            assert(effect::log(fx@) =~= effect::log(fx@) + Seq::<EffectView>::empty());
        }
        if let Some(v) = &mut self.view {
            v.set_annotating(on, fx);
        }
    }

    pub fn is_annotation_mode(&self) -> (r: bool)
        ensures
            r == self@.annotating(),
    {
        match &self.view {
            Some(v) => v.is_annotating(),
            None => false,
        }
    }

    pub fn set_pointer_handler(&mut self, handler: HandlerId)
        requires
            old(self)@.wf(),
        ensures
            final(self)@.wf(),
            final(self)@ == match old(self)@.view {
                Some(v) => WindowState {
                    view: Some(PinViewState { handler: Some(handler), ..v }),
                    ..old(self)@
                },
                None => old(self)@,
            },
    {
        if let Some(v) = &mut self.view {
            v.set_handler(handler);
        }
    }

    pub fn set_key_handler(&mut self, handler: HandlerId)
        requires
            old(self)@.wf(),
        ensures
            final(self)@.wf(),
            final(self)@ == match old(self)@.view {
                Some(v) => WindowState {
                    view: Some(PinViewState { key_handler: Some(handler), ..v }),
                    ..old(self)@
                },
                None => old(self)@,
            },
    {
        if let Some(v) = &mut self.view {
            v.set_key_handler(handler);
        }
    }

    /// Shows a toolbar with these buttons, or none without buttons.
    pub fn set_toolbar(&mut self, items: &[ToolbarItem], fx: &mut Vec<Effect>)
        requires
            old(self)@.wf(),
        ensures
            final(self)@.wf(),
            final(self)@ == old(self)@.with_toolbar(toolbar::item_views(items@)),
            effect::log(final(fx)@) == effect::log(old(fx)@) + old(self)@.toolbar_effects(
                toolbar::item_views(items@),
            ),
    {
        let ghost views = toolbar::item_views(items@);
        if items.len() == 0 {
            if self.toolbar.is_some() {
                ask(fx, Effect::CloseToolbar);
            }
            self.toolbar = None;
            proof {
                assert(effect::log(fx@) =~= effect::log(old(fx)@) + old(self)@.toolbar_effects(
                    views,
                ));
            }
            return;
        }
        if self.toolbar.is_none() {
            let size: Size = toolbar_size(items.len());
            let mut view: ToolbarView = ToolbarView::new();
            if let Some(handler) = self.toolbar_handler {
                view.set_handler(handler);
            }
            ask(fx, Effect::OpenToolbar(size));
            self.toolbar = Some(Toolbar { size, view });
        }
        if let Some(t) = &mut self.toolbar {
            t.view.set_items(items);
            ask(fx, Effect::PlaceToolbar(t.size));
        }
        proof {
            assert(effect::log(fx@) =~= effect::log(old(fx)@) + old(self)@.toolbar_effects(views));
        }
    }

    /// Is told which button of the toolbar was clicked.
    pub fn set_toolbar_handler(&mut self, handler: HandlerId)
        requires
            old(self)@.wf(),
        ensures
            final(self)@.wf(),
            final(self)@ == (WindowState {
                toolbar_handler: Some(handler),
                toolbar: match old(self)@.toolbar {
                    Some((size, state)) => Some(
                        (size, ToolbarState { handler: Some(handler), ..state }),
                    ),
                    None => None,
                },
                ..old(self)@
            }),
    {
        if let Some(t) = &mut self.toolbar {
            t.view.set_handler(handler);
        }
        self.toolbar_handler = Some(handler);
    }

    /// Opens a text field over the image.
    pub fn begin_text_input(
        &mut self,
        rect: Rect,
        initial: &str,
        font_size: i64,
        color: Rgba,
        fx: &mut Vec<Effect>,
    )
        requires
            old(self)@.wf(),
        ensures
            final(self)@.wf(),
            final(self)@ == old(self)@.with_text_input(rect, font_size),
            effect::log(final(fx)@) == effect::log(old(fx)@) + old(self)@.text_input_effects(
                rect,
                initial@,
                font_size,
                color,
            ),
    {
        proof {
            assert(effect::log(fx@) =~= effect::log(fx@) + Seq::<EffectView>::empty());
        }
        if let Some(v) = &mut self.view {
            let height: i64 = product_of(v.ivars.base_size.height, v.ivars.zoom);
            v.begin_text_input(rect, initial, font_size, color, height, fx);
        }
    }

    /// Reads what has been typed, given what the text field shows.
    pub fn poll_text_input(&mut self, facts: Option<&FieldFacts>, fx: &mut Vec<Effect>) -> (r:
        Option<TextInput>)
        requires
            old(self)@.wf(),
        ensures
            final(self)@.wf(),
            final(self)@ == old(self)@.after_poll(facts),
            effect::log(final(fx)@) == effect::log(old(fx)@) + old(self)@.poll_effects(facts),
            r is Some <==> old(self)@.polled(facts) is Some,
            r matches Some(input) ==> old(self)@.polled(facts) == Some(input@),
    {
        proof {
            assert(effect::log(fx@) =~= effect::log(fx@) + Seq::<EffectView>::empty());
        }
        match (&mut self.view, facts) {
            (Some(v), Some(f)) => v.poll_text_input(f, fx),
            _ => None,
        }
    }

    pub fn end_text_input(&mut self, fx: &mut Vec<Effect>)
        requires
            old(self)@.wf(),
        ensures
            final(self)@.wf(),
            final(self)@ == old(self)@.after_end_text(),
            effect::log(final(fx)@) == effect::log(old(fx)@) + old(self)@.end_text_effects(),
    {
        proof {
            assert(effect::log(fx@) =~= effect::log(fx@) + Seq::<EffectView>::empty());
        }
        if let Some(v) = &mut self.view {
            v.end_text_input(fx);
        }
    }

    /// Says whether the mouse moves the window while annotating.
    pub fn set_window_drag(&mut self, on: bool)
        requires
            old(self)@.wf(),
        ensures
            final(self)@.wf(),
            final(self)@ == old(self)@.with_window_drag(on),
    {
        if let Some(v) = &mut self.view {
            v.set_window_drag(on);
        }
    }

    /// Whether the user has asked for a copy since the last call.
    pub fn take_copy_request(&mut self) -> (r: bool)
        requires
            old(self)@.wf(),
        ensures
            final(self)@.wf(),
            r == (old(self)@.view matches Some(v) && v.copy_requested),
            final(self)@ == match old(self)@.view {
                Some(v) => WindowState {
                    view: Some(PinViewState { copy_requested: false, ..v }),
                    ..old(self)@
                },
                None => old(self)@,
            },
    {
        match &mut self.view {
            Some(v) => v.take_copy_request(),
            None => false,
        }
    }

    /// Lets the window have the keyboard. `is_key` says whether it has it.
    pub fn focus(&self, is_key: Option<bool>, fx: &mut Vec<Effect>)
        ensures
            effect::log(final(fx)@) == effect::log(old(fx)@) + match self@.view {
                Some(v) => v.focusing(is_key),
                None => Seq::empty(),
            },
    {
        proof {
            assert(effect::log(fx@) =~= effect::log(fx@) + Seq::<EffectView>::empty());
        }
        if let Some(v) = &self.view {
            v.focus_window(is_key, fx);
        }
    }

    pub fn is_click_through(&self) -> (r: bool)
        ensures
            r == (self@.view matches Some(v) && v.click_through),
    {
        match &self.view {
            Some(v) => v.is_click_through(),
            None => false,
        }
    }

    pub fn is_closed(&self) -> (r: bool)
        ensures
            r == (self@.view matches Some(v) && v.closed),
    {
        match &self.view {
            Some(v) => v.is_closed(),
            None => false,
        }
    }
}

/// Showing an image keeps the upper left corner of its window where it was.
pub proof fn law_resizing_keeps_the_upper_left_corner(old: Rect, size: Size)
    requires
        old.moderate(),
        0 <= size.width <= geom::COORDINATE_LIMIT,
        0 <= size.height <= geom::COORDINATE_LIMIT,
    ensures
        resized(old, size).origin.x == old.origin.x,
        resized(old, size).origin.y + size.height == old.origin.y + old.size.height,
{
}

/// The toolbar covers no part of its image, whether it is below or above.
pub proof fn law_the_toolbar_is_beside_the_image(pin: Rect, size: Size, bottom: Option<i64>)
    requires
        pin.moderate(),
        0 <= size.width <= geom::COORDINATE_LIMIT,
        0 <= size.height <= geom::COORDINATE_LIMIT,
    ensures
        toolbar_place(pin, size, bottom).y + size.height < pin.origin.y || toolbar_place(
            pin,
            size,
            bottom,
        ).y > pin.origin.y + pin.size.height,
        bottom matches Some(b) ==> b <= pin.origin.y ==> toolbar_place(pin, size, bottom).y >= b,
{
}

/// Without buttons there is no toolbar, and its window is closed once.
pub proof fn law_no_buttons_no_toolbar(window: WindowState)
    ensures
        window.with_toolbar(Seq::empty()).toolbar is None,
        window.with_toolbar(Seq::empty()).toolbar_effects(Seq::empty()) == Seq::<
            EffectView,
        >::empty(),
{
}

/// The toolbar is centred at the image: as much of it lies to the left as to the
/// right. It hangs five logical points below the image, or stands as far above it
/// where it would otherwise reach below the display.
pub proof fn law_the_toolbar_hangs_centred_below_the_image(
    pin: Rect,
    size: Size,
    bottom: Option<i64>,
)
    requires
        pin.moderate(),
        pin.size.width <= geom::COORDINATE_LIMIT,
        0 <= size.width <= geom::COORDINATE_LIMIT,
        0 <= size.height <= geom::COORDINATE_LIMIT,
    ensures
        ({
            let p = toolbar_place(pin, size, bottom);
            let hanging = pin.origin.y - size.height - 5_000_000;
            &&& -1 <= (p.x - pin.origin.x) - (pin.origin.x + pin.size.width - p.x - size.width)
                <= 1
            &&& bottom is None ==> p.y == hanging
            &&& bottom matches Some(b) ==> p.y == if hanging >= b {
                hanging
            } else {
                pin.origin.y + pin.size.height + 5_000_000
            }
        }),
{
    fixed::law_halving(fixed::clamped(pin.size.width - size.width));
}

/// A toolbar opens at the size that its buttons need, and keeps it as long as it is
/// open. It shows the buttons that it was last given, and has to be drawn again.
pub proof fn law_the_toolbar_shows_its_buttons(window: WindowState, items: Seq<ItemView>)
    requires
        items.len() > 0,
    ensures
        ({
            let after = window.with_toolbar(items);
            &&& after.toolbar matches Some((size, bar))
            &&& bar.items == items
            &&& bar.needs_display
            &&& after.view == window.view
            &&& match window.toolbar {
                None => {
                    &&& size == toolbar::size_for(items.len() as int)
                    &&& bar.handler == window.toolbar_handler
                    &&& window.toolbar_effects(items) == seq![
                        EffectView::OpenToolbar(size),
                        EffectView::PlaceToolbar(size),
                    ]
                },
                Some((before, state)) => {
                    &&& size == before
                    &&& bar.handler == state.handler
                    &&& window.toolbar_effects(items) == seq![EffectView::PlaceToolbar(size)]
                },
            }
        }),
{
}

/// An open toolbar is closed when it has no buttons any more.
pub proof fn law_an_open_toolbar_is_closed(window: WindowState)
    ensures
        window.toolbar is Some ==> window.toolbar_effects(Seq::empty()) == seq![
            EffectView::CloseToolbar,
        ],
        window.toolbar is None ==> window.toolbar_effects(Seq::empty()).len() == 0,
        window.with_toolbar(Seq::empty()) == (WindowState { toolbar: None, ..window }),
{
}

/// A window without an image has nothing to annotate, no text field and nothing to
/// say about one.
pub proof fn law_an_empty_window_does_nothing(
    window: WindowState,
    on: bool,
    facts: Option<&FieldFacts>,
)
    requires
        window.view is None,
    ensures
        !window.annotating(),
        window.with_annotation_mode(on) == window,
        window.annotation_mode_effects(on).len() == 0,
        window.polled(facts) is None,
        window.poll_effects(facts).len() == 0,
        window.end_text_effects().len() == 0,
        window.after_end_text() == window,
{
}

/// The height of a view is that of its image at the zoom factor.
pub proof fn law_a_view_is_as_high_as_its_zoomed_image(v: PinViewState)
    requires
        v.wf(),
        0 <= v.base_size.height <= 1_000_000_000_000_000_000,
    ensures
        -1_000_000 <= 2 * (WindowState::view_height(v) * 1_000_000 - v.base_size.height * v.zoom)
            <= 1_000_000,
{
    assert(0 <= v.base_size.height * v.zoom <= 8_000_000 * 1_000_000_000_000_000_000)
        by (nonlinear_arith)
        requires
            0 <= v.base_size.height <= 1_000_000_000_000_000_000,
            100_000 <= v.zoom <= 8_000_000,
    ;
    fixed::law_products_are_rounded(v.base_size.height, v.zoom);
}

/// Annotation mode is what it was set to, and setting it touches neither the zoom
/// factor nor the opacity nor what is drawn.
pub proof fn law_annotation_mode_is_what_it_was_set_to(window: WindowState, on: bool)
    requires
        window.view is Some,
    ensures
        window.with_annotation_mode(on).annotating() == on,
        ({
            let before = window.view->0;
            let after = window.with_annotation_mode(on).view->0;
            &&& after.zoom == before.zoom
            &&& after.opacity == before.opacity
            &&& after.commands == before.commands
            &&& after.base_size == before.base_size
            &&& after.click_through == before.click_through
            &&& after.handler == before.handler
            &&& after.key_handler == before.key_handler
        }),
{
}

/// What is to be drawn over the image is drawn at the next opportunity.
pub proof fn law_new_commands_are_drawn(window: WindowState, cmds: Seq<draw::CommandView>)
    ensures
        window.view matches Some(v) ==> window.with_commands(cmds).view == Some(
            (PinViewState { commands: cmds, needs_display: true, ..v }),
        ),
        window.view is None ==> window.with_commands(cmds) == window,
        window.with_commands(cmds).toolbar == window.toolbar,
{
}

/// Whether the mouse moves the window while annotating is what was last said.
pub proof fn law_window_drag_is_what_it_was_set_to(window: WindowState, on: bool)
    ensures
        window.view matches Some(v) ==> (window.with_window_drag(on).view matches Some(w)
            && w.window_drag == on && w.annotating == v.annotating && w.zoom == v.zoom
            && w.grab_offset == v.grab_offset),
        window.view is None ==> window.with_window_drag(on) == window,
{
}

/// A new window has neither an image nor a toolbar.
pub proof fn law_a_new_window_is_empty(primary_height: i64)
    ensures
        WindowState::fresh(primary_height).view is None,
        WindowState::fresh(primary_height).toolbar is None,
        WindowState::fresh(primary_height).primary_height == primary_height,
{
}

/// The window hands on what the view says of the text field: its height is that of the
/// zoomed image, and what is measured is measured once.
pub proof fn law_the_window_hands_on_the_text_field(
    window: WindowState,
    rect: Rect,
    font_size: i64,
    text: Seq<char>,
    color: Rgba,
    facts: &FieldFacts,
)
    requires
        window.view is Some,
    ensures
        ({
            let v = window.view->0;
            let h = fixed::product(v.base_size.height, v.zoom);
            &&& window.with_text_input(rect, font_size).view == Some(
                v.after_begin_text(rect, font_size, h),
            )
            &&& window.text_input_effects(rect, text, font_size, color) == v.begin_text_effects(
                rect,
                text,
                font_size,
                color,
                h,
            )
            &&& window.polled(Some(facts)) == v.polled(facts.text@, facts.measured, facts.editing)
            &&& window.polled(None) is None
            &&& window.after_poll(None) == window
            &&& window.poll_effects(Some(facts)) == v.poll_effects(facts.measured)
        }),
{
}

} // verus!

//! What the windowing code is asked to do.

use vstd::prelude::*;

use crate::draw::Rgba;
use crate::geom::{Point, Rect, Size};
use crate::overlay::OverlayAction;
use crate::screen::ScreenId;

verus! {

/// A request to the windowing code, about the window of one pinned image.
///
/// Positions are those of the windowing system, whose y grows upwards.
#[derive(Debug, PartialEq)]
pub enum Effect {
    /// Makes the window and brings it to the front.
    CreateWindow(Rect),
    /// Makes the program the active one, so that it gets key events.
    Activate,
    /// Brings the window to the front and lets it have the keyboard.
    MakeKey,
    /// Lets the image have the key events.
    FocusView,
    /// Lets the text field have the key events.
    FocusField,
    /// Takes the key events from the text field.
    DropFocus,
    /// Brings the window to the front.
    OrderFront,
    /// Takes the window off the screen.
    OrderOut,
    CloseWindow,
    SetIgnoresMouse(bool),
    SetAlpha(i64),
    MoveWindow(Point),
    SetFrame(Rect),
    /// Shows a text field, in the coordinates of the image's view.
    AddField { frame: Rect, text: String, font_size: i64, color: Rgba },
    ResizeField(Size),
    RemoveField,
    /// Opens the toolbar as a child window.
    OpenToolbar(Size),
    CloseToolbar,
    /// Moves the toolbar, which has this size, to its place by the image.
    PlaceToolbar(Size),
    /// Concerns the overlay of a display.
    Overlay(ScreenId, OverlayAction),
}

/// The contents of an [`Effect`].
pub enum EffectView {
    CreateWindow(Rect),
    Activate,
    MakeKey,
    FocusView,
    FocusField,
    DropFocus,
    OrderFront,
    OrderOut,
    CloseWindow,
    SetIgnoresMouse(bool),
    SetAlpha(i64),
    MoveWindow(Point),
    SetFrame(Rect),
    AddField { frame: Rect, text: Seq<char>, font_size: i64, color: Rgba },
    ResizeField(Size),
    RemoveField,
    OpenToolbar(Size),
    CloseToolbar,
    PlaceToolbar(Size),
    Overlay(ScreenId, OverlayAction),
}

impl View for Effect {
    type V = EffectView;

    open spec fn view(&self) -> EffectView {
        match *self {
            Effect::CreateWindow(r) => EffectView::CreateWindow(r),
            Effect::Activate => EffectView::Activate,
            Effect::MakeKey => EffectView::MakeKey,
            Effect::FocusView => EffectView::FocusView,
            Effect::FocusField => EffectView::FocusField,
            Effect::DropFocus => EffectView::DropFocus,
            Effect::OrderFront => EffectView::OrderFront,
            Effect::OrderOut => EffectView::OrderOut,
            Effect::CloseWindow => EffectView::CloseWindow,
            Effect::SetIgnoresMouse(on) => EffectView::SetIgnoresMouse(on),
            Effect::SetAlpha(alpha) => EffectView::SetAlpha(alpha),
            Effect::MoveWindow(p) => EffectView::MoveWindow(p),
            Effect::SetFrame(r) => EffectView::SetFrame(r),
            Effect::AddField { frame, text, font_size, color } => EffectView::AddField {
                frame,
                text: text@,
                font_size,
                color,
            },
            Effect::ResizeField(size) => EffectView::ResizeField(size),
            Effect::RemoveField => EffectView::RemoveField,
            Effect::OpenToolbar(size) => EffectView::OpenToolbar(size),
            Effect::CloseToolbar => EffectView::CloseToolbar,
            Effect::PlaceToolbar(size) => EffectView::PlaceToolbar(size),
            Effect::Overlay(screen, action) => EffectView::Overlay(screen, action),
        }
    }
}

/// The contents of a list of effects.
pub open spec fn log(fx: Seq<Effect>) -> Seq<EffectView> {
    fx.map_values(|e: Effect| e@)
}

/// Asks for one more effect.
pub fn ask(fx: &mut Vec<Effect>, e: Effect)
    ensures
        log(final(fx)@) == log(old(fx)@).push(e@),
{
    fx.push(e);
    proof {
        assert(log(fx@) =~= log(old(fx)@).push(e@));
    }
}

/// Requests to overlays, as effects.
pub open spec fn overlay_effects(actions: Seq<(ScreenId, OverlayAction)>) -> Seq<EffectView> {
    actions.map_values(|a: (ScreenId, OverlayAction)| EffectView::Overlay(a.0, a.1))
}

/// Asks for something of overlays.
pub fn ask_overlays(fx: &mut Vec<Effect>, actions: &Vec<(ScreenId, OverlayAction)>)
    ensures
        log(final(fx)@) == log(old(fx)@) + overlay_effects(actions@),
{
    let mut i: usize = 0;
    proof {
        assert(log(fx@) =~= log(old(fx)@) + overlay_effects(actions@.take(0)));
    }
    while i < actions.len()
        invariant
            i <= actions@.len(),
            log(fx@) == log(old(fx)@) + overlay_effects(actions@.take(i as int)),
        decreases actions@.len() - i,
    {
        let (screen, action): (ScreenId, OverlayAction) = actions[i];
        ask(fx, Effect::Overlay(screen, action));
        i = i + 1;
        proof {
            assert(log(fx@) =~= log(old(fx)@) + overlay_effects(actions@.take(i as int)));
        }
    }
    proof {
        assert(actions@.take(i as int) =~= actions@);
    }
}

} // verus!

//! The pins on the screen, and how they come and go.

use vstd::prelude::*;

use crate::bitmap;
use crate::capture;
use crate::capture::Capturer;
use crate::compose;
use crate::compose::capture_selection;
use crate::draw;
use crate::draw::flip;
use crate::effect;
use crate::effect::{ask, ask_overlays, Effect, EffectView};
use crate::fixed;
use crate::fixed::{quotient_of, UNIT};
use crate::geom::{Point, Rect, Size};
use crate::image;
use crate::image::{CapturedImage, ImageView, PinImage};
use crate::input::{HandlerId, PointerEvent};
use crate::overlay;
use crate::overlay::{OverlayAction, OverlaySet, OverlayWindow};
use crate::pin;
use crate::pin::{make_pin, Pin, PinAction, PinState, Run};
use crate::pin_view::{FieldFacts, PinViewState};
use crate::pin_window::{PinWindow, WindowState};
use crate::platform::Error;
use crate::screen::{ScreenId, ScreenInfo};
use crate::selection;
use crate::selection::{
    Event, MachineView, Outcome, OutcomeView, Selection, SelectionMachine, State,
};

verus! {

/// How long to wait, in milliseconds, until hidden overlays have left the
/// screen.
pub const OVERLAY_SETTLE: u64 = 60;

/// Where an image from the clipboard goes when the mouse cannot be found.
pub const DEFAULT_POSITION: i64 = 100_000_000;

pub open spec fn states(pins: Seq<Pin>) -> Seq<PinState> {
    pins.map_values(|p: Pin| p@)
}

/// The user has closed the window of a pin.
pub open spec fn is_closed(pin: PinState) -> bool {
    pin.window.view matches Some(v) && v.closed
}

/// The pins without the closed ones.
pub open spec fn open_pins(pins: Seq<PinState>) -> Seq<PinState>
    decreases pins.len(),
{
    if pins.len() == 0 {
        pins
    } else {
        let rest = open_pins(pins.drop_last());
        if is_closed(pins.last()) {
            rest
        } else {
            rest.push(pins.last())
        }
    }
}

/// The closed pins.
pub open spec fn closed_pins(pins: Seq<PinState>) -> Seq<PinState>
    decreases pins.len(),
{
    if pins.len() == 0 {
        pins
    } else {
        let rest = closed_pins(pins.drop_last());
        if is_closed(pins.last()) {
            rest.push(pins.last())
        } else {
            rest
        }
    }
}

/// Takes out the pins whose windows the user has closed, with their positions
/// at the moment they are taken out. They have to be disposed of: overlays would
/// be left over otherwise.
pub fn reap(pins: &mut Vec<Pin>) -> (r: Vec<(usize, Pin)>)
    ensures
        states(final(pins)@) == open_pins(states(old(pins)@)),
        r@.map_values(|entry: (usize, Pin)| entry.1@) == closed_pins(states(old(pins)@)),
        forall|k: int|
            0 <= k < r@.len() ==> (#[trigger] r@[k]).0 + k < old(pins)@.len() && old(
                pins,
            )@[r@[k].0 + k] == r@[k].1,
        forall|j: int, k: int|
            #![trigger r@[j], r@[k]]
            0 <= j < k < r@.len() ==> r@[j].0 + j < r@[k].0 + k,
{
    let ghost all = states(pins@);
    let mut out: Vec<(usize, Pin)> = Vec::new();
    let mut i: usize = 0;
    proof {
        assert(all.take(0).len() == 0);
        assert(states(pins@) =~= open_pins(all.take(0)) + all.skip(0));
        assert(out@.map_values(|entry: (usize, Pin)| entry.1@) =~= closed_pins(all.take(0)));
    }
    while i < pins.len()
        invariant
            i <= pins@.len(),
            all == states(old(pins)@),
            i + out@.len() <= all.len(),
            pins@.len() + out@.len() == all.len(),
            states(pins@) == open_pins(all.take(i + out@.len())) + all.skip(i + out@.len()),
            open_pins(all.take(i + out@.len())).len() == i,
            out@.map_values(|entry: (usize, Pin)| entry.1@) == closed_pins(
                all.take(i + out@.len()),
            ),
            forall|k: int| i <= k < pins@.len() ==> #[trigger] pins@[k] == old(pins)@[k
                + out@.len()],
            forall|k: int|
                0 <= k < out@.len() ==> (#[trigger] out@[k]).0 + k < old(pins)@.len() && old(
                    pins,
                )@[out@[k].0 + k] == out@[k].1,
            forall|k: int| 0 <= k < out@.len() ==> (#[trigger] out@[k]).0 + k < i + out@.len(),
            forall|j: int, k: int|
                #![trigger out@[j], out@[k]]
                0 <= j < k < out@.len() ==> out@[j].0 + j < out@[k].0 + k,
        decreases pins@.len() - i,
    {
        let ghost n = i + out@.len();
        let ghost before = out@;
        let ghost pins_before = pins@;
        proof {
            assert(states(pins@)[i as int] == all.skip(n)[0]);
            assert(all.take(n + 1).drop_last() =~= all.take(n));
            assert(all.take(n + 1).last() == pins@[i as int]@);
            assert(all.skip(n) =~= seq![all[n]] + all.skip(n + 1));
        }
        if pins[i].window.is_closed() {
            let gone: Pin = pins.remove(i);
            out.push((i, gone));
            proof {
                assert(out@.map_values(|entry: (usize, Pin)| entry.1@) =~= before.map_values(
                    |entry: (usize, Pin)| entry.1@,
                ).push(gone@));
                assert(states(pins@) =~= states(pins_before).remove(i as int));
                assert(states(pins@) =~= open_pins(all.take(n + 1)) + all.skip(n + 1));
            }
        } else {
            i = i + 1;
            proof {
                assert(states(pins@) =~= open_pins(all.take(n + 1)) + all.skip(n + 1));
            }
        }
    }
    proof {
        let n = i + out@.len();
        assert(all.take(n) =~= all);
        assert(all.skip(n) =~= Seq::empty());
        assert(open_pins(all) + Seq::<PinState>::empty() =~= open_pins(all));
    }
    out
}

/// The numbers get smaller and smaller.
pub open spec fn descending(s: Seq<usize>) -> bool {
    forall|i: int, j: int| 0 <= i < j < s.len() ==> s[i] > s[j]
}

/// Some action closes pin `k`.
pub open spec fn closes(actions: Seq<(usize, PinAction)>, k: usize) -> bool {
    actions.contains((k, PinAction::Close))
}

/// The pins without those at the given positions.
pub open spec fn survivors(pins: Seq<PinState>, closing: Seq<usize>) -> Seq<PinState>
    decreases pins.len(),
{
    if pins.len() == 0 {
        pins
    } else {
        let rest = survivors(pins.drop_last(), closing);
        if closing.contains((pins.len() - 1) as usize) {
            rest
        } else {
            rest.push(pins.last())
        }
    }
}

/// Which pins the actions close: each of them once, the last ones first, so that
/// removing one does not move those that are still to be removed.
pub fn close_order(actions: &[(usize, PinAction)]) -> (r: Vec<usize>)
    ensures
        descending(r@),
        forall|k: usize| #[trigger] r@.contains(k) <==> closes(actions@, k),
{
    let mut out: Vec<usize> = Vec::new();
    let mut i: usize = 0;
    while i < actions.len()
        invariant
            i <= actions@.len(),
            descending(out@),
            forall|k: usize| #[trigger]
                out@.contains(k) <==> closes(actions@.take(i as int), k),
        decreases actions@.len() - i,
    {
        let (k, action): (usize, PinAction) = actions[i];
        let ghost before = out@;
        if action == PinAction::Close {
            insert_descending(&mut out, k);
        }
        proof {
            let shorter = actions@.take(i as int);
            let longer = actions@.take(i + 1);
            assert(longer =~= shorter.push((k, action)));
            assert forall|m: usize| #[trigger] out@.contains(m) <==> closes(longer, m) by {
                if closes(shorter, m) {
                    let j = choose|j: int| 0 <= j < shorter.len() && shorter[j] == (
                        m,
                        PinAction::Close,
                    );
                    assert(longer[j] == (m, PinAction::Close));
                }
                if closes(longer, m) {
                    let j = choose|j: int| 0 <= j < longer.len() && longer[j] == (
                        m,
                        PinAction::Close,
                    );
                    if j < shorter.len() {
                        assert(shorter[j] == (m, PinAction::Close));
                    } else {
                        assert(m == k && action == PinAction::Close);
                    }
                }
                if m == k && action == PinAction::Close {
                    assert(longer[i as int] == (m, PinAction::Close));
                }
                assert(before.contains(m) <==> closes(shorter, m));
            }
        }
        i = i + 1;
    }
    proof {
        assert(actions@.take(i as int) =~= actions@);
    }
    out
}

/// Puts a number in its place, unless it is there.
fn insert_descending(out: &mut Vec<usize>, k: usize)
    requires
        descending(old(out)@),
    ensures
        descending(final(out)@),
        forall|m: usize| #[trigger] final(out)@.contains(m) <==> old(out)@.contains(m) || m == k,
{
    let mut at: usize = 0;
    while at < out.len() && out[at] > k
        invariant
            at <= out@.len(),
            out@ == old(out)@,
            forall|j: int| 0 <= j < at ==> out@[j] > k,
        decreases out@.len() - at,
    {
        at = at + 1;
    }
    if at < out.len() && out[at] == k {
        proof {
            assert(out@.contains(k));
        }
        return;
    }
    let ghost before = out@;
    out.insert(at, k);
    proof {
        assert forall|m: usize| #[trigger] out@.contains(m) <==> before.contains(m) || m == k by {
            if before.contains(m) {
                let j = choose|j: int| 0 <= j < before.len() && before[j] == m;
                if j < at {
                    assert(out@[j] == m);
                } else {
                    assert(out@[j + 1] == m);
                }
            }
            if out@.contains(m) {
                let j = choose|j: int| 0 <= j < out@.len() && out@[j] == m;
                if j < at {
                    assert(before[j] == m);
                } else if j > at {
                    assert(before[j - 1] == m);
                }
            }
            if m == k {
                assert(out@[at as int] == k);
            }
        }
    }
}

proof fn lemma_survivors_of_none(pins: Seq<PinState>)
    ensures
        survivors(pins, Seq::empty()) == pins,
    decreases pins.len(),
{
    if pins.len() > 0 {
        lemma_survivors_of_none(pins.drop_last());
        assert(survivors(pins, Seq::empty()) =~= pins);
    }
}

/// The pins from `from` on, up to `to`, without those at the given positions.
spec fn survivors_after(pins: Seq<PinState>, closing: Seq<usize>, from: int, to: int)
    -> Seq<PinState>
    decreases to - from,
{
    if to <= from {
        Seq::empty()
    } else {
        let rest = survivors_after(pins, closing, from, to - 1);
        if closing.contains((to - 1) as usize) {
            rest
        } else {
            rest.push(pins[to - 1])
        }
    }
}

proof fn lemma_survivors_split(pins: Seq<PinState>, closing: Seq<usize>, k: int, n: int)
    requires
        0 <= k < n <= pins.len() <= usize::MAX,
        descending(closing.push(k as usize)),
    ensures
        survivors(pins.take(n), closing.push(k as usize)) == survivors(
            pins.take(k),
            Seq::empty(),
        ) + survivors_after(pins, closing, k + 1, n),
        survivors(pins.take(n), closing) == survivors(pins.take(k + 1), Seq::empty())
            + survivors_after(pins, closing, k + 1, n),
    decreases n,
{
    let more = closing.push(k as usize);
    assert(pins.take(n).drop_last() =~= pins.take(n - 1));
    assert(pins.take(n).last() == pins[n - 1]);
    assert forall|j: usize| #[trigger] closing.contains(j) implies more.contains(j) && j > k by {
        let m = choose|m: int| 0 <= m < closing.len() && closing[m] == j;
        assert(more[m] == j);
        assert(more[more.len() - 1] == k);
    }
    assert(more[more.len() - 1] == k);
    assert(more.contains(k as usize));
    if n == k + 1 {
        lemma_no_survivor_is_lost(pins.take(k), more);
        lemma_no_survivor_is_lost(pins.take(k + 1), closing);
        lemma_survivors_of_none(pins.take(k));
        lemma_survivors_of_none(pins.take(k + 1));
        assert(survivors(pins.take(n), more) =~= survivors(pins.take(k), Seq::empty())
            + survivors_after(pins, closing, k + 1, n));
        assert(survivors(pins.take(n), closing) =~= survivors(pins.take(k + 1), Seq::empty())
            + survivors_after(pins, closing, k + 1, n));
    } else {
        lemma_survivors_split(pins, closing, k, n - 1);
        let last = (n - 1) as usize;
        if more.contains(last) {
            let m = choose|m: int| 0 <= m < more.len() && more[m] == last;
            assert(m < closing.len());
            assert(closing[m] == last);
        }
        assert(more.contains(last) <==> closing.contains(last));
        assert(survivors(pins.take(n), more) =~= survivors(pins.take(k), Seq::empty())
            + survivors_after(pins, closing, k + 1, n));
        assert(survivors(pins.take(n), closing) =~= survivors(pins.take(k + 1), Seq::empty())
            + survivors_after(pins, closing, k + 1, n));
    }
}

proof fn lemma_no_survivor_is_lost(pins: Seq<PinState>, closing: Seq<usize>)
    requires
        forall|k: usize| #[trigger] closing.contains(k) ==> k >= pins.len(),
        pins.len() <= usize::MAX,
    ensures
        survivors(pins, closing) == pins,
    decreases pins.len(),
{
    if pins.len() > 0 {
        lemma_no_survivor_is_lost(pins.drop_last(), closing);
        assert(survivors(pins, closing) =~= pins);
    }
}

/// Removes the pins at the given positions and hands them out, in the order of
/// the positions.
pub fn remove_pins(pins: &mut Vec<Pin>, order: &[usize]) -> (r: Vec<Pin>)
    requires
        descending(order@),
        forall|j: int| 0 <= j < order@.len() ==> order@[j] < old(pins)@.len(),
    ensures
        states(final(pins)@) == survivors(states(old(pins)@), order@),
        r@.len() == order@.len(),
        forall|j: int| 0 <= j < r@.len() ==> #[trigger] r@[j] == old(pins)@[order@[j] as int],
{
    let ghost all = states(pins@);
    let mut out: Vec<Pin> = Vec::new();
    let mut i: usize = 0;
    proof {
        assert(order@.take(0) =~= Seq::empty());
        lemma_survivors_of_none(all);
        assert(pins.len() == pins@.len());
    }
    while i < order.len()
        invariant
            i <= order@.len(),
            all == states(old(pins)@),
            all.len() == old(pins)@.len(),
            all.len() <= usize::MAX,
            descending(order@),
            forall|j: int| 0 <= j < order@.len() ==> order@[j] < old(pins)@.len(),
            states(pins@) == survivors(all, order@.take(i as int)),
            out@.len() == i,
            forall|j: int| 0 <= j < i ==> #[trigger] out@[j] == old(pins)@[order@[j] as int],
            // What comes before the positions removed so far is where it was.
            forall|k: int|
                0 <= k < old(pins)@.len() && (i > 0 ==> k < order@[i - 1]) ==> k < pins@.len()
                    && #[trigger] pins@[k] == old(pins)@[k],
        decreases order@.len() - i,
    {
        let k: usize = order[i];
        let ghost before = pins@;
        let ghost taken = order@.take(i as int);
        proof {
            assert(order@.take(i + 1) =~= taken.push(k));
            assert(i > 0 ==> k < order@[i - 1]);
            assert(before[k as int] == old(pins)@[k as int]);
            lemma_survivors_split(all, taken, k as int, all.len() as int);
            assert(all.take(all.len() as int) =~= all);
            lemma_survivors_of_none(all.take(k as int));
            lemma_survivors_of_none(all.take(k + 1));
        }
        let gone: Pin = pins.remove(k);
        out.push(gone);
        proof {
            let after = survivors_after(all, taken, k + 1, all.len() as int);
            assert(states(before) =~= all.take(k + 1) + after);
            assert(states(pins@) =~= states(before).remove(k as int));
            assert(states(pins@) =~= all.take(k as int) + after);
        }
        i = i + 1;
    }
    proof {
        assert(order@.take(i as int) =~= order@);
    }
    out
}

/// The pin lets clicks through, or not.
pub open spec fn with_click_through(pin: PinState, on: bool) -> PinState {
    PinState {
        window: match pin.window.view {
            Some(v) => WindowState { view: Some(v.with_click_through(on)), ..pin.window },
            None => pin.window,
        },
        ..pin
    }
}

pub open spec fn lets_clicks_through(pin: PinState) -> bool {
    pin.window.view matches Some(v) && v.click_through
}

pub open spec fn all_wf(pins: Seq<PinState>) -> bool {
    forall|i: int| 0 <= i < pins.len() ==> (#[trigger] pins[i]).wf()
}

/// Some pin does not let clicks through.
pub open spec fn some_take_clicks(pins: Seq<PinState>) -> bool {
    exists|i: int| 0 <= i < pins.len() && !lets_clicks_through(#[trigger] pins[i])
}

/// Lets clicks through all pins if some of them take clicks, and through none
/// otherwise, so that they do not get out of step. Asks for one effect per pin,
/// in order.
pub fn toggle_click_through(pins: &mut Vec<Pin>, fx: &mut Vec<Effect>) -> (r: bool)
    requires
        all_wf(states(old(pins)@)),
    ensures
        all_wf(states(final(pins)@)),
        r == some_take_clicks(states(old(pins)@)),
        states(final(pins)@) == states(old(pins)@).map_values(
            |p: PinState| with_click_through(p, r),
        ),
        effect::log(final(fx)@) == effect::log(old(fx)@) + Seq::new(
            old(pins)@.len(),
            |i: int| EffectView::SetIgnoresMouse(r),
        ),
{
    let ghost all = states(pins@);
    let mut on: bool = false;
    let mut i: usize = 0;
    while i < pins.len()
        invariant
            i <= pins@.len(),
            all == states(pins@),
            pins@ == old(pins)@,
            on == exists|k: int| 0 <= k < i && !lets_clicks_through(#[trigger] all[k]),
        decreases pins@.len() - i,
    {
        proof {
            assert(all[i as int] == pins@[i as int]@);
        }
        if !pins[i].window.is_click_through() {
            on = true;
        }
        i = i + 1;
    }
    let mut k: usize = 0;
    proof {
        assert(effect::log(fx@) =~= effect::log(old(fx)@) + Seq::new(
            0,
            |i: int| EffectView::SetIgnoresMouse(on),
        ));
    }
    while k < pins.len()
        invariant
            k <= pins@.len(),
            pins@.len() == all.len(),
            all == states(old(pins)@),
            all_wf(all),
            forall|j: int|
                0 <= j < k ==> (#[trigger] pins@[j])@ == with_click_through(all[j], on),
            forall|j: int| k <= j < pins@.len() ==> (#[trigger] pins@[j])@ == all[j],
            effect::log(fx@) == effect::log(old(fx)@) + Seq::new(
                k as nat,
                |i: int| EffectView::SetIgnoresMouse(on),
            ),
        decreases pins@.len() - k,
    {
        proof {
            assert(all[k as int].wf());
        }
        pins[k].window.set_click_through(on, fx);
        k = k + 1;
        proof {
            assert(effect::log(fx@) =~= effect::log(old(fx)@) + Seq::new(
                k as nat,
                |i: int| EffectView::SetIgnoresMouse(on),
            ));
        }
    }
    proof {
        assert(states(pins@) =~= all.map_values(|p: PinState| with_click_through(p, on)));
        assert forall|j: int| 0 <= j < states(pins@).len() implies (#[trigger] states(
            pins@,
        )[j]).wf() by {
            assert(all[j].wf());
            assert(states(pins@)[j] == with_click_through(all[j], on));
        }
    }
    on
}

/// Turns annotation mode of the last pin on or off. Returns what it is now, or
/// nothing without pins.
pub fn annotate_last(pins: &mut Vec<Pin>, facts: Option<&FieldFacts>, fx: &mut Vec<Effect>) -> (r:
    Option<bool>)
    requires
        all_wf(states(old(pins)@)),
    ensures
        r is None <==> old(pins)@.len() == 0,
        r is None ==> final(pins)@ == old(pins)@ && effect::log(final(fx)@) == effect::log(
            old(fx)@,
        ),
        r matches Some(on) ==> {
            let last = states(old(pins)@).last();
            let end = pin::run(last, old(fx)@).set_annotation_mode(on, facts);
            &&& on == !last.window.annotating()
            &&& states(final(pins)@) == states(old(pins)@).drop_last().push(end.pin)
            &&& effect::log(final(fx)@) == end.fx
        },
{
    if pins.len() == 0 {
        return None;
    }
    let i: usize = pins.len() - 1;
    proof {
        assert(states(pins@)[i as int].wf());
    }
    let on: bool = !pins[i].window.is_annotation_mode();
    pins[i].set_annotation_mode(on, facts, fx);
    proof {
        assert(states(pins@) =~= states(old(pins)@).drop_last().push(pins@[i as int]@));
    }
    Some(on)
}

/// What has come of a selection so far.
pub enum Selecting {
    /// The user has not finished.
    Waiting,
    Committed(Selection),
    Cancelled,
}

/// A selection under way, or ended.
pub struct SelectionRun {
    pub machine: MachineView,
    pub overlays: Seq<OverlayWindow>,
    pub end: Option<OutcomeView>,
}

/// A pointer event of an overlay, for the selection.
pub open spec fn selection_event(event: PointerEvent) -> Event {
    match event {
        PointerEvent::Down(p) => Event::Down(p),
        PointerEvent::Moved(p) => Event::Move(p),
        PointerEvent::Up(p) => Event::Up(p),
        PointerEvent::Cancel => Event::Cancel,
    }
}

/// The rectangle of the drag that is under way.
pub open spec fn dragged(state: State) -> Option<Rect> {
    match state {
        State::Dragging { anchor, current } => Some(Rect::from_points(anchor, current)),
        _ => None,
    }
}

impl SelectionRun {
    /// An event reaches the selection. Every overlay is told about a change: the
    /// selection may lie on several displays. Once it has ended, nothing happens
    /// any more.
    pub open spec fn pointer(self, event: PointerEvent) -> SelectionRun {
        if self.end is Some {
            self
        } else {
            let (state, outcome) = selection::step(self.machine, selection_event(event));
            let machine = MachineView { state, ..self.machine };
            match outcome {
                OutcomeView::Idle => SelectionRun { machine, ..self },
                OutcomeView::Redraw => SelectionRun {
                    machine,
                    overlays: self.overlays.map_values(
                        |o: OverlayWindow| overlay::with_selection(o, dragged(state)),
                    ),
                    ..self
                },
                _ => SelectionRun { machine, end: Some(outcome), ..self },
            }
        }
    }

    pub open spec fn pointers(self, events: Seq<PointerEvent>) -> SelectionRun
        decreases events.len(),
    {
        if events.len() == 0 {
            self
        } else {
            self.pointers(events.drop_last()).pointer(events.last())
        }
    }
}

/// Once a selection has ended, further events change nothing.
pub proof fn law_an_ended_selection_stays(start: SelectionRun, events: Seq<PointerEvent>, n: int)
    requires
        0 <= n <= events.len(),
        start.pointers(events.take(n)).end is Some,
    ensures
        start.pointers(events) == start.pointers(events.take(n)),
    decreases events.len() - n,
{
    if n == events.len() {
        assert(events.take(n) =~= events);
    } else {
        assert(events.take(n + 1).drop_last() =~= events.take(n));
        law_an_ended_selection_stays(start, events, n + 1);
    }
}

fn to_selection_event(event: PointerEvent) -> (r: Event)
    ensures
        r == selection_event(event),
{
    match event {
        PointerEvent::Down(p) => Event::Down(p),
        PointerEvent::Moved(p) => Event::Move(p),
        PointerEvent::Up(p) => Event::Up(p),
        PointerEvent::Cancel => Event::Cancel,
    }
}

/// Works through pointer events of the overlays until the selection ends.
pub fn pump_selection(
    machine: &mut SelectionMachine,
    overlays: &mut OverlaySet,
    events: &[PointerEvent],
) -> (r: Selecting)
    ensures
        ({
            let end = SelectionRun {
                machine: old(machine)@,
                overlays: old(overlays)@,
                end: None,
            }.pointers(events@);
            &&& final(machine)@ == end.machine
            &&& final(overlays)@ == end.overlays
            &&& end.end == match r {
                Selecting::Waiting => None,
                Selecting::Committed(sel) => Some(OutcomeView::Committed(sel@)),
                Selecting::Cancelled => Some(OutcomeView::Cancelled),
            }
        }),
{
    let ghost start = SelectionRun { machine: machine@, overlays: overlays@, end: None };
    let mut i: usize = 0;
    proof {
        assert(events@.take(0).len() == 0);
    }
    while i < events.len()
        invariant
            i <= events@.len(),
            start == (SelectionRun {
                machine: old(machine)@,
                overlays: old(overlays)@,
                end: None,
            }),
            (SelectionRun { machine: machine@, overlays: overlays@, end: None })
                == start.pointers(events@.take(i as int)),
        decreases events@.len() - i,
    {
        let event: PointerEvent = events[i];
        let ghost before = start.pointers(events@.take(i as int));
        let outcome: Outcome = machine.handle(to_selection_event(event));
        proof {
            assert(events@.take(i + 1).drop_last() =~= events@.take(i as int));
            assert(events@.take(i + 1).last() == event);
        }
        match outcome {
            Outcome::Idle => {},
            Outcome::Redraw => {
                overlays.set_selection(machine.current_rect());
            },
            Outcome::Committed(sel) => {
                proof {
                    law_an_ended_selection_stays(start, events@, i + 1);
                }
                return Selecting::Committed(sel);
            },
            Outcome::Cancelled => {
                proof {
                    law_an_ended_selection_stays(start, events@, i + 1);
                }
                return Selecting::Cancelled;
            },
        }
        i = i + 1;
    }
    proof {
        assert(events@.take(i as int) =~= events@);
    }
    Selecting::Waiting
}

/// Ends a capture that was cancelled: the overlays are hidden and closed. Hiding
/// alone would not do, new ones are made for every capture.
pub fn abandon(overlays: OverlaySet) -> (r: Vec<(ScreenId, OverlayAction)>)
    ensures
        r@ == overlay::to_all(overlays@, OverlayAction::Hide) + overlay::to_all(
            overlays@,
            OverlayAction::Close,
        ),
{
    let mut out: Vec<(ScreenId, OverlayAction)> = overlays.hide_all();
    let mut closing: Vec<(ScreenId, OverlayAction)> = overlays.close();
    out.append(&mut closing);
    out
}

/// When overlays that were hidden at `now` have left the screen, in milliseconds.
pub fn settled_at(now: u64) -> (r: u64)
    ensures
        r == if now + OVERLAY_SETTLE > u64::MAX {
            u64::MAX as int
        } else {
            now + OVERLAY_SETTLE
        },
{
    if now > u64::MAX - OVERLAY_SETTLE {
        u64::MAX
    } else {
        now + OVERLAY_SETTLE
    }
}

/// Whether the overlays may still be on the screen. The screen shows what was
/// asked for with some delay, and a capture would show the overlays.
pub fn is_settling(now: u64, deadline: u64) -> (r: bool)
    ensures
        r == (now < deadline),
{
    now < deadline
}

/// The callbacks of a pin.
#[derive(Debug, Clone, Copy, PartialEq, Eq, Structural)]
pub struct Handlers {
    pub pointer: HandlerId,
    pub keys: HandlerId,
    pub toolbar: HandlerId,
}

/// A window that shows an image and hears of the pointer.
pub open spec fn window_of(image: ImageView, primary_height: i64, handlers: Handlers)
    -> WindowState {
    WindowState {
        view: Some(
            PinViewState {
                handler: Some(handlers.pointer),
                ..PinViewState::fresh(bitmap::logical(image.width, image.height, image.scale))
            },
        ),
        ..WindowState::fresh(primary_height)
    }
}

/// What making a window at `rect` for an image asks for.
pub open spec fn window_effects(rect: Rect, image: ImageView, primary_height: i64) -> Seq<
    EffectView,
> {
    let cocoa = draw::flipped(rect, primary_height);
    seq![
        EffectView::CreateWindow(cocoa),
        EffectView::SetFrame(
            crate::pin_window::resized(
                cocoa,
                bitmap::logical(image.width, image.height, image.scale),
            ),
        ),
    ]
}

/// A new pin with an image.
pub open spec fn new_pin(image: ImageView, primary_height: i64, handlers: Handlers) -> PinState {
    pin::made(
        window_of(image, primary_height, handlers),
        image,
        handlers.keys,
        handlers.toolbar,
    )
}

/// An image that has just been captured, in front of its overlays and ready to be
/// drawn on.
pub open spec fn staged(
    start: Seq<EffectView>,
    rect: Rect,
    image: ImageView,
    overlays: Seq<OverlayWindow>,
    primary_height: i64,
    handlers: Handlers,
    is_key: Option<bool>,
) -> Run {
    let plain = overlays.map_values(|o: OverlayWindow| overlay::with_selection(o, None));
    let fresh = new_pin(image, primary_height, handlers);
    Run {
        pin: PinState { staging: true, overlays: Some(plain), ..fresh },
        fx: (start + window_effects(rect, image, primary_height) + effect::overlay_effects(
            overlay::to_all(plain, OverlayAction::Show),
        )).push(EffectView::OrderFront) + PinViewState::fresh(
            bitmap::logical(image.width, image.height, image.scale),
        ).focusing(is_key),
    }.set_annotation_mode(true, None)
}

/// The bitmap that a window shows for an image.
pub open spec fn shows(b: bitmap::Bitmap, image: ImageView) -> bool {
    &&& b.width == image.width
    &&& b.height == image.height
    &&& b.logical == bitmap::logical(image.width, image.height, image.scale)
    &&& b.rgba@ == crate::encode::swapped(image.bgra)
}

/// What comes of an image without pixels: a window was made at `rect` for it, and
/// nothing else was asked for.
pub open spec fn refused(
    e: Error,
    start: Seq<EffectView>,
    end: Seq<EffectView>,
    rect: Rect,
    primary_height: i64,
) -> bool {
    &&& e.says("图像尺寸为零"@)
    &&& end == start.push(EffectView::CreateWindow(draw::flipped(rect, primary_height)))
}

/// Pins a captured image where it was captured, with the overlays still
/// darkening the rest of the screen.
///
/// The overlays show no hole for the selection any more: the image covers it,
/// and it can be moved away. The image comes to the front after them and gets
/// the keyboard, so that the user can go on without a click.
pub fn stage_image(
    rect: Rect,
    img: CapturedImage,
    overlays: OverlaySet,
    primary_height: i64,
    handlers: Handlers,
    is_key: Option<bool>,
    fx: &mut Vec<Effect>,
) -> (r: Result<(Pin, bitmap::Bitmap), Error>)
    requires
        img@.wf(),
        img.scale != 0,
    ensures
        r is Ok <==> img.width > 0 && img.height > 0,
        r matches Ok((p, b)) ==> p@.wf() && pin::run(p@, final(fx)@) == staged(
            effect::log(old(fx)@),
            rect,
            img@,
            overlays@,
            primary_height,
            handlers,
            is_key,
        ) && shows(b, img@),
        r matches Err(e) ==> refused(
            e,
            effect::log(old(fx)@),
            effect::log(final(fx)@),
            rect,
            primary_height,
        ),
{
    let mut window: PinWindow = PinWindow::new(primary_height);
    let cocoa: Rect = flip(rect, primary_height);
    ask(fx, Effect::CreateWindow(cocoa));
    proof {
        assert(img.bgra.len() == img.bgra@.len());
        assert(img@.bgra.take(image::byte_count(img.width, img.height)) =~= img@.bgra);
    }
    let borrowed: PinImage<'_> = PinImage {
        width: img.width,
        height: img.height,
        scale: img.scale,
        bgra: img.bgra.as_slice(),
    };
    let bitmap: bitmap::Bitmap = match window.set_image(&borrowed, cocoa, fx) {
        Ok(bitmap) => bitmap,
        Err(e) => return Err(e),
    };
    proof {
        assert(effect::log(fx@) =~= effect::log(old(fx)@) + window_effects(
            rect,
            img@,
            primary_height,
        ));
    }
    let mut overlays: OverlaySet = overlays;
    overlays.set_selection(None);
    let showing: Vec<(ScreenId, OverlayAction)> = overlays.show();
    ask_overlays(fx, &showing);
    window.show(fx);
    window.focus(is_key, fx);
    window.set_pointer_handler(handlers.pointer);
    let mut staged: Pin = make_pin(window, img, handlers.keys, handlers.toolbar);
    staged.staging = true;
    staged.overlays = Some(overlays);
    staged.set_annotation_mode(true, None, fx);
    Ok((staged, bitmap))
}

/// Why nothing was pinned.
#[derive(Debug, PartialEq)]
pub enum StageError {
    Capture(capture::Error),
    Window(Error),
}

/// Captures a selection and pins it where it was, as [`stage_image`] does. The
/// overlays have to be off the screen.
pub fn capture_and_stage<C: Capturer>(
    capturer: &C,
    sel: &Selection,
    overlays: OverlaySet,
    primary_height: i64,
    handlers: Handlers,
    is_key: Option<bool>,
    fx: &mut Vec<Effect>,
) -> (r: Result<(Pin, bitmap::Bitmap), StageError>)
    requires
        compose::is_one_part(sel@) || compose::is_empty(sel@) || compose::composable(sel@),
        compose::is_one_part(sel@) ==> sel@.parts[0].scale != 0,
    ensures
        exists|captured: Result<CapturedImage, capture::Error>| #[trigger]
            compose::capture_outcome(capturer, sel@, captured) && match captured {
                Err(e) => r == Err::<(Pin, bitmap::Bitmap), StageError>(StageError::Capture(e))
                    && effect::log(final(fx)@) == effect::log(old(fx)@),
                Ok(img) => if img.width > 0 && img.height > 0 {
                    r matches Ok((p, b)) && p@.wf() && pin::run(p@, final(fx)@) == staged(
                        effect::log(old(fx)@),
                        sel@.rect,
                        img@,
                        overlays@,
                        primary_height,
                        handlers,
                        is_key,
                    ) && shows(b, img@)
                } else {
                    r matches Err(StageError::Window(e)) && refused(
                        e,
                        effect::log(old(fx)@),
                        effect::log(final(fx)@),
                        sel@.rect,
                        primary_height,
                    )
                },
            },
{
    let captured: Result<CapturedImage, capture::Error> = capture_selection(capturer, sel);
    let ghost result = captured;
    assert(compose::capture_outcome(capturer, sel@, result));
    match captured {
        Err(e) => Err(StageError::Capture(e)),
        Ok(img) => {
            proof {
                // An image that was put together has pixels, so its scale factor is
                // not zero.
                let width = sel@.rect.size.width;
                assert(width * 0 == 0) by (nonlinear_arith);
                assert(fixed::pixel_count(width, 0) == 0);
            }
            match stage_image(sel.rect, img, overlays, primary_height, handlers, is_key, fx) {
                Ok(pair) => Ok(pair),
                Err(e) => Err(StageError::Window(e)),
            }
        },
    }
}

impl Pin {
    /// While staging, something happens on an overlay. Any touch brings the
    /// overlay in front of the image, and the right button gives the capture up.
    pub fn touch_overlay(&mut self, event: PointerEvent)
        requires
            old(self)@.wf(),
        ensures
            final(self)@.wf(),
            final(self)@ == (PinState {
                staging_touch: true,
                staging_cancel: old(self)@.staging_cancel || event == PointerEvent::Cancel,
                ..old(self)@
            }),
    {
        self.staging_touch = true;
        if event == PointerEvent::Cancel {
            self.staging_cancel = true;
        }
    }
}

/// Where an image from the clipboard goes: to the mouse, where the user is
/// looking.
pub open spec fn paste_point(cursor: Option<Point>) -> Point {
    match cursor {
        Some(p) => p,
        None => Point { x: DEFAULT_POSITION, y: DEFAULT_POSITION },
    }
}

/// The scale factor of the first display that a point lies on, or of the first
/// display, or one.
pub open spec fn scale_at(screens: Seq<ScreenInfo>, p: Point) -> i64 {
    match screen_at(screens, p) {
        Some(i) => screens[i].scale,
        None => if screens.len() > 0 {
            screens[0].scale
        } else {
            UNIT
        },
    }
}

/// The first display that a point lies on.
pub open spec fn screen_at(screens: Seq<ScreenInfo>, p: Point) -> Option<int>
    decreases screens.len(),
{
    if screens.len() == 0 {
        None
    } else {
        match screen_at(screens.drop_last(), p) {
            Some(i) => Some(i),
            None => if screens.last().frame.contains(p) {
                Some(screens.len() - 1)
            } else {
                None
            },
        }
    }
}

/// The scale factor at which an image from the clipboard is shown. The clipboard
/// does not keep the scale factor of an image, so one that it reports as one is
/// shown pixel by pixel.
pub open spec fn paste_scale(reported: i64, screens: Seq<ScreenInfo>, p: Point) -> i64 {
    if reported > UNIT {
        reported
    } else {
        scale_at(screens, p)
    }
}

/// An image from the clipboard at the scale factor at which it is shown.
pub open spec fn paste_image(image: ImageView, screens: Seq<ScreenInfo>, cursor: Option<Point>)
    -> ImageView {
    ImageView { scale: paste_scale(image.scale, screens, paste_point(cursor)), ..image }
}

/// Where an image goes whose upper left corner is at `at`.
pub open spec fn paste_rect(image: ImageView, at: Point) -> Rect {
    Rect { origin: at, size: bitmap::logical(image.width, image.height, image.scale) }
}

/// An image from the clipboard on the screen.
pub open spec fn pasted(
    start: Seq<EffectView>,
    image: ImageView,
    at: Point,
    primary_height: i64,
    handlers: Handlers,
) -> Run {
    let rect = paste_rect(image, at);
    Run {
        pin: new_pin(image, primary_height, handlers),
        fx: (start + window_effects(rect, image, primary_height)).push(EffectView::OrderFront),
    }
}

proof fn lemma_first_screen(screens: Seq<ScreenInfo>, n: int, p: Point)
    requires
        0 <= n <= screens.len(),
        screen_at(screens.take(n), p) is Some,
    ensures
        screen_at(screens, p) == screen_at(screens.take(n), p),
    decreases screens.len() - n,
{
    if n == screens.len() {
        assert(screens.take(n) =~= screens);
    } else {
        assert(screens.take(n + 1).drop_last() =~= screens.take(n));
        lemma_first_screen(screens, n + 1, p);
    }
}

/// The scale factor of the display that a point lies on.
pub fn screen_scale(screens: &[ScreenInfo], p: Point) -> (r: i64)
    ensures
        r == scale_at(screens@, p),
{
    let mut i: usize = 0;
    proof {
        assert(screens@.take(0).len() == 0);
    }
    while i < screens.len()
        invariant
            i <= screens@.len(),
            screen_at(screens@.take(i as int), p) is None,
        decreases screens@.len() - i,
    {
        proof {
            assert(screens@.take(i + 1).drop_last() =~= screens@.take(i as int));
            assert(screens@.take(i + 1).last() == screens@[i as int]);
        }
        if screens[i].frame.contains(p) {
            proof {
                lemma_first_screen(screens@, i + 1, p);
            }
            return screens[i].scale;
        }
        i = i + 1;
    }
    proof {
        assert(screens@.take(i as int) =~= screens@);
    }
    if screens.len() > 0 {
        screens[0].scale
    } else {
        UNIT
    }
}

/// Pins the image on the clipboard, if there is one.
pub fn pin_from_clipboard(
    clipboard: Option<CapturedImage>,
    cursor: Option<Point>,
    screens: &[ScreenInfo],
    primary_height: i64,
    handlers: Handlers,
    fx: &mut Vec<Effect>,
) -> (r: Result<Option<(Pin, bitmap::Bitmap)>, Error>)
    requires
        clipboard matches Some(img) ==> img@.wf() && paste_scale(
            img.scale,
            screens@,
            paste_point(cursor),
        ) != 0,
    ensures
        clipboard is None ==> (r matches Ok(None)) && effect::log(final(fx)@) == effect::log(
            old(fx)@,
        ),
        clipboard matches Some(img) ==> (r is Ok <==> img.width > 0 && img.height > 0),
        clipboard matches Some(img) ==> (r is Ok ==> (r matches Ok(Some((p, b))) && p@.wf()
            && pin::run(p@, final(fx)@) == pasted(
            effect::log(old(fx)@),
            paste_image(img@, screens@, cursor),
            paste_point(cursor),
            primary_height,
            handlers,
        ) && shows(b, paste_image(img@, screens@, cursor)))),
        clipboard matches Some(img) ==> (r matches Err(e) ==> refused(
            e,
            effect::log(old(fx)@),
            effect::log(final(fx)@),
            paste_rect(paste_image(img@, screens@, cursor), paste_point(cursor)),
            primary_height,
        )),
{
    let img: CapturedImage = match clipboard {
        Some(img) => img,
        None => return Ok(None),
    };
    let at: Point = match cursor {
        Some(p) => p,
        None => Point { x: DEFAULT_POSITION, y: DEFAULT_POSITION },
    };
    let scale: i64 = if img.scale > UNIT {
        img.scale
    } else {
        screen_scale(screens, at)
    };
    let image: CapturedImage = CapturedImage {
        width: img.width,
        height: img.height,
        scale,
        bgra: img.bgra,
    };
    proof {
        assert(image.bgra.len() == image.bgra@.len());
        assert(image@.bgra.take(image::byte_count(image.width, image.height)) =~= image@.bgra);
    }
    let size: Size = Size {
        width: quotient_of(image.width as i64 * UNIT, scale),
        height: quotient_of(image.height as i64 * UNIT, scale),
    };
    let cocoa: Rect = flip(Rect { origin: at, size }, primary_height);
    let mut window: PinWindow = PinWindow::new(primary_height);
    ask(fx, Effect::CreateWindow(cocoa));
    let borrowed: PinImage<'_> = PinImage {
        width: image.width,
        height: image.height,
        scale,
        bgra: image.bgra.as_slice(),
    };
    let bitmap: bitmap::Bitmap = match window.set_image(&borrowed, cocoa, fx) {
        Ok(bitmap) => bitmap,
        Err(e) => return Err(e),
    };
    proof {
        assert(effect::log(fx@) =~= effect::log(old(fx)@) + window_effects(
            Rect { origin: at, size },
            image@,
            primary_height,
        ));
    }
    window.show(fx);
    window.set_pointer_handler(handlers.pointer);
    Ok(Some((make_pin(window, image, handlers.keys, handlers.toolbar), bitmap)))
}

/// After the closed pins are taken out, none is closed, and none that was open is
/// missing.
pub proof fn law_reaping_takes_the_closed_pins(pins: Seq<PinState>)
    ensures
        forall|i: int|
            0 <= i < open_pins(pins).len() ==> !is_closed(#[trigger] open_pins(pins)[i]),
        forall|i: int|
            0 <= i < closed_pins(pins).len() ==> is_closed(#[trigger] closed_pins(pins)[i]),
        open_pins(pins).len() + closed_pins(pins).len() == pins.len(),
    decreases pins.len(),
{
    if pins.len() > 0 {
        law_reaping_takes_the_closed_pins(pins.drop_last());
    }
}

/// A pin that no action closes survives.
pub proof fn law_unclosed_pins_survive(pins: Seq<PinState>, closing: Seq<usize>, i: int)
    requires
        0 <= i < pins.len() <= usize::MAX,
        !closing.contains(i as usize),
    ensures
        survivors(pins, closing).contains(pins[i]),
    decreases pins.len(),
{
    let all = survivors(pins, closing);
    if i == pins.len() - 1 {
        assert(all.last() == pins[i]);
    } else {
        law_unclosed_pins_survive(pins.drop_last(), closing, i);
        let rest = survivors(pins.drop_last(), closing);
        let k = choose|k: int| 0 <= k < rest.len() && rest[k] == pins[i];
        assert(all[k] == pins[i]);
    }
}

/// Where nothing is closed, all pins stay.
pub proof fn law_no_closing_keeps_all(pins: Seq<PinState>)
    ensures
        survivors(pins, Seq::empty()) == pins,
{
    lemma_survivors_of_none(pins);
}

/// Toggling brings all pins into step, and the next toggle does the opposite.
pub proof fn law_toggling_keeps_pins_in_step(pins: Seq<PinState>, i: int)
    requires
        0 <= i < pins.len(),
        forall|k: int| 0 <= k < pins.len() ==> (#[trigger] pins[k]).window.view is Some,
    ensures
        ({
            let on = some_take_clicks(pins);
            let once = pins.map_values(|p: PinState| with_click_through(p, on));
            &&& lets_clicks_through(once[i]) == on
            &&& some_take_clicks(once) == !on
        }),
{
    let on = some_take_clicks(pins);
    let once = pins.map_values(|p: PinState| with_click_through(p, on));
    assert forall|k: int| 0 <= k < once.len() implies lets_clicks_through(#[trigger] once[k])
        == on by {
        assert(pins[k].window.view is Some);
    }
    assert(lets_clicks_through(once[i]) == on);
}

/// A staged image can be drawn on at once, its overlays are all there and show no
/// hole, and it is in front of them: it is brought to the front after they are
/// shown.
pub proof fn law_a_staged_image_is_ready(
    start: Seq<EffectView>,
    rect: Rect,
    image: ImageView,
    overlays: Seq<OverlayWindow>,
    primary_height: i64,
    handlers: Handlers,
    is_key: Option<bool>,
    i: int,
)
    requires
        0 <= i < overlays.len(),
    ensures
        ({
            let end = staged(start, rect, image, overlays, primary_height, handlers, is_key);
            &&& end.pin.staging
            &&& end.pin.window.annotating()
            &&& end.pin.image == image
            &&& end.pin.overlays matches Some(o) && o.len() == overlays.len()
                && o[i].screen_id == overlays[i].screen_id && o[i].view.ivars.selection is None
            &&& end.fx[start.len() + 2 + i] == EffectView::Overlay(
                overlays[i].screen_id,
                OverlayAction::Show,
            )
            &&& end.fx[(start.len() + 2 + overlays.len()) as int] == EffectView::OrderFront
        }),
{
}

/// What was captured on a display and copied is pasted there at its original
/// size, although the clipboard reports no scale factor.
pub proof fn law_a_capture_is_pasted_at_its_size(
    captured: ImageView,
    screens: Seq<ScreenInfo>,
    p: Point,
    i: int,
)
    requires
        screen_at(screens, p) == Some(i),
        captured.scale == screens[i].scale,
    ensures
        bitmap::logical(captured.width, captured.height, paste_scale(UNIT, screens, p))
            == bitmap::logical(captured.width, captured.height, captured.scale),
{
}

/// A pasted image has its upper left corner where it was asked for.
pub proof fn law_a_pasted_image_is_at_its_point(
    start: Seq<EffectView>,
    image: ImageView,
    at: Point,
    primary_height: i64,
    handlers: Handlers,
)
    requires
        paste_rect(image, at).moderate(),
        crate::geom::moderate(primary_height as int),
    ensures
        ({
            let fx = pasted(start, image, at, primary_height, handlers).fx;
            fx[start.len() as int + 1] matches EffectView::SetFrame(frame) && draw::flipped(
                frame,
                primary_height,
            ).origin == at
        }),
{
}

/// The open pins stay in their order: each comes after those that were open before it.
pub proof fn law_open_pins_stay_in_order(pins: Seq<PinState>, i: int)
    requires
        0 <= i < pins.len(),
        !(pins[i].window.view matches Some(v) && v.closed),
    ensures
        ({
            let k = open_pins(pins.take(i)).len() as int;
            &&& k < open_pins(pins).len()
            &&& open_pins(pins)[k] == pins[i]
        }),
    decreases pins.len(),
{
    if i == pins.len() - 1 {
        assert(pins.take(i) =~= pins.drop_last());
    } else {
        law_open_pins_stay_in_order(pins.drop_last(), i);
        assert(pins.drop_last().take(i) =~= pins.take(i));
    }
}

/// Every pin that survives was there before, at a position that was not to be closed,
/// and those that survive stay in their order.
pub proof fn law_survivors_were_not_closed(pins: Seq<PinState>, closing: Seq<usize>, i: int, k: int)
    requires
        0 <= i < pins.len() <= usize::MAX,
        0 <= k < survivors(pins, closing).len(),
    ensures
        exists|j: int|
            0 <= j < pins.len() && !closing.contains(j as usize) && #[trigger] pins[j]
                == survivors(pins, closing)[k],
        !closing.contains(i as usize) ==> ({
            let at = survivors(pins.take(i), closing).len() as int;
            &&& at < survivors(pins, closing).len()
            &&& survivors(pins, closing)[at] == pins[i]
        }),
        closing.contains(i as usize) ==> survivors(pins.take(i + 1), closing).len() == survivors(
            pins.take(i),
            closing,
        ).len(),
    decreases pins.len(),
{
    lemma_survivors_come_from(pins, closing, k);
    if !closing.contains(i as usize) {
        lemma_survivors_in_order(pins, closing, i);
    }
    assert(pins.take(i + 1).drop_last() =~= pins.take(i));
}

proof fn lemma_survivors_come_from(pins: Seq<PinState>, closing: Seq<usize>, k: int)
    requires
        pins.len() <= usize::MAX,
        0 <= k < survivors(pins, closing).len(),
    ensures
        exists|j: int|
            0 <= j < pins.len() && !closing.contains(j as usize) && #[trigger] pins[j]
                == survivors(pins, closing)[k],
    decreases pins.len(),
{
    let init = pins.drop_last();
    if k < survivors(init, closing).len() {
        lemma_survivors_come_from(init, closing, k);
        let j = choose|j: int|
            0 <= j < init.len() && !closing.contains(j as usize) && #[trigger] init[j]
                == survivors(init, closing)[k];
        assert(pins[j] == survivors(pins, closing)[k]);
    } else {
        assert(pins[pins.len() - 1] == survivors(pins, closing)[k]);
    }
}

proof fn lemma_survivors_in_order(pins: Seq<PinState>, closing: Seq<usize>, i: int)
    requires
        0 <= i < pins.len() <= usize::MAX,
        !closing.contains(i as usize),
    ensures
        survivors(pins.take(i), closing).len() < survivors(pins, closing).len(),
        survivors(pins, closing)[survivors(pins.take(i), closing).len() as int] == pins[i],
    decreases pins.len(),
{
    if i == pins.len() - 1 {
        assert(pins.take(i) =~= pins.drop_last());
    } else {
        lemma_survivors_in_order(pins.drop_last(), closing, i);
        assert(pins.drop_last().take(i) =~= pins.take(i));
    }
}

/// Clicks go through all pins after a toggle if and only if some pin took them before,
/// and a pin keeps everything else.
pub proof fn law_a_toggle_changes_only_where_clicks_go(pin: PinState, on: bool)
    ensures
        ({
            let after = with_click_through(pin, on);
            &&& after.image == pin.image
            &&& after.editor == pin.editor
            &&& after.staging == pin.staging
            &&& after.overlays == pin.overlays
            &&& after.editing_text == pin.editing_text
            &&& match (pin.window.view, after.window.view) {
                (Some(v), Some(w)) => {
                    &&& w.click_through == on
                    &&& w.zoom == v.zoom
                    &&& w.opacity == v.opacity
                    &&& w.annotating == v.annotating
                    &&& w.closed == v.closed
                    &&& w.commands == v.commands
                },
                (None, None) => true,
                _ => false,
            }
        }),
{
}

/// A drag over the overlays selects what the pointer went over: it commits if and only
/// if it is four logical points wide and high and meets a display.
pub proof fn law_a_drag_over_the_overlays_selects(
    screens: Seq<ScreenInfo>,
    overlays: Seq<OverlayWindow>,
    a: Point,
    b: Point,
)
    requires
        a.moderate(),
        b.moderate(),
        selection::displays_are_moderate(screens),
    ensures
        ({
            let start = SelectionRun {
                machine: MachineView { state: State::Idle, screens },
                overlays,
                end: None,
            };
            let events = seq![
                PointerEvent::Down(a),
                PointerEvent::Moved(b),
                PointerEvent::Up(b),
            ];
            let wide = a.x - b.x >= 4_000_000 || b.x - a.x >= 4_000_000;
            let high = a.y - b.y >= 4_000_000 || b.y - a.y >= 4_000_000;
            if wide && high && selection::touches_a_display(a, b, screens) {
                start.pointers(events).end matches Some(OutcomeView::Committed(_))
            } else {
                start.pointers(events).end == Some(OutcomeView::Cancelled)
            }
        }),
{
    let start = SelectionRun {
        machine: MachineView { state: State::Idle, screens },
        overlays,
        end: None,
    };
    let one = seq![PointerEvent::Down(a)];
    let two = seq![PointerEvent::Down(a), PointerEvent::Moved(b)];
    let three = seq![PointerEvent::Down(a), PointerEvent::Moved(b), PointerEvent::Up(b)];
    assert(one.drop_last() =~= Seq::empty());
    assert(start.pointers(one.drop_last()) == start);
    assert(two.drop_last() =~= one);
    assert(three.drop_last() =~= two);
    let down = start.pointers(one);
    let moved = start.pointers(two);
    assert(down == start.pointer(PointerEvent::Down(a)));
    assert(moved == down.pointer(PointerEvent::Moved(b)));
    assert(start.pointers(three) == moved.pointer(PointerEvent::Up(b)));
    assert(moved.machine.state == (State::Dragging { anchor: a, current: b }));
    selection::law_a_large_drag_on_a_display_commits(moved.machine, a, b, b);
}

/// During a drag every overlay knows the rectangle between the press and the pointer.
/// The right button ends a selection without one.
pub proof fn law_overlays_know_the_drag(
    r: SelectionRun,
    a: Point,
    current: Point,
    b: Point,
    i: int,
)
    requires
        r.end is None,
        r.machine.state == (State::Dragging { anchor: a, current }),
        b != current,
        a.moderate(),
        b.moderate(),
        0 <= i < r.overlays.len(),
    ensures
        ({
            let after = r.pointer(PointerEvent::Moved(b));
            &&& after.end is None
            &&& after.overlays.len() == r.overlays.len()
            &&& after.overlays[i].screen_id == r.overlays[i].screen_id
            &&& after.overlays[i].view.ivars.needs_display
            &&& after.overlays[i].view.ivars.selection matches Some(rect)
            &&& pin::has_corners(rect, a, b)
        }),
        r.pointer(PointerEvent::Cancel).end == Some(OutcomeView::Cancelled),
{
}

/// A new pin shows its image at its logical size, hears of the pointer, of keys and of
/// its toolbar, and has no annotations. It is neither closed nor staged.
pub proof fn law_a_new_pin_shows_its_image(
    image: ImageView,
    primary_height: i64,
    handlers: Handlers,
)
    ensures
        ({
            let p = new_pin(image, primary_height, handlers);
            &&& p.image == image
            &&& p.editor.doc.objects.len() == 0
            &&& !p.staging
            &&& p.overlays is None
            &&& p.editing_text is None
            &&& p.keys.len() == 0
            &&& p.events.len() == 0
            &&& p.window.toolbar is None
            &&& p.window.toolbar_handler == Some(handlers.toolbar)
            &&& p.window.primary_height == primary_height
            &&& p.window.view matches Some(v)
            &&& v.handler == Some(handlers.pointer)
            &&& v.key_handler == Some(handlers.keys)
            &&& v.base_size == bitmap::logical(image.width, image.height, image.scale)
            &&& v.zoom == 1_000_000
            &&& v.opacity == 1_000_000
            &&& !v.closed
        }),
{
}

/// The window of a pin is made where it was asked for, and then takes the size of the
/// image: its upper left corner stays.
pub proof fn law_a_window_is_made_where_it_was_asked_for(
    rect: Rect,
    image: ImageView,
    primary_height: i64,
)
    requires
        rect.moderate(),
        crate::geom::moderate(primary_height as int),
        crate::geom::moderate(primary_height - rect.origin.y),
        crate::geom::moderate(primary_height - rect.origin.y - rect.size.height),
        image.scale > 0,
        0 <= bitmap::logical(image.width, image.height, image.scale).height
            <= crate::geom::COORDINATE_LIMIT,
    ensures
        ({
            let fx = window_effects(rect, image, primary_height);
            let size = bitmap::logical(image.width, image.height, image.scale);
            &&& fx.len() == 2
            &&& (fx[0] matches EffectView::CreateWindow(made) && made.origin.x == rect.origin.x
                && made.origin.y + made.size.height == primary_height - rect.origin.y && made.size
                == rect.size)
            &&& (fx[1] matches EffectView::SetFrame(frame) && frame.origin.x == rect.origin.x
                && frame.origin.y + frame.size.height == primary_height - rect.origin.y
                && frame.size == size)
        }),
{
}

/// A staged image keeps its place and its pixels, and shows the toolbar with all of its
/// buttons.
pub proof fn law_a_staged_image_shows_its_toolbar(
    start: Seq<EffectView>,
    rect: Rect,
    image: ImageView,
    overlays: Seq<OverlayWindow>,
    primary_height: i64,
    handlers: Handlers,
    is_key: Option<bool>,
)
    ensures
        ({
            let end = staged(start, rect, image, overlays, primary_height, handlers, is_key);
            &&& end.fx.take(start.len() as int) == start
            &&& end.fx[start.len() as int] == window_effects(rect, image, primary_height)[0]
            &&& end.fx[start.len() as int + 1] == window_effects(rect, image, primary_height)[1]
            &&& end.pin.image == image
            &&& end.pin.window.toolbar matches Some((_, bar))
            &&& bar.items.len() == 9
            &&& bar.handler == Some(handlers.toolbar)
            &&& end.fx.last() is PlaceToolbar
        }),
{
    let end = staged(start, rect, image, overlays, primary_height, handlers, is_key);
    assert(end.fx.take(start.len() as int) =~= start);
}

/// The display of a point is the first one that it lies on.
pub proof fn law_the_first_display_is_found(screens: Seq<ScreenInfo>, p: Point, i: int)
    requires
        0 <= i < screens.len(),
        selection::displays_are_moderate(screens),
        selection::lies_on(screens[i], p),
        forall|k: int| 0 <= k < i ==> !selection::lies_on(#[trigger] screens[k], p),
    ensures
        screen_at(screens, p) == Some(i),
        scale_at(screens, p) == screens[i].scale,
    decreases screens.len(),
{
    let init = screens.drop_last();
    if i < screens.len() - 1 {
        assert forall|k: int| 0 <= k < init.len() implies (#[trigger] init[k]).frame.moderate() by {
            assert(init[k] == screens[k]);
        }
        law_the_first_display_is_found(init, p, i);
    } else {
        assert forall|k: int| 0 <= k < init.len() implies !(#[trigger] init[k]).frame.contains(p) by {
            assert(init[k] == screens[k]);
            assert(!selection::lies_on(screens[k], p));
            assert(screens[k].frame.moderate());
        }
        lemma_no_screen(init, p);
        assert(screens[i].frame.moderate());
    }
}

proof fn lemma_no_screen(screens: Seq<ScreenInfo>, p: Point)
    requires
        forall|k: int| 0 <= k < screens.len() ==> !(#[trigger] screens[k]).frame.contains(p),
    ensures
        screen_at(screens, p) is None,
    decreases screens.len(),
{
    if screens.len() > 0 {
        let init = screens.drop_last();
        assert forall|k: int| 0 <= k < init.len() implies !(#[trigger] init[k]).frame.contains(
            p,
        ) by {
            assert(init[k] == screens[k]);
        }
        lemma_no_screen(init, p);
        assert(!screens[screens.len() - 1].frame.contains(p));
    }
}

/// Beside all displays the first display counts, and without displays a scale factor of
/// one.
pub proof fn law_a_point_beside_the_displays(screens: Seq<ScreenInfo>, p: Point)
    requires
        selection::displays_are_moderate(screens),
        forall|k: int| 0 <= k < screens.len() ==> !selection::lies_on(#[trigger] screens[k], p),
    ensures
        screens.len() > 0 ==> scale_at(screens, p) == screens[0].scale,
        screens.len() == 0 ==> scale_at(screens, p) == 1_000_000,
{
    assert forall|k: int| 0 <= k < screens.len() implies !(#[trigger] screens[k]).frame.contains(
        p,
    ) by {
        assert(!selection::lies_on(screens[k], p));
        assert(screens[k].frame.moderate());
    }
    lemma_no_screen(screens, p);
}

/// An image from the clipboard goes to the mouse, or a hundred points into the desktop,
/// with all of its pixels. A scale factor above one is believed, any other is taken from
/// the display there.
pub proof fn law_a_pasted_image_keeps_its_pixels(
    image: ImageView,
    screens: Seq<ScreenInfo>,
    cursor: Option<Point>,
)
    ensures
        ({
            let p = paste_image(image, screens, cursor);
            let at = paste_point(cursor);
            &&& p.width == image.width
            &&& p.height == image.height
            &&& p.bgra == image.bgra
            &&& image.scale > 1_000_000 ==> p.scale == image.scale
            &&& image.scale <= 1_000_000 ==> p.scale == scale_at(screens, at)
            &&& cursor matches Some(c) ==> at == c
            &&& cursor is None ==> at.x == 100_000_000 && at.y == 100_000_000
            &&& paste_rect(p, at).origin == at
            &&& paste_rect(p, at).size == bitmap::logical(p.width, p.height, p.scale)
        }),
{
}

/// A pasted image comes to the front.
pub proof fn law_a_pasted_image_comes_to_the_front(
    start: Seq<EffectView>,
    image: ImageView,
    at: Point,
    primary_height: i64,
    handlers: Handlers,
)
    ensures
        ({
            let end = pasted(start, image, at, primary_height, handlers);
            &&& end.fx.len() == start.len() + 3
            &&& end.fx.take(start.len() as int) == start
            &&& end.fx.last() is OrderFront
            &&& end.pin.image == image
            &&& !end.pin.staging
        }),
{
    let end = pasted(start, image, at, primary_height, handlers);
    assert(end.fx.take(start.len() as int) =~= start);
}

} // verus!

//! The selection of a screen region with the pointer.
//!
//! Every display is covered by an overlay window of its own, so the events of
//! one drag may come from several windows. The machine sees global
//! coordinates only: a drag that crosses displays is like any other.

use vstd::prelude::*;

use crate::fixed;
use crate::fixed::{larger_of, pixels};
use crate::geom::{Point, Rect};
use crate::screen::{ScreenId, ScreenInfo};

verus! {

/// A selection that is smaller than this in either direction is taken for a
/// slip of the hand.
pub const MIN_SELECTION: i64 = 4_000_000;

#[derive(Debug, Clone, Copy, PartialEq, Eq, Structural)]
pub enum State {
    /// Waiting for the button.
    Idle,
    /// The button went down at `anchor`, the pointer is at `current`. Either
    /// may be the upper or the left one.
    Dragging { anchor: Point, current: Point },
    /// A selection was handed out.
    Done,
    Cancelled,
}

#[derive(Debug, Clone, Copy, PartialEq, Eq, Structural)]
pub enum Event {
    Down(Point),
    Move(Point),
    Up(Point),
    /// The escape key or the secondary button.
    Cancel,
}

#[derive(Debug, PartialEq)]
pub enum Outcome {
    /// Nothing changed.
    Idle,
    /// The selection changed. It may lie on several displays, so all overlays
    /// have to be drawn again.
    Redraw,
    Committed(Selection),
    Cancelled,
}

/// What a selection covers of one display.
#[derive(Debug, Clone, Copy, PartialEq, Eq, Structural)]
pub struct SelectionPart {
    pub screen_id: ScreenId,
    /// The part, in global coordinates.
    pub rect: Rect,
    /// The scale factor of the display, at which the part is captured.
    pub scale: i64,
}

impl SelectionPart {
    /// The size of the part in physical pixels.
    pub fn pixel_size(&self) -> (r: (u32, u32))
        ensures
            r.0 == fixed::pixel_count(self.rect.size.width, self.scale),
            r.1 == fixed::pixel_count(self.rect.size.height, self.scale),
    {
        (pixels(self.rect.size.width, self.scale), pixels(self.rect.size.height, self.scale))
    }
}

/// A finished selection.
#[derive(Debug, PartialEq)]
pub struct Selection {
    /// The whole selection, in global coordinates.
    pub rect: Rect,
    /// What it covers of each display. The parts are captured one by one,
    /// because the scale factors of the displays may differ.
    pub parts: Vec<SelectionPart>,
}

/// The contents of a [`Selection`].
pub struct SelectionView {
    pub rect: Rect,
    pub parts: Seq<SelectionPart>,
}

/// The contents of an [`Outcome`].
pub enum OutcomeView {
    Idle,
    Redraw,
    Committed(SelectionView),
    Cancelled,
}

impl View for Selection {
    type V = SelectionView;

    open spec fn view(&self) -> SelectionView {
        SelectionView { rect: self.rect, parts: self.parts@ }
    }
}

impl View for Outcome {
    type V = OutcomeView;

    open spec fn view(&self) -> OutcomeView {
        match *self {
            Outcome::Idle => OutcomeView::Idle,
            Outcome::Redraw => OutcomeView::Redraw,
            Outcome::Committed(sel) => OutcomeView::Committed(sel@),
            Outcome::Cancelled => OutcomeView::Cancelled,
        }
    }
}

/// The largest scale factor among parts, or zero.
pub open spec fn max_scale(parts: Seq<SelectionPart>) -> i64
    decreases parts.len(),
{
    if parts.len() == 0 {
        0
    } else {
        fixed::larger(max_scale(parts.drop_last()) as int, parts.last().scale as int) as i64
    }
}

/// `max_scale` is the least bound that is not negative.
pub proof fn law_max_scale(parts: Seq<SelectionPart>)
    ensures
        max_scale(parts) >= 0,
        forall|i: int| 0 <= i < parts.len() ==> (#[trigger] parts[i]).scale <= max_scale(parts),
        max_scale(parts) == 0 || exists|i: int|
            0 <= i < parts.len() && (#[trigger] parts[i]).scale == max_scale(parts),
    decreases parts.len(),
{
    if parts.len() > 0 {
        let init = parts.drop_last();
        law_max_scale(init);
        assert forall|i: int| 0 <= i < parts.len() implies (#[trigger] parts[i]).scale <= max_scale(
            parts,
        ) by {
            if i < init.len() {
                assert(init[i] == parts[i]);
            }
        }
        if max_scale(parts) != 0 {
            if max_scale(parts) == parts.last().scale {
                assert(parts[parts.len() - 1].scale == max_scale(parts));
            } else {
                let i = choose|i: int|
                    0 <= i < init.len() && (#[trigger] init[i]).scale == max_scale(init);
                assert(parts[i].scale == max_scale(parts));
            }
        }
    }
}

impl Selection {
    /// Whether the selection lies on several displays.
    pub fn is_cross_screen(&self) -> (r: bool)
        ensures
            r == (self.parts@.len() > 1),
    {
        self.parts.len() > 1
    }

    /// The scale factor of the composed image: the largest of the parts, so
    /// that no part loses detail.
    pub fn output_scale(&self) -> (r: i64)
        ensures
            r == max_scale(self.parts@),
    {
        let mut best: i64 = 0;
        let mut i: usize = 0;
        while i < self.parts.len()
            invariant
                i <= self.parts@.len(),
                best == max_scale(self.parts@.take(i as int)),
            decreases self.parts@.len() - i,
        {
            best = larger_of(best, self.parts[i].scale);
            i = i + 1;
            proof {
                assert(self.parts@.take(i as int).drop_last() =~= self.parts@.take(i - 1));
            }
        }
        proof {
            assert(self.parts@.take(i as int) =~= self.parts@);
        }
        best
    }

    /// The size of the composed image in pixels.
    pub fn output_pixel_size(&self) -> (r: (u32, u32))
        ensures
            r.0 == fixed::pixel_count(self.rect.size.width, max_scale(self.parts@)),
            r.1 == fixed::pixel_count(self.rect.size.height, max_scale(self.parts@)),
    {
        let s: i64 = self.output_scale();
        (pixels(self.rect.size.width, s), pixels(self.rect.size.height, s))
    }
}

/// What `rect` covers of a display.
pub open spec fn part_on(rect: Rect, screen: ScreenInfo) -> Option<SelectionPart> {
    match rect.intersection(&screen.frame) {
        Some(r) => Some(SelectionPart { screen_id: screen.id, rect: r, scale: screen.scale }),
        None => None,
    }
}

/// What `rect` covers of each display that it touches, in the order of the
/// displays.
pub open spec fn parts_on(rect: Rect, screens: Seq<ScreenInfo>) -> Seq<SelectionPart>
    decreases screens.len(),
{
    if screens.len() == 0 {
        Seq::empty()
    } else {
        let before = parts_on(rect, screens.drop_last());
        match part_on(rect, screens.last()) {
            Some(part) => before.push(part),
            None => before,
        }
    }
}

/// The contents of a [`SelectionMachine`].
pub struct MachineView {
    pub state: State,
    pub screens: Seq<ScreenInfo>,
}

/// What comes of letting the button go at `end` after pressing it at `start`.
pub open spec fn release(start: Point, end: Point, screens: Seq<ScreenInfo>) -> OutcomeView {
    let rect = Rect::from_points(start, end);
    let parts = parts_on(rect, screens);
    if rect.size.width < MIN_SELECTION || rect.size.height < MIN_SELECTION || parts.len() == 0 {
        OutcomeView::Cancelled
    } else {
        OutcomeView::Committed(SelectionView { rect, parts })
    }
}

/// The state after an event, and what the event brings about. A machine that is
/// done or cancelled stays so.
pub open spec fn step(m: MachineView, event: Event) -> (State, OutcomeView) {
    match (m.state, event) {
        (State::Done, _) => (m.state, OutcomeView::Idle),
        (State::Cancelled, _) => (m.state, OutcomeView::Idle),
        (_, Event::Cancel) => (State::Cancelled, OutcomeView::Cancelled),
        (State::Idle, Event::Down(p)) => (
            State::Dragging { anchor: p, current: p },
            OutcomeView::Redraw,
        ),
        (State::Dragging { anchor, current }, Event::Move(p)) => if p == current {
            (m.state, OutcomeView::Idle)
        } else {
            (State::Dragging { anchor, current: p }, OutcomeView::Redraw)
        },
        (State::Dragging { anchor, .. }, Event::Up(p)) => {
            let out = release(anchor, p, m.screens);
            (
                if out is Committed {
                    State::Done
                } else {
                    State::Cancelled
                },
                out,
            )
        },
        _ => (m.state, OutcomeView::Idle),
    }
}

/// Turns pointer events into a selection.
pub struct SelectionMachine {
    state: State,
    screens: Vec<ScreenInfo>,
}

impl View for SelectionMachine {
    type V = MachineView;

    closed spec fn view(&self) -> MachineView {
        MachineView { state: self.state, screens: self.screens@ }
    }
}

impl SelectionMachine {
    /// A machine for the displays as they are now. When a display comes or
    /// goes, a new machine is made.
    pub fn new(screens: Vec<ScreenInfo>) -> (r: SelectionMachine)
        ensures
            r@.state == State::Idle,
            r@.screens == screens@,
    {
        SelectionMachine { state: State::Idle, screens }
    }

    pub fn state(&self) -> (r: State)
        ensures
            r == self@.state,
    {
        self.state
    }

    /// The rectangle of the drag that is under way.
    pub fn current_rect(&self) -> (r: Option<Rect>)
        ensures
            r == (match self@.state {
                State::Dragging { anchor, current } => Some(Rect::from_points(anchor, current)),
                _ => None,
            }),
    {
        match self.state {
            State::Dragging { anchor, current } => Some(Rect::from_points(anchor, current)),
            _ => None,
        }
    }

    pub fn reset(&mut self)
        ensures
            final(self)@.state == State::Idle,
            final(self)@.screens == old(self)@.screens,
    {
        self.state = State::Idle;
    }

    pub fn handle(&mut self, event: Event) -> (r: Outcome)
        ensures
            final(self)@.state == step(old(self)@, event).0,
            final(self)@.screens == old(self)@.screens,
            r@ == step(old(self)@, event).1,
    {
        match (self.state, event) {
            (State::Done, _) => Outcome::Idle,
            (State::Cancelled, _) => Outcome::Idle,
            (_, Event::Cancel) => {
                self.state = State::Cancelled;
                Outcome::Cancelled
            },
            (State::Idle, Event::Down(p)) => {
                self.state = State::Dragging { anchor: p, current: p };
                Outcome::Redraw
            },
            (State::Dragging { anchor, current }, Event::Move(p)) => {
                if p == current {
                    return Outcome::Idle;
                }
                self.state = State::Dragging { anchor, current: p };
                Outcome::Redraw
            },
            (State::Dragging { anchor, .. }, Event::Up(p)) => {
                let rect: Rect = Rect::from_points(anchor, p);
                if rect.size.width < MIN_SELECTION || rect.size.height < MIN_SELECTION {
                    self.state = State::Cancelled;
                    return Outcome::Cancelled;
                }
                match self.split_by_screen(rect) {
                    Some(sel) => {
                        self.state = State::Done;
                        Outcome::Committed(sel)
                    },
                    None => {
                        self.state = State::Cancelled;
                        Outcome::Cancelled
                    },
                }
            },
            _ => Outcome::Idle,
        }
    }

    /// Splits a selection by display. There is none where it touches no
    /// display.
    fn split_by_screen(&self, rect: Rect) -> (r: Option<Selection>)
        ensures
            match r {
                Some(sel) => sel@.rect == rect && sel@.parts == parts_on(rect, self@.screens)
                    && sel@.parts.len() > 0,
                None => parts_on(rect, self@.screens).len() == 0,
            },
    {
        let mut parts: Vec<SelectionPart> = Vec::new();
        let mut i: usize = 0;
        while i < self.screens.len()
            invariant
                i <= self.screens@.len(),
                parts@ == parts_on(rect, self.screens@.take(i as int)),
            decreases self.screens@.len() - i,
        {
            let s: &ScreenInfo = &self.screens[i];
            if let Some(r) = rect.intersection(&s.frame) {
                parts.push(SelectionPart { screen_id: s.id, rect: r, scale: s.scale });
            }
            i = i + 1;
            proof {
                assert(self.screens@.take(i as int).drop_last() =~= self.screens@.take(i - 1));
            }
        }
        proof {
            assert(self.screens@.take(i as int) =~= self.screens@);
        }
        if parts.len() == 0 {
            None
        } else {
            Some(Selection { rect, parts })
        }
    }
}

/// Every part comes from a display: it lies inside of the selection and of
/// the display, and carries its identifier and scale factor.
pub proof fn law_parts_lie_on_their_displays(
    rect: Rect,
    screens: Seq<ScreenInfo>,
    j: int,
) -> (i: int)
    requires
        0 <= j < parts_on(rect, screens).len(),
    ensures
        0 <= i < screens.len(),
        part_on(rect, screens[i]) == Some(parts_on(rect, screens)[j]),
    decreases screens.len(),
{
    let init = screens.drop_last();
    if j < parts_on(rect, init).len() {
        let i = law_parts_lie_on_their_displays(rect, init, j);
        assert(screens[i] == init[i]);
        i
    } else {
        screens.len() - 1
    }
}

/// Every display that the selection touches contributes a part.
proof fn lemma_touched_display_has_part(rect: Rect, screens: Seq<ScreenInfo>, i: int) -> (j: int)
    requires
        0 <= i < screens.len(),
        part_on(rect, screens[i]) is Some,
    ensures
        0 <= j < parts_on(rect, screens).len(),
        part_on(rect, screens[i]) == Some(parts_on(rect, screens)[j]),
    decreases screens.len(),
{
    let init = screens.drop_last();
    if i < init.len() {
        assert(screens[i] == init[i]);
        lemma_touched_display_has_part(rect, init, i)
    } else {
        parts_on(rect, init).len() as int
    }
}

pub open spec fn on_some_display(screens: Seq<ScreenInfo>, p: Point) -> bool {
    exists|i: int| 0 <= i < screens.len() && (#[trigger] screens[i]).frame.contains(p)
}

pub open spec fn in_some_part(parts: Seq<SelectionPart>, p: Point) -> bool {
    exists|j: int| 0 <= j < parts.len() && (#[trigger] parts[j]).rect.contains(p)
}

/// The parts leave nothing out and add nothing: a point lies in a part if and
/// only if it lies in the selection and on a display.
pub proof fn law_parts_cover_the_selection(rect: Rect, screens: Seq<ScreenInfo>, p: Point)
    requires
        rect.moderate(),
        forall|i: int| 0 <= i < screens.len() ==> (#[trigger] screens[i]).frame.moderate(),
    ensures
        in_some_part(parts_on(rect, screens), p) <==> rect.contains(p) && on_some_display(
            screens,
            p,
        ),
{
    let parts = parts_on(rect, screens);
    if in_some_part(parts, p) {
        let j = choose|j: int| 0 <= j < parts.len() && (#[trigger] parts[j]).rect.contains(p);
        let i = law_parts_lie_on_their_displays(rect, screens, j);
        crate::geom::law_intersection_holds_common_points(rect, screens[i].frame, p);
        assert(screens[i].frame.contains(p));
    }
    if rect.contains(p) && on_some_display(screens, p) {
        let i = choose|i: int| 0 <= i < screens.len() && (#[trigger] screens[i]).frame.contains(p);
        crate::geom::law_intersection_holds_common_points(rect, screens[i].frame, p);
        let j = lemma_touched_display_has_part(rect, screens, i);
        assert(parts[j].rect.contains(p));
    }
}

/// No point lies in both rectangles.
pub open spec fn apart(a: Rect, b: Rect) -> bool {
    forall|p: Point| !(#[trigger] a.contains(p) && b.contains(p))
}

/// No point lies on two displays.
pub open spec fn displays_are_apart(screens: Seq<ScreenInfo>) -> bool {
    forall|i: int, k: int|
        0 <= i < k < screens.len() ==> apart(
            (#[trigger] screens[i]).frame,
            (#[trigger] screens[k]).frame,
        )
}

/// Where displays do not overlap, the parts of a selection do not either.
pub proof fn law_parts_do_not_overlap(
    rect: Rect,
    screens: Seq<ScreenInfo>,
    j: int,
    k: int,
    p: Point,
)
    requires
        rect.moderate(),
        forall|i: int| 0 <= i < screens.len() ==> (#[trigger] screens[i]).frame.moderate(),
        displays_are_apart(screens),
        0 <= j < k < parts_on(rect, screens).len(),
    ensures
        !(parts_on(rect, screens)[j].rect.contains(p) && parts_on(rect, screens)[k].rect.contains(
            p,
        )),
    decreases screens.len(),
{
    let init = screens.drop_last();
    assert forall|i: int| 0 <= i < init.len() implies (#[trigger] init[i]).frame.moderate() by {
        assert(init[i] == screens[i]);
    }
    let parts = parts_on(rect, screens);
    let before = parts_on(rect, init);
    if k < before.len() {
        assert forall|i: int, m: int| 0 <= i < m < init.len() implies apart(
            (#[trigger] init[i]).frame,
            (#[trigger] init[m]).frame,
        ) by {
            assert(init[i] == screens[i] && init[m] == screens[m]);
        }
        law_parts_do_not_overlap(rect, init, j, k, p);
    } else {
        let i = law_parts_lie_on_their_displays(rect, init, j);
        let last = screens.len() - 1;
        assert(init[i] == screens[i]);
        assert(apart(screens[i].frame, screens[last].frame));
        crate::geom::law_intersection_holds_common_points(rect, screens[i].frame, p);
        crate::geom::law_intersection_holds_common_points(rect, screens[last].frame, p);
        assert(screens[i].frame.contains(p) ==> !screens[last].frame.contains(p));
    }
}

/// A machine that is done or cancelled ignores every event.
pub proof fn law_finished_machine_ignores_events(m: MachineView, event: Event)
    requires
        m.state is Done || m.state is Cancelled,
    ensures
        step(m, event) == (m.state, OutcomeView::Idle),
{
}

/// A cancellation ends a selection that has not ended, whether a drag is under way
/// or not.
pub proof fn law_cancel_ends_an_open_selection(m: MachineView)
    requires
        m.state is Idle || m.state is Dragging,
    ensures
        step(m, Event::Cancel) == (State::Cancelled, OutcomeView::Cancelled),
{
}

/// An event that asks for nothing changes nothing, and one that changes the
/// state asks for something.
pub proof fn law_idle_outcome_keeps_the_state(m: MachineView, event: Event)
    ensures
        step(m, event).1 is Idle ==> step(m, event).0 == m.state,
        step(m, event).1 is Redraw ==> step(m, event).0 != m.state && step(m, event).0 is Dragging,
        step(m, event).1 is Committed ==> step(m, event).0 is Done && m.state is Dragging,
{
}

/// It does not matter from which corner a selection is dragged.
pub proof fn law_drag_direction_does_not_matter(a: Point, b: Point, screens: Seq<ScreenInfo>)
    ensures
        release(a, b, screens) == release(b, a, screens),
{
    crate::geom::law_from_points_normalizes(a, b);
}

/// A committed selection is large enough and touches a display.
pub proof fn law_committed_selection_is_large_enough(
    a: Point,
    b: Point,
    screens: Seq<ScreenInfo>,
)
    ensures
        release(a, b, screens) matches OutcomeView::Committed(sel) ==> {
            &&& sel.rect == Rect::from_points(a, b)
            &&& sel.rect.size.width >= MIN_SELECTION
            &&& sel.rect.size.height >= MIN_SELECTION
            &&& sel.parts.len() > 0
        },
{
}

/// `p` lies in the rectangle that has `a` and `b` as opposite corners.
pub open spec fn lies_between(a: Point, b: Point, p: Point) -> bool {
    &&& (a.x <= p.x < b.x || b.x <= p.x < a.x)
    &&& (a.y <= p.y < b.y || b.y <= p.y < a.y)
}

/// `p` lies on the display.
pub open spec fn lies_on(screen: ScreenInfo, p: Point) -> bool {
    &&& screen.frame.origin.x <= p.x < screen.frame.origin.x + screen.frame.size.width
    &&& screen.frame.origin.y <= p.y < screen.frame.origin.y + screen.frame.size.height
}

/// A point between `a` and `b` lies on a display.
pub open spec fn touches_a_display(a: Point, b: Point, screens: Seq<ScreenInfo>) -> bool {
    exists|i: int, p: Point|
        0 <= i < screens.len() && lies_between(a, b, p) && #[trigger] lies_on(screens[i], p)
}

pub open spec fn displays_are_moderate(screens: Seq<ScreenInfo>) -> bool {
    forall|i: int| 0 <= i < screens.len() ==> (#[trigger] screens[i]).frame.moderate()
}

/// Letting the button go at `b` after pressing it at `a` commits a selection if
/// and only if the two points are at least four logical points apart in both
/// directions and a point between them lies on a display. Anything else cancels.
/// It makes no difference how the pointer got from `a` to `b`.
pub proof fn law_a_large_drag_on_a_display_commits(
    m: MachineView,
    a: Point,
    current: Point,
    b: Point,
)
    requires
        m.state == (State::Dragging { anchor: a, current }),
        a.moderate(),
        b.moderate(),
        displays_are_moderate(m.screens),
    ensures
        ({
            let (state, outcome) = step(m, Event::Up(b));
            let wide = a.x - b.x >= 4_000_000 || b.x - a.x >= 4_000_000;
            let high = a.y - b.y >= 4_000_000 || b.y - a.y >= 4_000_000;
            if wide && high && touches_a_display(a, b, m.screens) {
                state is Done && outcome is Committed
            } else {
                state is Cancelled && outcome is Cancelled
            }
        }),
{
    let rect = Rect::from_points(a, b);
    let parts = parts_on(rect, m.screens);
    if touches_a_display(a, b, m.screens) {
        let (i, p) = choose|i: int, p: Point|
            0 <= i < m.screens.len() && lies_between(a, b, p) && #[trigger] lies_on(
                m.screens[i],
                p,
            );
        assert(rect.contains(p));
        assert(m.screens[i].frame.contains(p));
        law_parts_cover_the_selection(rect, m.screens, p);
        assert(on_some_display(m.screens, p));
        let j = choose|j: int| 0 <= j < parts.len() && (#[trigger] parts[j]).rect.contains(p);
        assert(parts.len() > 0);
    }
    if parts.len() > 0 {
        let i = law_parts_lie_on_their_displays(rect, m.screens, 0);
        let p = parts[0].rect.origin;
        assert(lies_between(a, b, p));
        assert(lies_on(m.screens[i], p));
    }
}

/// A committed selection reaches from the leftmost to the rightmost and from the
/// upper to the lower of the two points.
pub proof fn law_a_selection_reaches_from_press_to_release(
    m: MachineView,
    a: Point,
    current: Point,
    b: Point,
    p: Point,
)
    requires
        m.state == (State::Dragging { anchor: a, current }),
        a.moderate(),
        b.moderate(),
    ensures
        step(m, Event::Up(b)).1 matches OutcomeView::Committed(sel) ==> {
            &&& sel.rect.origin.x == a.x || sel.rect.origin.x == b.x
            &&& sel.rect.origin.y == a.y || sel.rect.origin.y == b.y
            &&& sel.rect.size.width == a.x - b.x || sel.rect.size.width == b.x - a.x
            &&& sel.rect.size.height == a.y - b.y || sel.rect.size.height == b.y - a.y
            &&& lies_between(a, b, p) <==> sel.rect.origin.x <= p.x < sel.rect.origin.x
                + sel.rect.size.width && sel.rect.origin.y <= p.y < sel.rect.origin.y
                + sel.rect.size.height
        },
{
}

/// The states that events lead through, one after the other.
pub open spec fn after_events(m: MachineView, events: Seq<Event>) -> MachineView
    decreases events.len(),
{
    if events.len() == 0 {
        m
    } else {
        let before = after_events(m, events.drop_last());
        MachineView { state: step(before, events.last()).0, ..before }
    }
}

/// After a press, moves change where the drag is and never where it started, and
/// a drag is always at the point of the last move.
pub proof fn law_moves_keep_the_anchor(screens: Seq<ScreenInfo>, a: Point, points: Seq<Point>)
    ensures
        ({
            let press = MachineView {
                state: step(MachineView { state: State::Idle, screens }, Event::Down(a)).0,
                screens,
            };
            after_events(press, points.map_values(|p: Point| Event::Move(p))) == (MachineView {
                state: State::Dragging {
                    anchor: a,
                    current: if points.len() == 0 {
                        a
                    } else {
                        points[points.len() - 1]
                    },
                },
                screens,
            })
        }),
    decreases points.len(),
{
    if points.len() > 0 {
        law_moves_keep_the_anchor(screens, a, points.drop_last());
        let events = points.map_values(|p: Point| Event::Move(p));
        assert(events.drop_last() =~= points.drop_last().map_values(|p: Point| Event::Move(p)));
    }
}

/// Releases and moves without a press, and a second press, do nothing.
pub proof fn law_stray_events_do_nothing(m: MachineView, p: Point)
    ensures
        m.state is Idle ==> step(m, Event::Up(p)) == (m.state, OutcomeView::Idle),
        m.state is Idle ==> step(m, Event::Move(p)) == (m.state, OutcomeView::Idle),
        m.state is Dragging ==> step(m, Event::Down(p)) == (m.state, OutcomeView::Idle),
        m.state matches State::Dragging { anchor, current } ==> step(m, Event::Move(current))
            == (m.state, OutcomeView::Idle),
        m.state matches State::Dragging { anchor, current } ==> p != current ==> step(
            m,
            Event::Move(p),
        ).1 is Redraw,
        m.state is Idle ==> step(m, Event::Down(p)).1 is Redraw,
{
}

/// A part has the identifier and the scale factor of its display, and a point
/// lies in it if and only if it lies in the selection and on that display.
pub proof fn law_a_part_is_the_selection_on_its_display(
    rect: Rect,
    screens: Seq<ScreenInfo>,
    j: int,
    p: Point,
) -> (i: int)
    requires
        rect.moderate(),
        displays_are_moderate(screens),
        0 <= j < parts_on(rect, screens).len(),
    ensures
        0 <= i < screens.len(),
        ({
            let part = parts_on(rect, screens)[j];
            &&& part.screen_id == screens[i].id
            &&& part.scale == screens[i].scale
            &&& part.rect.size.width > 0
            &&& part.rect.size.height > 0
            &&& (part.rect.origin.x <= p.x < part.rect.origin.x + part.rect.size.width
                && part.rect.origin.y <= p.y < part.rect.origin.y + part.rect.size.height)
                <==> (rect.origin.x <= p.x < rect.origin.x + rect.size.width && rect.origin.y
                <= p.y < rect.origin.y + rect.size.height && lies_on(screens[i], p))
        }),
{
    law_parts_lie_on_their_displays(rect, screens, j)
}

/// The parts are in the order of their displays, and no display has two.
pub proof fn law_parts_are_in_order(rect: Rect, screens: Seq<ScreenInfo>, j: int, k: int) -> (r: (
    int,
    int,
))
    requires
        0 <= j < k < parts_on(rect, screens).len(),
    ensures
        0 <= r.0 < r.1 < screens.len(),
        parts_on(rect, screens)[j].screen_id == screens[r.0].id,
        parts_on(rect, screens)[k].screen_id == screens[r.1].id,
    decreases screens.len(),
{
    let init = screens.drop_last();
    if k < parts_on(rect, init).len() {
        let r = law_parts_are_in_order(rect, init, j, k);
        assert(screens[r.0] == init[r.0] && screens[r.1] == init[r.1]);
        r
    } else {
        let i = law_parts_lie_on_their_displays(rect, init, j);
        assert(screens[i] == init[i]);
        (i, screens.len() - 1)
    }
}

} // verus!

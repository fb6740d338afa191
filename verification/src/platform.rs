//! Windowing systems: displays, coordinates and what can go wrong.
//!
//! Everywhere else the origin of the desktop is the top left corner of the
//! primary display and y grows downwards. The windowing system of macOS puts
//! the origin at the bottom left corner, with y growing upwards.

use vstd::prelude::*;

use crate::draw;
use crate::draw::flip;
use crate::geom;
use crate::geom::{Point, Rect};
use crate::screen::{ScreenId, ScreenInfo};

verus! {

#[derive(Debug, PartialEq)]
pub enum Error {
    /// Windows can be handled on the main thread only.
    NotMainThread,
    ScreenNotFound(ScreenId),
    WindowCreation(String),
    /// The platform cannot do what is named.
    Unsupported(&'static str),
}

impl Error {
    /// Making a window or a bitmap failed, with this message.
    pub open spec fn says(self, message: Seq<char>) -> bool {
        self matches Error::WindowCreation(s) && s@ == message
    }
}

/// The operating system, as far as it makes a difference.
#[derive(Debug, Clone, Copy, PartialEq, Eq, Structural)]
pub enum Os {
    Mac,
    /// One without windows of its own for overlays and pinned images.
    Other,
}

/// A windowing system that is ready to be used.
#[derive(Debug, Clone, Copy, PartialEq, Eq, Structural)]
pub enum PlatformKind {
    Mac,
    Stub,
}

/// Chooses the windowing system.
pub fn current_platform(os: Os, on_main_thread: bool) -> (r: Result<PlatformKind, Error>)
    ensures
        os == Os::Mac && on_main_thread ==> r == Ok::<PlatformKind, Error>(PlatformKind::Mac),
        os == Os::Mac && !on_main_thread ==> r == Err::<PlatformKind, Error>(Error::NotMainThread),
        os == Os::Other ==> r == Ok::<PlatformKind, Error>(PlatformKind::Stub),
{
    match os {
        Os::Mac => if on_main_thread {
            Ok(PlatformKind::Mac)
        } else {
            Err(Error::NotMainThread)
        },
        Os::Other => Ok(PlatformKind::Stub),
    }
}

/// A display as the windowing system of macOS describes it.
#[derive(Debug, PartialEq)]
pub struct RawScreen {
    pub name: String,
    pub frame: Rect,
    pub scale: i64,
}

/// The height of the primary display, which is the first one.
pub open spec fn height_of_primary(raw: Seq<RawScreen>) -> i64 {
    if raw.len() == 0 {
        0
    } else {
        raw[0].frame.size.height
    }
}

/// The display at position `i` of the list.
pub open spec fn listed(raw: Seq<RawScreen>, i: int) -> ScreenInfo {
    ScreenInfo {
        id: ScreenId(i as u32),
        name: raw[i].name,
        frame: draw::flipped(raw[i].frame, height_of_primary(raw)),
        scale: raw[i].scale,
        is_primary: i == 0,
    }
}

/// The height of the primary display, or zero without displays.
pub fn primary_height(raw: &[RawScreen]) -> (r: i64)
    ensures
        r == height_of_primary(raw@),
{
    if raw.len() == 0 {
        0
    } else {
        raw[0].frame.size.height
    }
}

/// A rectangle in the coordinates of the windowing system.
pub fn to_cocoa(r: Rect, primary_height: i64) -> (q: Rect)
    ensures
        q == draw::flipped(r, primary_height),
{
    flip(r, primary_height)
}

/// A rectangle from the coordinates of the windowing system.
pub fn from_cocoa(r: Rect, primary_height: i64) -> (q: Rect)
    ensures
        q == draw::flipped(r, primary_height),
{
    flip(r, primary_height)
}

/// Lists the displays. The first one is the primary display.
pub fn screens(raw: &[RawScreen]) -> (r: Vec<ScreenInfo>)
    requires
        raw@.len() <= u32::MAX,
    ensures
        r@ == Seq::new(raw@.len(), |i: int| listed(raw@, i)),
{
    let h: i64 = primary_height(raw);
    let mut out: Vec<ScreenInfo> = Vec::new();
    let mut i: usize = 0;
    while i < raw.len()
        invariant
            i <= raw@.len() <= u32::MAX,
            h == height_of_primary(raw@),
            out@ == Seq::new(i as nat, |k: int| listed(raw@, k)),
        decreases raw@.len() - i,
    {
        out.push(
            ScreenInfo {
                id: ScreenId(i as u32),
                name: raw[i].name.clone(),
                frame: from_cocoa(raw[i].frame, h),
                scale: raw[i].scale,
                is_primary: i == 0,
            },
        );
        i = i + 1;
        proof {
            assert(out@ =~= Seq::new(i as nat, |k: int| listed(raw@, k)));
        }
    }
    out
}

/// The position of the first display with the given frame.
pub open spec fn position(frames: Seq<Rect>, frame: Rect) -> Option<int> {
    if exists|i: int| 0 <= i < frames.len() && frames[i] == frame {
        Some(
            choose|i: int|
                0 <= i < frames.len() && frames[i] == frame && forall|j: int|
                    0 <= j < i ==> frames[j] != frame,
        )
    } else {
        None
    }
}

/// The display that a window is on. `on` is the frame of the display as its
/// window reports it, `frames` are those of all displays.
pub fn current_screen(on: Option<Rect>, frames: &[Rect]) -> (r: Option<ScreenId>)
    requires
        frames@.len() <= u32::MAX,
    ensures
        on is None ==> r is None,
        on matches Some(frame) ==> r == match position(frames@, frame) {
            Some(i) => Some(ScreenId(i as u32)),
            None => None,
        },
{
    let frame: Rect = match on {
        Some(frame) => frame,
        None => return None,
    };
    let mut i: usize = 0;
    while i < frames.len()
        invariant
            i <= frames@.len() <= u32::MAX,
            on == Some(frame),
            forall|j: int| 0 <= j < i ==> frames@[j] != frame,
        decreases frames@.len() - i,
    {
        if frames[i] == frame {
            proof {
                assert(frames@[i as int] == frame);
                let p = position(frames@, frame)->0;
                assert(0 <= p < frames@.len() && frames@[p] == frame && forall|j: int|
                    0 <= j < p ==> frames@[j] != frame);
                assert(p == i);
            }
            return Some(ScreenId(i as u32));
        }
        i = i + 1;
    }
    None
}

/// A platform that can do nothing yet.
pub struct StubPlatform;

impl StubPlatform {
    pub fn screens(&self) -> (r: Result<Vec<ScreenInfo>, Error>)
        ensures
            r is Err,
            r matches Err(e) ==> (e matches Error::Unsupported(what) && what@ == "screens"@),
    {
        Err(Error::Unsupported("screens"))
    }

    pub fn create_pin(&self, _frame: Rect) -> (r: Result<(), Error>)
        ensures
            r is Err,
            r matches Err(e) ==> (e matches Error::Unsupported(what) && what@ == "create_pin"@),
    {
        Err(Error::Unsupported("create_pin"))
    }

    pub fn create_overlay(&self, _screen: &ScreenInfo) -> (r: Result<(), Error>)
        ensures
            r is Err,
            r matches Err(e) ==> (e matches Error::Unsupported(what) && what@
                == "create_overlay"@),
    {
        Err(Error::Unsupported("create_overlay"))
    }
}

/// Converting a rectangle to the coordinates of the windowing system and back
/// gives the rectangle.
pub proof fn law_coordinates_round_trip(r: Rect, primary_height: i64)
    requires
        r.moderate(),
        geom::moderate(primary_height as int),
    ensures
        draw::flipped(draw::flipped(r, primary_height), primary_height) == r,
{
    draw::law_flipping_twice(r, primary_height);
}

/// The primary display has its top left corner at the origin, if the windowing
/// system puts its bottom left corner there.
pub proof fn law_the_primary_display_is_at_the_origin(raw: Seq<RawScreen>)
    requires
        raw.len() > 0,
        raw[0].frame.origin == (Point { x: 0, y: 0 }),
        raw[0].frame.moderate(),
    ensures
        listed(raw, 0).frame.origin == (Point { x: 0, y: 0 }),
        listed(raw, 0).frame.size == raw[0].frame.size,
        listed(raw, 0).is_primary,
{
}

/// A display keeps its name, its scale factor and its size, and lies as far below the
/// top of the primary display as its upper edge is from there.
pub proof fn law_a_display_is_listed_as_it_is(raw: Seq<RawScreen>, i: int)
    requires
        0 <= i < raw.len() <= u32::MAX,
        raw[i].frame.moderate(),
        raw[0].frame.moderate(),
        geom::moderate(raw[0].frame.size.height as int),
    ensures
        ({
            let d = listed(raw, i);
            let top = raw[i].frame.origin.y + raw[i].frame.size.height;
            &&& d.id.0 == i
            &&& d.name == raw[i].name
            &&& d.scale == raw[i].scale
            &&& d.is_primary <==> i == 0
            &&& d.frame.size == raw[i].frame.size
            &&& d.frame.origin.x == raw[i].frame.origin.x
            &&& d.frame.origin.y == raw[0].frame.size.height - top
        }),
{
}

/// The display of a window is the first one with its frame.
pub proof fn law_the_first_display_with_the_frame_is_found(frames: Seq<Rect>, frame: Rect, i: int)
    requires
        0 <= i < frames.len(),
        frames[i] == frame,
        forall|j: int| 0 <= j < i ==> frames[j] != frame,
    ensures
        position(frames, frame) == Some(i),
{
    let p = position(frames, frame)->0;
    assert(0 <= p < frames.len() && frames[p] == frame && forall|j: int|
        0 <= j < p ==> frames[j] != frame);
}

/// No display is found for a frame that none has.
pub proof fn law_no_display_without_the_frame(frames: Seq<Rect>, frame: Rect)
    requires
        forall|j: int| 0 <= j < frames.len() ==> frames[j] != frame,
    ensures
        position(frames, frame) is None,
{
}

} // verus!

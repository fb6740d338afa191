//! Displays.

use vstd::prelude::*;

use crate::fixed;
use crate::fixed::pixels;
use crate::geom::Rect;

verus! {

/// Identifies a display. Displays come and go, so an identifier is good until
/// they are listed the next time.
#[derive(Debug, Clone, Copy, PartialEq, Eq, Structural, Hash)]
pub struct ScreenId(pub u32);

#[derive(Debug)]
pub struct ScreenInfo {
    pub id: ScreenId,
    pub name: String,
    /// Where the display lies. The origin of a secondary display may be
    /// negative.
    pub frame: Rect,
    /// Physical pixels per logical point. It may differ from display to
    /// display.
    pub scale: i64,
    pub is_primary: bool,
}

impl Clone for ScreenInfo {
    fn clone(&self) -> (r: ScreenInfo)
        ensures
            r == *self,
    {
        ScreenInfo {
            id: self.id,
            name: self.name.clone(),
            frame: self.frame,
            scale: self.scale,
            is_primary: self.is_primary,
        }
    }
}

impl ScreenInfo {
    /// The size of the display in physical pixels.
    pub fn pixel_size(&self) -> (r: (u32, u32))
        ensures
            r.0 == fixed::pixel_count(self.frame.size.width, self.scale),
            r.1 == fixed::pixel_count(self.frame.size.height, self.scale),
    {
        (pixels(self.frame.size.width, self.scale), pixels(self.frame.size.height, self.scale))
    }
}

} // verus!

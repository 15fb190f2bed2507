//! Finding the on-screen window that a capture is for.
use vstd::prelude::*;

use crate::chars::contains;
use crate::chars::contains_text;

verus! {

/// How far apart, in pixels, two coordinates or lengths may be and still
/// count as the same.
pub const PIXEL_TOLERANCE: i64 = 20;

/// A window's place and size on screen, in physical pixels.
#[derive(Clone, Copy, Debug, PartialEq, Eq, Structural)]
pub struct Rect {
    pub x: i32,
    pub y: i32,
    pub width: u32,
    pub height: u32,
}

/// Whether two values lie within the tolerance of each other.
pub open spec fn near(a: int, b: int) -> bool {
    -PIXEL_TOLERANCE < a - b < PIXEL_TOLERANCE
}

/// Whether a candidate window has about the place and size of the target.
pub open spec fn same_geometry(candidate: Rect, target: Rect) -> bool {
    &&& near(candidate.x as int, target.x as int)
    &&& near(candidate.y as int, target.y as int)
    &&& near(candidate.width as int, target.width as int)
    &&& near(candidate.height as int, target.height as int)
}

fn near_exec(a: i64, b: i64) -> (r: bool)
    requires
        -0x1_0000_0000 <= a <= 0x1_0000_0000,
        -0x1_0000_0000 <= b <= 0x1_0000_0000,
    ensures
        r == near(a as int, b as int),
{
    -PIXEL_TOLERANCE < a - b && a - b < PIXEL_TOLERANCE
}

/// Whether a candidate window has about the place and size of the target.
pub fn window_matches_geometry(candidate: Rect, target: Rect) -> (r: bool)
    ensures
        r == same_geometry(candidate, target),
{
    near_exec(candidate.x as i64, target.x as i64) && near_exec(candidate.y as i64, target.y as i64)
        && near_exec(candidate.width as i64, target.width as i64) && near_exec(
        candidate.height as i64,
        target.height as i64,
    )
}

/// Whether a window title names the window sought, by its title or by its
/// label.
pub fn title_matches(title: &str, window_title: &str, label: &str) -> (r: bool)
    ensures
        r == (contains_text(title@, window_title@) || contains_text(title@, label@)),
{
    contains(title, window_title) || contains(title, label)
}

} // verus!

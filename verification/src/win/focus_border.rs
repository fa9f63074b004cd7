//! Where the focus ring around the focused window goes.
use vstd::prelude::*;

use super::monitor::ScreenRect;

verus! {

/// The ring's window: its outer rectangle in screen coordinates
/// (`x`, `y`, `w`, `h`), and the hole cut out of it, in the ring
/// window's own coordinates.
#[derive(Clone, Copy, Debug, PartialEq, Eq, Structural)]
pub struct RingGeometry {
    pub x: i32,
    pub y: i32,
    pub w: i32,
    pub h: i32,
    pub hole: ScreenRect,
}

/// The ring is at least one pixel thick.
pub open spec fn ring_thickness(thickness: i32) -> int {
    if thickness >= 1 {
        thickness as int
    } else {
        1
    }
}

/// Do the ring's coordinates for the rectangle (`x`, `y`, `w`, `h`) and
/// this thickness fit in 32 bits?
pub open spec fn ring_fits(x: i32, y: i32, w: i32, h: i32, thickness: i32) -> bool {
    let t = ring_thickness(thickness);
    &&& 2 * t <= i32::MAX
    &&& i32::MIN <= x - t
    &&& i32::MIN <= y - t
    &&& i32::MIN <= w + 2 * t <= i32::MAX
    &&& i32::MIN <= h + 2 * t <= i32::MAX
    &&& i32::MIN <= t + w <= i32::MAX
    &&& i32::MIN <= t + h <= i32::MAX
}

/// The ring of `thickness` pixels (at least one) drawn just outside the
/// rectangle (`x`, `y`, `w`, `h`): the ring window covers the rectangle
/// grown by the thickness on every side, and the rectangle itself is the
/// hole.
pub fn ring_geometry(x: i32, y: i32, w: i32, h: i32, thickness: i32) -> (r: RingGeometry)
    requires
        ring_fits(x, y, w, h, thickness),
    ensures
        ({
            let t = ring_thickness(thickness);
            &&& r.x == x - t
            &&& r.y == y - t
            &&& r.w == w + 2 * t
            &&& r.h == h + 2 * t
            &&& r.hole == ScreenRect { left: t as i32, top: t as i32, right: (t + w) as i32, bottom: (t + h) as i32 }
        }),
{
    let t: i32 = if thickness >= 1 {
        thickness
    } else {
        1
    };
    RingGeometry {
        x: x - t,
        y: y - t,
        w: w + 2 * t,
        h: h + 2 * t,
        hole: ScreenRect { left: t, top: t, right: t + w, bottom: t + h },
    }
}

} // verus!

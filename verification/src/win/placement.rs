//! The window-style arithmetic of the borderless windowed-fullscreen look.
use vstd::prelude::*;

use super::window::WS_CAPTION;

verus! {

/// `WS_THICKFRAME`: a sizing border.
pub const WS_THICKFRAME: u32 = 0x0004_0000;

/// `WS_SYSMENU`: a window menu on the title bar.
pub const WS_SYSMENU: u32 = 0x0008_0000;

/// `WS_MINIMIZEBOX`: a minimize button.
pub const WS_MINIMIZEBOX: u32 = 0x0002_0000;

/// `WS_MAXIMIZEBOX`: a maximize button.
pub const WS_MAXIMIZEBOX: u32 = 0x0001_0000;

/// The decorations stripped for the borderless windowed-fullscreen look.
pub const FULLSCREEN_STRIP: u32 = WS_CAPTION | WS_THICKFRAME | WS_SYSMENU | WS_MINIMIZEBOX
    | WS_MAXIMIZEBOX;

/// The style a window gets when its decorations are stripped (`on`) or
/// put back (`!on`): every other style bit is left as it was.
pub open spec fn borderless(style: u32, on: bool) -> u32 {
    if on {
        style & !FULLSCREEN_STRIP
    } else {
        style | FULLSCREEN_STRIP
    }
}

/// The new style for stripping (`on`) or restoring (`!on`) a window's
/// decorations; `None` where the style already is that way, so nothing
/// needs to change.
pub fn borderless_style(style: u32, on: bool) -> (r: Option<u32>)
    ensures
        r == (if borderless(style, on) == style {
            None
        } else {
            Some(borderless(style, on))
        }),
{
    let new_style = if on {
        style & !FULLSCREEN_STRIP
    } else {
        style | FULLSCREEN_STRIP
    };
    if new_style == style {
        None
    } else {
        Some(new_style)
    }
}

/// The decoration bits taken together.
proof fn lemma_strip_value()
    ensures
        FULLSCREEN_STRIP == 0x00CF_0000u32,
{
    assert(0x00C0_0000u32 | 0x0004_0000u32 | 0x0008_0000u32 | 0x0002_0000u32 | 0x0001_0000u32
        == 0x00CF_0000u32) by (bit_vector);
}

/// Stripping leaves none of the decorations, restoring leaves all of
/// them, and either way the window's other style bits are kept.
pub proof fn law_borderless_touches_only_decorations(style: u32, on: bool)
    ensures
        on ==> borderless(style, on) & FULLSCREEN_STRIP == 0,
        !on ==> borderless(style, on) & FULLSCREEN_STRIP == FULLSCREEN_STRIP,
        borderless(style, on) & !FULLSCREEN_STRIP == style & !FULLSCREEN_STRIP,
{
    lemma_strip_value();
    let s = style;
    assert((s & !0x00CF_0000u32) & 0x00CF_0000u32 == 0) by (bit_vector);
    assert((s | 0x00CF_0000u32) & 0x00CF_0000u32 == 0x00CF_0000u32) by (bit_vector);
    assert((s & !0x00CF_0000u32) & !0x00CF_0000u32 == s & !0x00CF_0000u32) by (bit_vector);
    assert((s | 0x00CF_0000u32) & !0x00CF_0000u32 == s & !0x00CF_0000u32) by (bit_vector);
}

/// Restoring a window that was stripped gives back its style, for a
/// window that had all the decorations to begin with.
pub proof fn law_borderless_round_trip(style: u32)
    requires
        style & FULLSCREEN_STRIP == FULLSCREEN_STRIP,
    ensures
        borderless(borderless(style, true), false) == style,
{
    lemma_strip_value();
    let s = style;
    assert(s & 0x00CF_0000u32 == 0x00CF_0000u32 ==> (s & !0x00CF_0000u32) | 0x00CF_0000u32 == s)
        by (bit_vector);
}

} // verus!

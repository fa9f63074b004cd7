//! The workspace indicator: its text and where it goes on a monitor.
use vstd::prelude::*;

use super::monitor::ScreenRect;
use crate::layout::div_trunc;
use crate::text::{decimal, push_char, push_decimal};

pub use super::msg_window::wide;

verus! {

/// Width of the indicator.
pub const LABEL_WIDTH: i32 = 280;

/// Height of the indicator.
pub const LABEL_HEIGHT: i32 = 64;

/// Distance from the top of the working area to the indicator.
pub const LABEL_TOP_MARGIN: i32 = 24;

/// The indicator's text for workspace `n` (counted from one).
pub open spec fn workspace_label_text(n: nat) -> Seq<char> {
    "Workspace "@ + decimal(n)
}

/// "Workspace N" for workspace `index_1based`.
pub fn workspace_label(index_1based: usize) -> (r: String)
    ensures
        r@ == workspace_label_text(index_1based as nat),
{
    let mut s = String::new();
    proof {
        reveal_strlit("Workspace ");
    }
    push_char(&mut s, 'W');
    push_char(&mut s, 'o');
    push_char(&mut s, 'r');
    push_char(&mut s, 'k');
    push_char(&mut s, 's');
    push_char(&mut s, 'p');
    push_char(&mut s, 'a');
    push_char(&mut s, 'c');
    push_char(&mut s, 'e');
    push_char(&mut s, ' ');
    assert(s@ =~= "Workspace "@);
    push_decimal(&mut s, index_1based);
    s
}

/// Does the indicator's position on the working area `work` fit in 32
/// bits?
pub open spec fn label_fits(work: ScreenRect) -> bool {
    &&& i32::MIN <= work.left + work.right <= i32::MAX
    &&& i32::MIN <= div_trunc(work.left + work.right, 2) - LABEL_WIDTH / 2
    &&& work.top + LABEL_TOP_MARGIN <= i32::MAX
}

/// The top-left corner of the indicator: centered horizontally on the
/// working area (halves rounded toward zero), a margin below its top.
pub fn label_origin(work: ScreenRect) -> (r: (i32, i32))
    requires
        label_fits(work),
    ensures
        r.0 == div_trunc(work.left + work.right, 2) - LABEL_WIDTH / 2,
        r.1 == work.top + LABEL_TOP_MARGIN,
{
    let sum = work.left + work.right;
    let cx = sum / 2;
    assert(cx == div_trunc(sum as int, 2));
    (cx - LABEL_WIDTH / 2, work.top + LABEL_TOP_MARGIN)
}

} // verus!

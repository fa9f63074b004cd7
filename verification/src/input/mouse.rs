//! Mouse input: wheel events act as niri-style `WheelScroll*` pseudo-keys,
//! and mouse events are packed into window messages.
use vstd::prelude::*;

use super::{
    bound_combo, matches_a_bind, ComboKeys, VK_WHEEL_DOWN, VK_WHEEL_LEFT, VK_WHEEL_RIGHT, VK_WHEEL_UP,
};
use crate::layout::div_trunc;

verus! {

/// What the event is.
#[derive(Clone, Copy, Debug, PartialEq, Eq, Structural)]
pub enum MouseKind {
    Move,
    /// Vertical wheel (up/down).
    WheelV,
    /// Horizontal wheel (left/right).
    WheelH,
}

/// A mouse event forwarded from the mouse hook.
#[derive(Clone, Copy, Debug, PartialEq, Eq, Structural)]
pub struct MouseEvent {
    pub kind: MouseKind,
    /// Screen coordinates.
    pub x: i32,
    pub y: i32,
    /// Wheel delta in notch units, 0 for moves.
    pub notches: i32,
    pub shift: bool,
    pub ctrl: bool,
    pub mod_held: bool,
}

/// The pseudo key a wheel event acts as: vertical down/up by the sign of
/// the notches, horizontal right/left likewise; none for moves or zero
/// notches.
pub open spec fn wheel_vk_spec(ev: MouseEvent) -> Option<u32> {
    match ev.kind {
        MouseKind::WheelV => if ev.notches < 0 {
            Some(VK_WHEEL_DOWN)
        } else if ev.notches > 0 {
            Some(VK_WHEEL_UP)
        } else {
            None
        },
        MouseKind::WheelH => if ev.notches > 0 {
            Some(VK_WHEEL_RIGHT)
        } else if ev.notches < 0 {
            Some(VK_WHEEL_LEFT)
        } else {
            None
        },
        MouseKind::Move => None,
    }
}

impl MouseEvent {
    /// The niri-style pseudo key this event acts as (wheel only).
    pub fn wheel_vk(&self) -> (r: Option<u32>)
        ensures
            r == wheel_vk_spec(*self),
    {
        match self.kind {
            MouseKind::WheelV => if self.notches < 0 {
                Some(VK_WHEEL_DOWN)
            } else if self.notches > 0 {
                Some(VK_WHEEL_UP)
            } else {
                None
            },
            MouseKind::WheelH => if self.notches > 0 {
                Some(VK_WHEEL_RIGHT)
            } else if self.notches < 0 {
                Some(VK_WHEEL_LEFT)
            } else {
                None
            },
            MouseKind::Move => None,
        }
    }
}

/// A wheel event carrying the modifier state (position unset).
pub fn wheel_event(kind: MouseKind, notches: i32, shift: bool, ctrl: bool, mod_held: bool) -> (r:
    MouseEvent)
    ensures
        r == (MouseEvent { kind, x: 0, y: 0, notches, shift, ctrl, mod_held }),
{
    MouseEvent { kind, x: 0, y: 0, notches, shift, ctrl, mod_held }
}

pub open spec fn kind_bits(k: MouseKind) -> usize {
    match k {
        MouseKind::Move => 0,
        MouseKind::WheelV => 1,
        MouseKind::WheelH => 2,
    }
}

pub open spec fn flag(b: bool) -> usize {
    if b {
        1
    } else {
        0
    }
}

/// The mouse message wparam: kind in bits 0-1, shift/ctrl/mod in bits
/// 2-4, the notches as a signed byte in bits 16-23.
pub open spec fn encode_wparam_spec(ev: MouseEvent) -> usize {
    kind_bits(ev.kind) | (flag(ev.shift) << 2usize) | (flag(ev.ctrl) << 3usize) | (flag(ev.mod_held)
        << 4usize) | ((((ev.notches as i8) as u8) as usize) << 16usize)
}

/// Pack a mouse event's kind, modifiers and notches into a wparam.
pub fn encode_wparam(ev: &MouseEvent) -> (r: usize)
    ensures
        r == encode_wparam_spec(*ev),
{
    let kind_bits: usize = match ev.kind {
        MouseKind::Move => 0,
        MouseKind::WheelV => 1,
        MouseKind::WheelH => 2,
    };
    let s: usize = if ev.shift {
        1
    } else {
        0
    };
    let c: usize = if ev.ctrl {
        1
    } else {
        0
    };
    let m: usize = if ev.mod_held {
        1
    } else {
        0
    };
    kind_bits | (s << 2usize) | (c << 3usize) | (m << 4usize) | ((((ev.notches as i8) as u8) as usize)
        << 16usize)
}

/// The mouse message lparam: x in the high 32 bits, y in the low 32 bits.
pub open spec fn encode_lparam_spec(x: i32, y: i32) -> isize {
    ((((x as u32) as u64) << 32u64) | ((y as u32) as u64)) as isize
}

/// Pack a screen position into a mouse message lparam.
pub fn encode_lparam(x: i32, y: i32) -> (r: isize)
    ensures
        r == encode_lparam_spec(x, y),
{
    ((((x as u32) as u64) << 32u64) | ((y as u32) as u64)) as isize
}

/// The mouse event packed in a mouse message.
pub open spec fn decode_mouse_spec(wparam: usize, lparam: isize) -> MouseEvent {
    let packed = lparam as u64;
    MouseEvent {
        kind: if wparam & 3 == 0 {
            MouseKind::Move
        } else if wparam & 3 == 1 {
            MouseKind::WheelV
        } else {
            MouseKind::WheelH
        },
        x: ((packed >> 32u64) as u32) as i32,
        y: (packed as u32) as i32,
        notches: (((wparam >> 16usize) as u8) as i8) as i32,
        shift: wparam & 4 != 0,
        ctrl: wparam & 8 != 0,
        mod_held: wparam & 16 != 0,
    }
}

/// A screen position packed into one `i64`: x in the high 32 bits, y (as
/// its unsigned bits) in the low 32 bits.
pub open spec fn packed_position(x: i32, y: i32) -> i64 {
    ((x as i64) << 32i64) | (((y as u32) as u64) as i64)
}

/// Pack a screen position (see [`packed_position`]).
pub fn pack_position(x: i32, y: i32) -> (r: i64)
    ensures
        r == packed_position(x, y),
{
    ((x as i64) << 32i64) | (((y as u32) as u64) as i64)
}

pub open spec fn abs_diff_le2(a: int, b: int) -> bool {
    -2 <= a - b <= 2
}

/// Is a mouse move to (x, y) within 2 px of the last forwarded position
/// `last` (packed; `i64::MIN` when none was forwarded yet)?  Such moves
/// are not forwarded.  x compares as signed, y as its unsigned bits.
pub open spec fn move_is_near(last: i64, x: i32, y: i32) -> bool {
    &&& last != i64::MIN
    &&& abs_diff_le2(x as int, (last >> 32i64) as int)
    &&& abs_diff_le2((y as u32) as int, (last & 0xFFFF_FFFFi64) as int)
}

/// Should a mouse move to (x, y) be dropped (see [`move_is_near`])?
pub fn move_is_throttled(last: i64, x: i32, y: i32) -> (r: bool)
    ensures
        r == move_is_near(last, x, y),
{
    let packed = pack_position(x, y);
    let px = packed >> 32i64;
    let py = packed & 0xFFFF_FFFFi64;
    assert(px == x as i64 && py == ((y as u32) as i64)) by (bit_vector)
        requires
            packed == ((x as i64) << 32i64) | (((y as u32) as u64) as i64),
            px == packed >> 32i64,
            py == packed & 0xFFFF_FFFFi64,
    ;
    let lx = last >> 32i64;
    let ly = last & 0xFFFF_FFFFi64;
    assert(-0x8000_0000 <= lx <= 0x7FFF_FFFF && 0 <= ly <= 0xFFFF_FFFF) by (bit_vector)
        requires
            lx == last >> 32i64,
            ly == last & 0xFFFF_FFFFi64,
    ;
    let dx = px - lx;
    let dy = py - ly;
    last != i64::MIN && -2 <= dx && dx <= 2 && -2 <= dy && dy <= 2
}

/// `WM_MOUSEMOVE`: the cursor moved.
pub const WM_MOUSEMOVE: usize = 0x0200;

/// `WM_MOUSEWHEEL`: the vertical wheel turned.
pub const WM_MOUSEWHEEL: usize = 0x020A;

/// `WM_MOUSEHWHEEL`: the horizontal wheel turned.
pub const WM_MOUSEHWHEEL: usize = 0x020E;

/// One wheel notch, in wheel-delta units.
pub const WHEEL_DELTA: i32 = 120;

/// The wheel delta of a low-level mouse message: the high word of its
/// `mouseData`, read as a signed 16-bit number.
pub open spec fn wheel_delta(mouse_data: u32) -> int {
    let hi = mouse_data as int / 0x10000;
    if hi >= 0x8000 {
        hi - 0x10000
    } else {
        hi
    }
}

/// What a low-level mouse message is: a move, or a turn of the vertical
/// or horizontal wheel by whole notches (rounded toward zero); `None`
/// for any other message.
pub open spec fn mouse_input_spec(msg: usize, mouse_data: u32) -> Option<(MouseKind, i32)> {
    let notches = div_trunc(wheel_delta(mouse_data), WHEEL_DELTA as int) as i32;
    if msg == WM_MOUSEMOVE {
        Some((MouseKind::Move, 0i32))
    } else if msg == WM_MOUSEWHEEL {
        Some((MouseKind::WheelV, notches))
    } else if msg == WM_MOUSEHWHEEL {
        Some((MouseKind::WheelH, notches))
    } else {
        None
    }
}

/// Classify a low-level mouse message (see [`mouse_input_spec`]).
pub fn mouse_input(msg: usize, mouse_data: u32) -> (r: Option<(MouseKind, i32)>)
    ensures
        r == mouse_input_spec(msg, mouse_data),
{
    let hi: u32 = mouse_data >> 16u32;
    assert(hi == mouse_data / 0x10000) by (bit_vector)
        requires
            hi == mouse_data >> 16u32,
    ;
    let delta: i32 = if hi >= 0x8000 {
        hi as i32 - 0x10000
    } else {
        hi as i32
    };
    let notches: i32 = if delta >= 0 {
        delta / WHEEL_DELTA
    } else {
        -((-delta) / WHEEL_DELTA)
    };
    if msg == WM_MOUSEMOVE {
        Some((MouseKind::Move, 0))
    } else if msg == WM_MOUSEWHEEL {
        Some((MouseKind::WheelV, notches))
    } else if msg == WM_MOUSEHWHEEL {
        Some((MouseKind::WheelH, notches))
    } else {
        None
    }
}

/// Is a wheel event swallowed system-wide: it acts as a pseudo key that
/// matches a bind?
pub fn swallows_wheel(combos: &[ComboKeys], ev: &MouseEvent) -> (r: bool)
    ensures
        r == match wheel_vk_spec(*ev) {
            Some(vk) => bound_combo(combos@, vk, ev.shift, ev.ctrl, ev.mod_held),
            None => false,
        },
{
    match ev.wheel_vk() {
        Some(vk) => matches_a_bind(combos, vk, ev.shift, ev.ctrl, ev.mod_held),
        None => false,
    }
}

} // verus!

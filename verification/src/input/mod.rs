//! Keyboard input: key names, key combos, bind matching and the packing of
//! key events into window messages.
//!
//! Combo syntax matches niri: `Mod+Shift+H`, `Mod+Left`, `Mod+Q`. Key
//! names are XKB-ish (`H`, `Left`, `Page_Up`, `Return`, `space`), plus the
//! mouse-scroll pseudo-keys (`WheelScrollDown`, ...).
pub mod laws;
pub mod mouse;

pub use mouse::{MouseEvent, MouseKind};

use vstd::prelude::*;

use crate::config::{Action, Bind, ModKey};
use crate::text::{
    ascii_lower, ascii_lower_char, chars_eq_str, chars_of, decimal, lowercase, push_char,
    push_decimal, string_of, to_lowercase,
};

verus! {

/// Pseudo virtual-key codes for mouse-wheel scroll directions (bindable
/// like any key).
pub const VK_WHEEL_DOWN: u32 = 0xE1;

pub const VK_WHEEL_UP: u32 = 0xE2;

pub const VK_WHEEL_LEFT: u32 = 0xE3;

pub const VK_WHEEL_RIGHT: u32 = 0xE4;

/// A key event forwarded from the keyboard hook.
#[derive(Clone, Copy, Debug, PartialEq, Eq, Structural)]
pub struct KeyEvent {
    /// Virtual-key code.
    pub vk: u32,
    /// True on press, false on release.
    pub pressed: bool,
    /// Shift held.
    pub shift: bool,
    /// Ctrl held.
    pub ctrl: bool,
    /// Mod key (per config) held.
    pub mod_held: bool,
}

/// Uppercase hexadecimal digit of `d < 16`.
pub open spec fn hex_digit(d: nat) -> char {
    if d < 10 {
        ('0' as u32 + d) as char
    } else {
        ('A' as u32 + d - 10) as char
    }
}

/// Uppercase hexadecimal digits of `n` (no leading zeros).
pub open spec fn hex(n: nat) -> Seq<char>
    decreases n,
{
    if n < 16 {
        seq![hex_digit(n)]
    } else {
        hex(n / 16).push(hex_digit(n % 16))
    }
}

/// `{:02X}`: uppercase hexadecimal, zero-padded to two digits.
pub open spec fn hex2(n: nat) -> Seq<char> {
    if n < 16 {
        seq!['0'].push(hex_digit(n))
    } else {
        hex(n)
    }
}

/// The niri-style name of a virtual-key code.
pub open spec fn key_name_spec(vk: u32) -> Seq<char> {
    if vk == 0x08 {
        "Backspace"@
    } else if vk == 0x09 {
        "Tab"@
    } else if vk == 0x0D {
        "Return"@
    } else if vk == 0x13 {
        "Pause"@
    } else if vk == 0x14 {
        "Caps_Lock"@
    } else if vk == 0x1B {
        "Escape"@
    } else if vk == 0x20 {
        "space"@
    } else if vk == 0x21 {
        "Page_Up"@
    } else if vk == 0x22 {
        "Page_Down"@
    } else if vk == 0x23 {
        "End"@
    } else if vk == 0x24 {
        "Home"@
    } else if vk == 0x25 {
        "Left"@
    } else if vk == 0x26 {
        "Up"@
    } else if vk == 0x27 {
        "Right"@
    } else if vk == 0x28 {
        "Down"@
    } else if vk == 0x2C {
        "Print"@
    } else if vk == 0x2D {
        "Insert"@
    } else if vk == 0x2E {
        "Delete"@
    } else if vk == 0x5B {
        "Super_L"@
    } else if vk == 0x5C {
        "Super_R"@
    } else if 0x60 <= vk <= 0x69 {
        "KP_"@ + decimal((vk - 0x60) as nat)
    } else if vk == 0x6A {
        "KP_Multiply"@
    } else if vk == 0x6B {
        "KP_Add"@
    } else if vk == 0x6D {
        "KP_Subtract"@
    } else if vk == 0x6E {
        "KP_Decimal"@
    } else if vk == 0x6F {
        "KP_Divide"@
    } else if 0x70 <= vk <= 0x87 {
        "F"@ + decimal((vk - 0x6F) as nat)
    } else if vk == 0xA0 {
        "Shift_L"@
    } else if vk == 0xA1 {
        "Shift_R"@
    } else if vk == 0xA2 {
        "Control_L"@
    } else if vk == 0xA3 {
        "Control_R"@
    } else if vk == 0xA4 {
        "Alt_L"@
    } else if vk == 0xA5 {
        "Alt_R"@
    } else if vk == 0xBF {
        "Slash"@
    } else if vk == VK_WHEEL_DOWN {
        "WheelScrollDown"@
    } else if vk == VK_WHEEL_UP {
        "WheelScrollUp"@
    } else if vk == VK_WHEEL_LEFT {
        "WheelScrollLeft"@
    } else if vk == VK_WHEEL_RIGHT {
        "WheelScrollRight"@
    } else {
        let c = vk % 256;
        if (0x41 <= c <= 0x5A) || (0x30 <= c <= 0x39) {
            seq![c as char]
        } else {
            "VK_"@ + hex2(vk as nat)
        }
    }
}

fn hex_digit_exec(d: u32) -> (c: char)
    requires
        d < 16,
    ensures
        c == hex_digit(d as nat),
{
    if d < 10 {
        (d as u8 + 48u8) as char
    } else {
        (d as u8 - 10 + 65u8) as char
    }
}

/// Append the uppercase hexadecimal digits of `n` to `s`.
fn push_hex(s: &mut String, n: u32)
    ensures
        final(s)@ == old(s)@ + hex(n as nat),
    decreases n,
{
    if n >= 16 {
        push_hex(s, n / 16);
    }
    push_char(s, hex_digit_exec(n % 16));
    assert(final(s)@ =~= old(s)@ + hex(n as nat)) by {
        if n < 16 {
            assert(hex(n as nat) =~= seq![hex_digit(n as nat)]);
        } else {
            assert(hex(n as nat) == hex((n / 16) as nat).push(hex_digit((n % 16) as nat)));
        }
    }
}

impl KeyEvent {
    /// Niri-style key name for a virtual-key code.
    pub fn key_name(vk: u32) -> (r: String)
        ensures
            r@ == key_name_spec(vk),
    {
        let lit = if vk == 0x08 {
            "Backspace"
        } else if vk == 0x09 {
            "Tab"
        } else if vk == 0x0D {
            "Return"
        } else if vk == 0x13 {
            "Pause"
        } else if vk == 0x14 {
            "Caps_Lock"
        } else if vk == 0x1B {
            "Escape"
        } else if vk == 0x20 {
            "space"
        } else if vk == 0x21 {
            "Page_Up"
        } else if vk == 0x22 {
            "Page_Down"
        } else if vk == 0x23 {
            "End"
        } else if vk == 0x24 {
            "Home"
        } else if vk == 0x25 {
            "Left"
        } else if vk == 0x26 {
            "Up"
        } else if vk == 0x27 {
            "Right"
        } else if vk == 0x28 {
            "Down"
        } else if vk == 0x2C {
            "Print"
        } else if vk == 0x2D {
            "Insert"
        } else if vk == 0x2E {
            "Delete"
        } else if vk == 0x5B {
            "Super_L"
        } else if vk == 0x5C {
            "Super_R"
        } else if 0x60 <= vk && vk <= 0x69 {
            let mut s = String::from_str("KP_");
            push_decimal(&mut s, (vk - 0x60) as usize);
            return s;
        } else if vk == 0x6A {
            "KP_Multiply"
        } else if vk == 0x6B {
            "KP_Add"
        } else if vk == 0x6D {
            "KP_Subtract"
        } else if vk == 0x6E {
            "KP_Decimal"
        } else if vk == 0x6F {
            "KP_Divide"
        } else if 0x70 <= vk && vk <= 0x87 {
            let mut s = String::from_str("F");
            push_decimal(&mut s, (vk - 0x6F) as usize);
            return s;
        } else if vk == 0xA0 {
            "Shift_L"
        } else if vk == 0xA1 {
            "Shift_R"
        } else if vk == 0xA2 {
            "Control_L"
        } else if vk == 0xA3 {
            "Control_R"
        } else if vk == 0xA4 {
            "Alt_L"
        } else if vk == 0xA5 {
            "Alt_R"
        } else if vk == 0xBF {
            "Slash"
        } else if vk == VK_WHEEL_DOWN {
            "WheelScrollDown"
        } else if vk == VK_WHEEL_UP {
            "WheelScrollUp"
        } else if vk == VK_WHEEL_LEFT {
            "WheelScrollLeft"
        } else if vk == VK_WHEEL_RIGHT {
            "WheelScrollRight"
        } else {
            // Letters and digits: their ASCII name.
            let c = vk % 256;
            if (0x41 <= c && c <= 0x5A) || (0x30 <= c && c <= 0x39) {
                let mut s = String::new();
                push_char(&mut s, (c as u8) as char);
                assert(s@ =~= seq![c as char]);
                return s;
            }
            let mut s = String::from_str("VK_");
            if vk < 16 {
                push_char(&mut s, '0');
            }
            push_hex(&mut s, vk);
            assert(s@ =~= "VK_"@ + hex2(vk as nat));
            return s;
        };
        String::from_str(lit)
    }
}

/// The lowercase combo string of a key event, e.g. "mod+shift+h":
/// modifiers in the order mod, ctrl, shift, then the key name.
pub open spec fn combo_spec(ev: KeyEvent) -> Seq<char> {
    (if ev.mod_held {
        "mod+"@
    } else {
        Seq::empty()
    }) + (if ev.ctrl {
        "ctrl+"@
    } else {
        Seq::empty()
    }) + (if ev.shift {
        "shift+"@
    } else {
        Seq::empty()
    }) + key_name_spec(ev.vk).map_values(|c: char| ascii_lower(c))
}

/// Build the combo string for a key event, e.g. "mod+shift+h".
pub fn combo_of(ev: &KeyEvent) -> (r: String)
    ensures
        r@ == combo_spec(*ev),
{
    let mut out = String::new();
    if ev.mod_held {
        out.append("mod+");
    }
    if ev.ctrl {
        out.append("ctrl+");
    }
    if ev.shift {
        out.append("shift+");
    }
    let ghost prefix = out@;
    let name = KeyEvent::key_name(ev.vk);
    let cs = chars_of(name.as_str());
    let mut i: usize = 0;
    while i < cs.len()
        invariant
            0 <= i <= cs.len(),
            cs@ == key_name_spec(ev.vk),
            out@ =~= prefix + cs@.take(i as int).map_values(|c: char| ascii_lower(c)),
        decreases cs.len() - i,
    {
        push_char(&mut out, ascii_lower_char(cs[i]));
        i += 1;
        assert(out@ =~= prefix + cs@.take(i as int).map_values(|c: char| ascii_lower(c)));
    }
    assert(cs@.take(cs@.len() as int) =~= cs@);
    assert(out@ =~= combo_spec(*ev));
    out
}

/// The action bound to `combo`: the first bind whose lowercased combo
/// equals it, unless that bind's action is unknown.
pub open spec fn bound_action(binds: Seq<Bind>, combo: Seq<char>) -> Option<Action> {
    if exists|i: int| 0 <= i < binds.len() && lowercase(#[trigger] binds[i].combo@) == combo {
        let i = choose|i: int|
            0 <= i < binds.len() && lowercase(#[trigger] binds[i].combo@) == combo && forall|j: int|
                0 <= j < i ==> lowercase(#[trigger] binds[j].combo@) != combo;
        if binds[i].action is Unknown {
            None
        } else {
            Some(binds[i].action)
        }
    } else {
        None
    }
}

/// Look up the first action bound to a key event's combo.
pub fn action_for(binds: &[Bind], ev: &KeyEvent) -> (r: Option<Action>)
    ensures
        r == bound_action(binds@, combo_spec(*ev)),
{
    let combo = combo_of(ev);
    let mut i: usize = 0;
    while i < binds.len()
        invariant
            0 <= i <= binds.len(),
            combo@ == combo_spec(*ev),
            forall|j: int| 0 <= j < i ==> lowercase(#[trigger] binds@[j].combo@) != combo@,
        decreases binds.len() - i,
    {
        let lower = to_lowercase(binds[i].combo.as_str());
        if lower == combo {
            proof {
                let q = choose|q: int|
                    0 <= q < binds@.len() && lowercase(#[trigger] binds@[q].combo@) == combo@
                        && forall|j: int| 0 <= j < q ==> lowercase(#[trigger] binds@[j].combo@) != combo@;
                assert(lowercase(binds@[i as int].combo@) == combo@);
                if q < i {
                    assert(lowercase(binds@[q].combo@) != combo@);
                } else if i < q {
                    assert(lowercase(binds@[i as int].combo@) != combo@);
                }
            }
            if let Action::Unknown(_) = binds[i].action {
                return None;
            }
            return Some(binds[i].action.duplicate());
        }
        i += 1;
    }
    None
}

/// The actions bound to `combo`, in bind order: those of every bind whose
/// lowercased combo equals it, leaving out unknown actions.
pub open spec fn bound_actions(binds: Seq<Bind>, combo: Seq<char>) -> Seq<Action>
    decreases binds.len(),
{
    if binds.len() == 0 {
        Seq::empty()
    } else {
        let rest = bound_actions(binds.drop_last(), combo);
        let b = binds.last();
        if lowercase(b.combo@) == combo && !(b.action is Unknown) {
            rest.push(b.action)
        } else {
            rest
        }
    }
}

/// All the actions bound to a key event's combo, to run in order.
pub fn actions_for(binds: &[Bind], ev: &KeyEvent) -> (r: Vec<Action>)
    ensures
        r@ == bound_actions(binds@, combo_spec(*ev)),
{
    let combo = combo_of(ev);
    let mut out: Vec<Action> = Vec::new();
    let mut i: usize = 0;
    assert(binds@.take(0) =~= Seq::<Bind>::empty());
    while i < binds.len()
        invariant
            0 <= i <= binds.len(),
            combo@ == combo_spec(*ev),
            out@ == bound_actions(binds@.take(i as int), combo@),
        decreases binds.len() - i,
    {
        assert(binds@.take(i + 1).drop_last() =~= binds@.take(i as int));
        let lower = to_lowercase(binds[i].combo.as_str());
        if lower == combo {
            match binds[i].action {
                Action::Unknown(_) => {},
                _ => {
                    out.push(binds[i].action.duplicate());
                },
            }
        }
        i += 1;
    }
    assert(binds@.take(binds@.len() as int) =~= binds@);
    out
}

/// The key event packed in a key message (`wparam` = pressed,
/// `lparam` = `vk | shift << 32 | ctrl << 33 | mod << 34`).
pub open spec fn decode_message_spec(wparam: usize, lparam: isize) -> KeyEvent {
    let packed = lparam as u64;
    KeyEvent {
        vk: (packed & 0xFFFF_FFFF) as u32,
        pressed: wparam == 1,
        shift: (packed >> 32u64) & 1 == 1,
        ctrl: (packed >> 33u64) & 1 == 1,
        mod_held: (packed >> 34u64) & 1 == 1,
    }
}

/// Decode a key message's wparam/lparam pair back into a KeyEvent.
pub fn decode_message(wparam: usize, lparam: isize) -> (r: KeyEvent)
    ensures
        r == decode_message_spec(wparam, lparam),
{
    let packed = lparam as u64;
    KeyEvent {
        vk: (packed & 0xFFFF_FFFF) as u32,
        pressed: wparam == 1,
        shift: (packed >> 32u64) & 1 == 1,
        ctrl: (packed >> 33u64) & 1 == 1,
        mod_held: (packed >> 34u64) & 1 == 1,
    }
}

/// The bits packed into a key message's lparam.
pub open spec fn key_bits(ev: KeyEvent) -> u64 {
    (ev.vk as u64) | ((if ev.shift { 1u64 } else { 0u64 }) << 32u64) | ((if ev.ctrl {
        1u64
    } else {
        0u64
    }) << 33u64) | ((if ev.mod_held { 1u64 } else { 0u64 }) << 34u64)
}

/// Pack a key event into a key message's (wparam, lparam) pair.
pub fn encode_message(ev: &KeyEvent) -> (r: (usize, isize))
    ensures
        r.0 == (if ev.pressed { 1usize } else { 0usize }),
        r.1 == key_bits(*ev) as isize,
{
    let s: u64 = if ev.shift {
        1
    } else {
        0
    };
    let c: u64 = if ev.ctrl {
        1
    } else {
        0
    };
    let m: u64 = if ev.mod_held {
        1
    } else {
        0
    };
    let packed = (ev.vk as u64) | (s << 32u64) | (c << 33u64) | (m << 34u64);
    (if ev.pressed {
        1
    } else {
        0
    }, packed as isize)
}

/// The virtual-key code of the configured Mod key.
pub open spec fn mod_vk_spec(m: ModKey) -> u32 {
    match m {
        ModKey::Super => 0x5B,
        ModKey::Ctrl => 0x11,
        ModKey::Alt => 0x12,
    }
}

pub fn mod_vk(m: ModKey) -> (r: u32)
    ensures
        r == mod_vk_spec(m),
{
    match m {
        ModKey::Super => 0x5B,
        ModKey::Ctrl => 0x11,
        ModKey::Alt => 0x12,
    }
}

/// Modifier state (shift, ctrl, mod) as of a key event: the hook sees an
/// event before the system's key state changes, so a modifier key's own
/// press or release is folded in.
pub open spec fn modifiers_after_spec(
    vk: u32,
    pressed: bool,
    shift: bool,
    ctrl: bool,
    mod_held: bool,
    mod_key_vk: u32,
) -> (bool, bool, bool) {
    if vk == 0x10 || vk == 0xA0 || vk == 0xA1 {
        (pressed, ctrl, mod_held)
    } else if vk == 0x11 || vk == 0xA2 || vk == 0xA3 {
        (shift, pressed, mod_held)
    } else if vk == 0x12 || vk == 0xA4 || vk == 0xA5 || vk == 0x5B || vk == 0x5C {
        if mod_key_vk == vk {
            (shift, ctrl, pressed)
        } else {
            (shift, ctrl, mod_held)
        }
    } else {
        (shift, ctrl, mod_held)
    }
}

pub fn modifiers_after(
    vk: u32,
    pressed: bool,
    shift: bool,
    ctrl: bool,
    mod_held: bool,
    mod_key_vk: u32,
) -> (r: (bool, bool, bool))
    ensures
        r == modifiers_after_spec(vk, pressed, shift, ctrl, mod_held, mod_key_vk),
{
    if vk == 0x10 || vk == 0xA0 || vk == 0xA1 {
        (pressed, ctrl, mod_held)
    } else if vk == 0x11 || vk == 0xA2 || vk == 0xA3 {
        (shift, pressed, mod_held)
    } else if vk == 0x12 || vk == 0xA4 || vk == 0xA5 || vk == 0x5B || vk == 0x5C {
        if mod_key_vk == vk {
            (shift, ctrl, pressed)
        } else {
            (shift, ctrl, mod_held)
        }
    } else {
        (shift, ctrl, mod_held)
    }
}

/// Decode a mouse message's wparam/lparam pair back into a MouseEvent.
pub fn decode_mouse_message(wparam: usize, lparam: isize) -> (r: MouseEvent)
    ensures
        r == mouse::decode_mouse_spec(wparam, lparam),
{
    let w = wparam;
    let kind = if w & 3 == 0 {
        MouseKind::Move
    } else if w & 3 == 1 {
        MouseKind::WheelV
    } else {
        MouseKind::WheelH
    };
    let packed = lparam as u64;
    MouseEvent {
        kind,
        x: ((packed >> 32u64) as u32) as i32,
        y: (packed as u32) as i32,
        notches: (((w >> 16usize) as u8) as i8) as i32,
        shift: w & 4 != 0,
        ctrl: w & 8 != 0,
        mod_held: w & 16 != 0,
    }
}

/// A bind's combo compiled for matching raw key state.
#[derive(Clone, Debug)]
pub struct ComboKeys {
    pub key: String,
    pub shift: bool,
    pub ctrl: bool,
    pub uses_mod: bool,
}

/// The parts of `s` separated by `+` (`str::split('+')`).
pub open spec fn split_plus(s: Seq<char>) -> Seq<Seq<char>>
    decreases s.len(),
{
    if s.len() == 0 {
        seq![Seq::empty()]
    } else {
        let p = split_plus(s.drop_last());
        if s.last() == '+' {
            p.push(Seq::empty())
        } else {
            p.update(p.len() - 1, p.last().push(s.last()))
        }
    }
}

proof fn lemma_split_nonempty(s: Seq<char>)
    ensures
        split_plus(s).len() >= 1,
    decreases s.len(),
{
    if s.len() > 0 {
        lemma_split_nonempty(s.drop_last());
    }
}

/// Fields (key, shift, ctrl, uses_mod) read from combo parts, left to
/// right: "Mod", "Shift", "Ctrl"/"Control" set flags; any other part
/// becomes the key.
pub open spec fn combo_fields(parts: Seq<Seq<char>>) -> (Seq<char>, bool, bool, bool)
    decreases parts.len(),
{
    if parts.len() == 0 {
        (Seq::empty(), false, false, false)
    } else {
        let (k, s, c, m) = combo_fields(parts.drop_last());
        let p = parts.last();
        if p == "Mod"@ {
            (k, s, c, true)
        } else if p == "Shift"@ {
            (k, true, c, m)
        } else if p == "Ctrl"@ || p == "Control"@ {
            (k, s, true, m)
        } else {
            (p, s, c, m)
        }
    }
}

/// The compiled form of one combo, if it names a key.
pub open spec fn compile_combo(combo: Seq<char>) -> Option<(Seq<char>, bool, bool, bool)> {
    let f = combo_fields(split_plus(combo));
    if f.0.len() == 0 {
        None
    } else {
        Some(f)
    }
}

/// The compiled combos of `binds` (those naming a key), in order.
pub open spec fn compile_binds(binds: Seq<Bind>) -> Seq<(Seq<char>, bool, bool, bool)>
    decreases binds.len(),
{
    if binds.len() == 0 {
        Seq::empty()
    } else {
        let rest = compile_binds(binds.drop_last());
        match compile_combo(binds.last().combo@) {
            Some(f) => rest.push(f),
            None => rest,
        }
    }
}

pub open spec fn combo_model(c: ComboKeys) -> (Seq<char>, bool, bool, bool) {
    (c.key@, c.shift, c.ctrl, c.uses_mod)
}

/// Apply one combo part to the fields read so far.
fn apply_part(
    part: &Vec<char>,
    key: &mut Vec<char>,
    shift: &mut bool,
    ctrl: &mut bool,
    uses_mod: &mut bool,
)
    ensures
        ({
            let (k, s, c, m) = (old(key)@, *old(shift), *old(ctrl), *old(uses_mod));
            (final(key)@, *final(shift), *final(ctrl), *final(uses_mod)) == (if part@ == "Mod"@ {
                (k, s, c, true)
            } else if part@ == "Shift"@ {
                (k, true, c, m)
            } else if part@ == "Ctrl"@ || part@ == "Control"@ {
                (k, s, true, m)
            } else {
                (part@, s, c, m)
            })
        }),
{
    if chars_eq_str(part.as_slice(), "Mod") {
        *uses_mod = true;
    } else if chars_eq_str(part.as_slice(), "Shift") {
        *shift = true;
    } else if chars_eq_str(part.as_slice(), "Ctrl") || chars_eq_str(part.as_slice(), "Control") {
        *ctrl = true;
    } else {
        *key = part.clone();
    }
}

/// Compile one combo ("Mod+Shift+H") into its key and modifier flags.
fn compile_one(combo: &str) -> (r: Option<ComboKeys>)
    ensures
        (match r {
            Some(c) => Some(combo_model(c)),
            None => None,
        }) == compile_combo(combo@),
{
    let cs = chars_of(combo);
    let mut key: Vec<char> = Vec::new();
    let mut shift = false;
    let mut ctrl = false;
    let mut uses_mod = false;
    let mut part: Vec<char> = Vec::new();
    let mut i: usize = 0;
    while i < cs.len()
        invariant
            0 <= i <= cs.len(),
            cs@ == combo@,
            split_plus(cs@.take(i as int)).len() >= 1,
            part@ == split_plus(cs@.take(i as int)).last(),
            (key@, shift, ctrl, uses_mod) == combo_fields(split_plus(cs@.take(i as int)).drop_last()),
        decreases cs.len() - i,
    {
        let ghost pre = cs@.take(i as int);
        let ghost nxt = cs@.take(i + 1);
        assert(nxt.drop_last() =~= pre);
        assert(nxt.last() == cs@[i as int]);
        if cs[i] == '+' {
            apply_part(&part, &mut key, &mut shift, &mut ctrl, &mut uses_mod);
            proof {
                let p = split_plus(pre);
                assert(split_plus(nxt) == p.push(Seq::empty()));
                assert(split_plus(nxt).drop_last() =~= p);
                assert(p.drop_last().push(p.last()) =~= p);
                assert(p == p.drop_last().push(p.last()));
                assert(p.drop_last() =~= p.drop_last().push(p.last()).drop_last());
            }
            part = Vec::new();
        } else {
            part.push(cs[i]);
            proof {
                let p = split_plus(pre);
                let q = split_plus(nxt);
                assert(q == p.update(p.len() - 1, p.last().push(cs@[i as int])));
                assert(q.drop_last() =~= p.drop_last());
            }
        }
        i += 1;
        proof {
            lemma_split_nonempty(cs@.take(i as int));
        }
    }
    apply_part(&part, &mut key, &mut shift, &mut ctrl, &mut uses_mod);
    proof {
        assert(cs@.take(cs@.len() as int) =~= cs@);
        let p = split_plus(cs@);
        assert(p.drop_last().push(p.last()) =~= p);
    }
    if key.len() == 0 {
        return None;
    }
    Some(ComboKeys { key: string_of(key.as_slice()), shift, ctrl, uses_mod })
}

/// Compile the hook-side combo table from config binds (binds whose
/// combo names no key are left out).
pub fn update_binds(binds: &[Bind]) -> (r: Vec<ComboKeys>)
    ensures
        r@.map_values(|c: ComboKeys| combo_model(c)) == compile_binds(binds@),
{
    let mut out: Vec<ComboKeys> = Vec::new();
    let mut i: usize = 0;
    while i < binds.len()
        invariant
            0 <= i <= binds.len(),
            out@.map_values(|c: ComboKeys| combo_model(c)) == compile_binds(binds@.take(i as int)),
        decreases binds.len() - i,
    {
        let ghost pre = binds@.take(i as int);
        let ghost nxt = binds@.take(i + 1);
        assert(nxt.drop_last() =~= pre);
        assert(nxt.last() == binds@[i as int]);
        match compile_one(binds[i].combo.as_str()) {
            Some(c) => {
                let ghost before = out@;
                out.push(c);
                assert(out@.map_values(|c: ComboKeys| combo_model(c)) =~= before.map_values(
                    |c: ComboKeys| combo_model(c),
                ).push(combo_model(c)));
            },
            None => {},
        }
        i += 1;
    }
    assert(binds@.take(binds@.len() as int) =~= binds@);
    out
}

/// Does a raw key state match a compiled combo? A combo without Mod never
/// fires while Mod is held.
pub open spec fn combo_matches(
    c: (Seq<char>, bool, bool, bool),
    name: Seq<char>,
    shift: bool,
    ctrl: bool,
    mod_held: bool,
) -> bool {
    &&& c.0 == name
    &&& c.1 == shift
    &&& c.2 == ctrl
    &&& (!c.3 || mod_held)
    &&& (c.3 || !mod_held)
}

/// Does the key state match one of the compiled combos?
pub open spec fn bound_combo(
    combos: Seq<ComboKeys>,
    vk: u32,
    shift: bool,
    ctrl: bool,
    mod_held: bool,
) -> bool {
    exists|i: int|
        0 <= i < combos.len() && combo_matches(
            combo_model(#[trigger] combos[i]),
            key_name_spec(vk),
            shift,
            ctrl,
            mod_held,
        )
}

/// Does the key state match any compiled combo (see [`bound_combo`])?
pub fn matches_a_bind(combos: &[ComboKeys], vk: u32, shift: bool, ctrl: bool, mod_held: bool) -> (r:
    bool)
    ensures
        r == bound_combo(combos@, vk, shift, ctrl, mod_held),
{
    let name = KeyEvent::key_name(vk);
    let mut i: usize = 0;
    while i < combos.len()
        invariant
            0 <= i <= combos.len(),
            name@ == key_name_spec(vk),
            forall|j: int|
                0 <= j < i ==> !combo_matches(
                    combo_model(#[trigger] combos@[j]),
                    key_name_spec(vk),
                    shift,
                    ctrl,
                    mod_held,
                ),
        decreases combos.len() - i,
    {
        let c = &combos[i];
        if c.key == name && c.shift == shift && c.ctrl == ctrl && (!c.uses_mod || mod_held) && (
        c.uses_mod || !mod_held) {
            return true;
        }
        i += 1;
    }
    false
}

/// `WM_KEYDOWN`: a key was pressed.
pub const WM_KEYDOWN: usize = 0x0100;

/// `WM_KEYUP`: a key was released.
pub const WM_KEYUP: usize = 0x0101;

/// `WM_SYSKEYDOWN`: a key was pressed with Alt held (or F10).
pub const WM_SYSKEYDOWN: usize = 0x0104;

/// `WM_SYSKEYUP`: a key was released with Alt held (or F10).
pub const WM_SYSKEYUP: usize = 0x0105;

/// What a low-level keyboard message reports: a press (`Some(true)`), a
/// release (`Some(false)`), or neither (`None`).
pub open spec fn key_transition_spec(msg: usize) -> Option<bool> {
    if msg == WM_KEYDOWN || msg == WM_SYSKEYDOWN {
        Some(true)
    } else if msg == WM_KEYUP || msg == WM_SYSKEYUP {
        Some(false)
    } else {
        None
    }
}

/// Classify a low-level keyboard message (see [`key_transition_spec`]).
pub fn key_transition(msg: usize) -> (r: Option<bool>)
    ensures
        r == key_transition_spec(msg),
{
    if msg == WM_KEYDOWN || msg == WM_SYSKEYDOWN {
        Some(true)
    } else if msg == WM_KEYUP || msg == WM_SYSKEYUP {
        Some(false)
    } else {
        None
    }
}

/// Is a key event swallowed system-wide: a press that matches a bind?
pub fn swallows_key(combos: &[ComboKeys], ev: &KeyEvent) -> (r: bool)
    ensures
        r == (ev.pressed && bound_combo(combos@, ev.vk, ev.shift, ev.ctrl, ev.mod_held)),
{
    ev.pressed && matches_a_bind(combos, ev.vk, ev.shift, ev.ctrl, ev.mod_held)
}

} // verus!

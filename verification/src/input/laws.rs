//! Packing input events into window messages loses nothing: decoding a
//! packed event gives the event back; and a key state matches the compiled
//! combos exactly when it matches one of the binds.
use vstd::prelude::*;

use super::mouse::{decode_mouse_spec, encode_lparam_spec, encode_wparam_spec, flag, kind_bits};
use super::{
    bound_combo, combo_matches, combo_model, compile_binds, compile_combo, decode_message_spec,
    key_bits, key_name_spec, ComboKeys, KeyEvent, MouseEvent,
};
use crate::config::Bind;
use crate::text::decimal;

verus! {

/// A key event survives the trip through a key message (on a 64-bit
/// target, where `lparam` holds all the packed bits).
pub proof fn law_key_message_roundtrip(ev: KeyEvent)
    requires
        isize::BITS == 64,
    ensures
        decode_message_spec(
            (if ev.pressed {
                1usize
            } else {
                0usize
            }),
            key_bits(ev) as isize,
        ) == ev,
{
    let v = ev.vk as u64;
    let s: u64 = if ev.shift {
        1
    } else {
        0
    };
    let c: u64 = if ev.ctrl {
        1
    } else {
        0
    };
    let m: u64 = if ev.mod_held {
        1
    } else {
        0
    };
    let p = key_bits(ev);
    assert(p == v | (s << 32u64) | (c << 33u64) | (m << 34u64));
    assert(p < 0x8_0000_0000 && p & 0xFFFF_FFFF == v && (p >> 32u64) & 1 == s && (p >> 33u64) & 1
        == c && (p >> 34u64) & 1 == m) by (bit_vector)
        requires
            p == v | (s << 32u64) | (c << 33u64) | (m << 34u64),
            v <= 0xFFFF_FFFF,
            s <= 1,
            c <= 1,
            m <= 1,
    ;
    assert((p as isize) as u64 == p);
}

/// A mouse event survives the trip through a mouse message (on a 64-bit
/// target, where `lparam` holds both coordinates), its notches being a
/// wheel message's signed byte.
pub proof fn law_mouse_message_roundtrip(ev: MouseEvent)
    requires
        isize::BITS == 64,
        -128 <= ev.notches <= 127,
    ensures
        decode_mouse_spec(encode_wparam_spec(ev), encode_lparam_spec(ev.x, ev.y)) == ev,
{
    let k = kind_bits(ev.kind);
    let s = flag(ev.shift);
    let c = flag(ev.ctrl);
    let m = flag(ev.mod_held);
    let n = ev.notches;
    let w = encode_wparam_spec(ev);
    assert(w == k | (s << 2usize) | (c << 3usize) | (m << 4usize) | ((((n as i8) as u8) as usize)
        << 16usize));
    assert(w & 3 == k && (w & 4 != 0) == (s == 1) && (w & 8 != 0) == (c == 1) && (w & 16 != 0) == (m
        == 1) && (((w >> 16usize) as u8) as i8) as i32 == n) by (bit_vector)
        requires
            w == k | (s << 2usize) | (c << 3usize) | (m << 4usize) | ((((n as i8) as u8) as usize)
                << 16usize),
            k <= 2,
            s <= 1,
            c <= 1,
            m <= 1,
            -128 <= n <= 127,
    ;
    let x = ev.x;
    let y = ev.y;
    let p = (((x as u32) as u64) << 32u64) | ((y as u32) as u64);
    assert(((p >> 32u64) as u32) as i32 == x && (p as u32) as i32 == y) by (bit_vector)
        requires
            p == (((x as u32) as u64) << 32u64) | ((y as u32) as u64),
    ;
    assert(encode_lparam_spec(x, y) == p as isize);
    assert(((p as isize) as u64) == p) by (bit_vector)
        requires
            isize::BITS == 64,
    ;
}

/// Bind `b`, read as `update_binds` reads its combo, fires on a press of
/// the key named `name` with these modifiers: its combo names that key,
/// Shift and Ctrl as held, and Mod exactly when Mod is held.
pub open spec fn bind_fires(b: Bind, name: Seq<char>, shift: bool, ctrl: bool, mod_held: bool) -> bool {
    match compile_combo(b.combo@) {
        Some(c) => combo_matches(c, name, shift, ctrl, mod_held),
        None => false,
    }
}

/// Some compiled combo of the table matches.
spec fn table_fires(
    t: Seq<(Seq<char>, bool, bool, bool)>,
    name: Seq<char>,
    shift: bool,
    ctrl: bool,
    mod_held: bool,
) -> bool {
    exists|j: int| 0 <= j < t.len() && combo_matches(#[trigger] t[j], name, shift, ctrl, mod_held)
}

/// Some bind fires.
spec fn any_fires(binds: Seq<Bind>, name: Seq<char>, shift: bool, ctrl: bool, mod_held: bool) -> bool {
    exists|i: int| 0 <= i < binds.len() && bind_fires(#[trigger] binds[i], name, shift, ctrl, mod_held)
}

proof fn lemma_compiled_fires(
    binds: Seq<Bind>,
    name: Seq<char>,
    shift: bool,
    ctrl: bool,
    mod_held: bool,
)
    ensures
        table_fires(compile_binds(binds), name, shift, ctrl, mod_held) == any_fires(
            binds,
            name,
            shift,
            ctrl,
            mod_held,
        ),
    decreases binds.len(),
{
    if binds.len() > 0 {
        let init = binds.drop_last();
        let b = binds.last();
        lemma_compiled_fires(init, name, shift, ctrl, mod_held);
        let rest = compile_binds(init);
        let t = compile_binds(binds);
        assert(forall|j: int| 0 <= j < rest.len() ==> #[trigger] t[j] == rest[j]);
        assert(forall|i: int| 0 <= i < init.len() ==> #[trigger] binds[i] == init[i]);
        if table_fires(t, name, shift, ctrl, mod_held) {
            let j = choose|j: int| 0 <= j < t.len() && combo_matches(#[trigger] t[j], name, shift, ctrl, mod_held);
            if j < rest.len() {
                assert(combo_matches(rest[j], name, shift, ctrl, mod_held));
                assert(table_fires(rest, name, shift, ctrl, mod_held));
                let i = choose|i: int| 0 <= i < init.len() && bind_fires(#[trigger] init[i], name, shift, ctrl, mod_held);
                assert(bind_fires(binds[i], name, shift, ctrl, mod_held));
            } else {
                assert(bind_fires(binds[binds.len() - 1], name, shift, ctrl, mod_held));
            }
        }
        if any_fires(binds, name, shift, ctrl, mod_held) {
            let i = choose|i: int| 0 <= i < binds.len() && bind_fires(#[trigger] binds[i], name, shift, ctrl, mod_held);
            if i < init.len() {
                assert(bind_fires(init[i], name, shift, ctrl, mod_held));
                assert(any_fires(init, name, shift, ctrl, mod_held));
                let j = choose|j: int| 0 <= j < rest.len() && combo_matches(#[trigger] rest[j], name, shift, ctrl, mod_held);
                assert(combo_matches(t[j], name, shift, ctrl, mod_held));
            } else {
                let f = compile_combo(b.combo@).unwrap();
                assert(t[rest.len() as int] == f);
                assert(combo_matches(t[rest.len() as int], name, shift, ctrl, mod_held));
            }
        }
    }
}

/// Matching a key state against the combos compiled from `binds` (as
/// `update_binds` compiles them) says exactly whether one of the binds
/// fires on that key state (see [`bind_fires`]).
pub proof fn law_matching_follows_binds(
    binds: Seq<Bind>,
    combos: Seq<ComboKeys>,
    vk: u32,
    shift: bool,
    ctrl: bool,
    mod_held: bool,
)
    requires
        combos.map_values(|c: ComboKeys| combo_model(c)) == compile_binds(binds),
    ensures
        bound_combo(combos, vk, shift, ctrl, mod_held) <==> exists|i: int|
            0 <= i < binds.len() && bind_fires(#[trigger] binds[i], key_name_spec(vk), shift, ctrl, mod_held),
{
    let name = key_name_spec(vk);
    lemma_compiled_fires(binds, name, shift, ctrl, mod_held);
    let t = compile_binds(binds);
    assert(combos.len() == t.len());
    assert(forall|j: int| 0 <= j < combos.len() ==> #[trigger] combo_model(combos[j]) == t[j]);
    if bound_combo(combos, vk, shift, ctrl, mod_held) {
        let j = choose|j: int| 0 <= j < combos.len() && combo_matches(combo_model(#[trigger] combos[j]), name, shift, ctrl, mod_held);
        assert(combo_matches(t[j], name, shift, ctrl, mod_held));
    }
    if table_fires(t, name, shift, ctrl, mod_held) {
        let j = choose|j: int| 0 <= j < t.len() && combo_matches(#[trigger] t[j], name, shift, ctrl, mod_held);
        assert(combo_matches(combo_model(combos[j]), name, shift, ctrl, mod_held));
    }
}


/// Each named key of Windows' virtual-key table is named after that key:
/// Backspace, Tab, Return, the navigation block (Page_Up, Page_Down, End,
/// Home and the arrows), the editing keys, the Windows, Shift, Control and
/// Alt keys, the keypad operators, `/` and the wheel pseudo-keys.
pub proof fn law_named_keys()
    ensures
        key_name_spec(0x08) == "Backspace"@,
        key_name_spec(0x09) == "Tab"@,
        key_name_spec(0x0D) == "Return"@,
        key_name_spec(0x13) == "Pause"@,
        key_name_spec(0x14) == "Caps_Lock"@,
        key_name_spec(0x1B) == "Escape"@,
        key_name_spec(0x20) == "space"@,
        key_name_spec(0x21) == "Page_Up"@,
        key_name_spec(0x22) == "Page_Down"@,
        key_name_spec(0x23) == "End"@,
        key_name_spec(0x24) == "Home"@,
        key_name_spec(0x25) == "Left"@,
        key_name_spec(0x26) == "Up"@,
        key_name_spec(0x27) == "Right"@,
        key_name_spec(0x28) == "Down"@,
        key_name_spec(0x2C) == "Print"@,
        key_name_spec(0x2D) == "Insert"@,
        key_name_spec(0x2E) == "Delete"@,
        key_name_spec(0x5B) == "Super_L"@,
        key_name_spec(0x5C) == "Super_R"@,
        key_name_spec(0x6A) == "KP_Multiply"@,
        key_name_spec(0x6B) == "KP_Add"@,
        key_name_spec(0x6D) == "KP_Subtract"@,
        key_name_spec(0x6E) == "KP_Decimal"@,
        key_name_spec(0x6F) == "KP_Divide"@,
        key_name_spec(0xA0) == "Shift_L"@,
        key_name_spec(0xA1) == "Shift_R"@,
        key_name_spec(0xA2) == "Control_L"@,
        key_name_spec(0xA3) == "Control_R"@,
        key_name_spec(0xA4) == "Alt_L"@,
        key_name_spec(0xA5) == "Alt_R"@,
        key_name_spec(0xBF) == "Slash"@,
        key_name_spec(super::VK_WHEEL_DOWN) == "WheelScrollDown"@,
        key_name_spec(super::VK_WHEEL_UP) == "WheelScrollUp"@,
        key_name_spec(super::VK_WHEEL_LEFT) == "WheelScrollLeft"@,
        key_name_spec(super::VK_WHEEL_RIGHT) == "WheelScrollRight"@,
{
}

/// A letter or digit key is named by its character (`A`..`Z`, `0`..`9`),
/// a keypad digit key `KP_0`..`KP_9`, a function key `F1`..`F24`.
pub proof fn law_character_and_function_keys(vk: u32, n: nat)
    ensures
        (0x41 <= vk <= 0x5A || 0x30 <= vk <= 0x39) ==> key_name_spec(vk) == seq![vk as char],
        n <= 9 ==> key_name_spec((0x60 + n) as u32) == "KP_"@ + decimal(n),
        1 <= n <= 24 ==> key_name_spec((0x6F + n) as u32) == "F"@ + decimal(n),
{
}

/// `Home` and `End` name exactly the Home key (0x24) and the End key
/// (0x23): no other key has either name.
pub proof fn law_home_and_end_keys(vk: u32)
    ensures
        key_name_spec(vk) == "Home"@ <==> vk == 0x24,
        key_name_spec(vk) == "End"@ <==> vk == 0x23,
{
        reveal_strlit("Alt_L");
        reveal_strlit("Alt_R");
        reveal_strlit("Backspace");
        reveal_strlit("Caps_Lock");
        reveal_strlit("Control_L");
        reveal_strlit("Control_R");
        reveal_strlit("Delete");
        reveal_strlit("Down");
        reveal_strlit("End");
        reveal_strlit("Escape");
        reveal_strlit("F");
        reveal_strlit("Home");
        reveal_strlit("Insert");
        reveal_strlit("KP_");
        reveal_strlit("KP_Add");
        reveal_strlit("KP_Decimal");
        reveal_strlit("KP_Divide");
        reveal_strlit("KP_Multiply");
        reveal_strlit("KP_Subtract");
        reveal_strlit("Left");
        reveal_strlit("Page_Down");
        reveal_strlit("Page_Up");
        reveal_strlit("Pause");
        reveal_strlit("Print");
        reveal_strlit("Return");
        reveal_strlit("Right");
        reveal_strlit("Shift_L");
        reveal_strlit("Shift_R");
        reveal_strlit("Slash");
        reveal_strlit("Super_L");
        reveal_strlit("Super_R");
        reveal_strlit("Tab");
        reveal_strlit("Up");
        reveal_strlit("VK_");
        reveal_strlit("WheelScrollDown");
        reveal_strlit("WheelScrollLeft");
        reveal_strlit("WheelScrollRight");
        reveal_strlit("WheelScrollUp");
        reveal_strlit("space");
        let nm = key_name_spec(vk);
        assert("Home"@[0] == 'H' && "Home"@.len() == 4);
        assert("End"@[0] == 'E' && "End"@.len() == 3);
        if 0x60 <= vk <= 0x69 {
            assert(("KP_"@ + decimal((vk - 0x60) as nat))[0] == 'K');
        } else if 0x70 <= vk <= 0x87 {
            assert(("F"@ + decimal((vk - 0x6F) as nat))[0] == 'F');
        } else {
            assert(seq![(vk % 256) as char].len() == 1);
            assert(("VK_"@ + super::hex2(vk as nat))[0] == 'V');
        }
}

} // verus!

use yumi_wini::config::Config;
use yumi_wini::input::mouse::{mouse_input, swallows_wheel, wheel_event};
use yumi_wini::input::{key_transition, swallows_key, update_binds, KeyEvent, MouseKind};

#[test]
fn keyboard_messages_classify() {
    assert_eq!(key_transition(0x0100), Some(true));
    assert_eq!(key_transition(0x0104), Some(true));
    assert_eq!(key_transition(0x0101), Some(false));
    assert_eq!(key_transition(0x0105), Some(false));
    assert_eq!(key_transition(0x0102), None);
    assert_eq!(key_transition(0), None);
}

#[test]
fn bound_presses_are_swallowed() {
    let combos = update_binds(&Config::default().binds);
    // Mod+L (focus column right) is bound by default.
    let press = KeyEvent { vk: 0x4C, pressed: true, shift: false, ctrl: false, mod_held: true };
    assert!(swallows_key(&combos, &press));
    // Its release, or L without Mod, passes through.
    assert!(!swallows_key(&combos, &KeyEvent { pressed: false, ..press }));
    assert!(!swallows_key(&combos, &KeyEvent { mod_held: false, ..press }));
    assert!(!swallows_key(&[], &press));
}

#[test]
fn mouse_messages_classify_with_whole_notches() {
    assert_eq!(mouse_input(0x0200, 0xFFFF_0000), Some((MouseKind::Move, 0)));
    // One notch up: +120 in the high word.
    assert_eq!(mouse_input(0x020A, 120 << 16), Some((MouseKind::WheelV, 1)));
    // One notch down: -120 as a 16-bit word.
    assert_eq!(mouse_input(0x020A, 0xFF88_0000), Some((MouseKind::WheelV, -1)));
    // Partial notches (precision touchpads) round toward zero.
    assert_eq!(mouse_input(0x020E, 250 << 16), Some((MouseKind::WheelH, 2)));
    assert_eq!(mouse_input(0x020E, ((-250i16 as u16 as u32) << 16) | 7), Some((MouseKind::WheelH, -2)));
    assert_eq!(mouse_input(0x020A, 60 << 16), Some((MouseKind::WheelV, 0)));
    assert_eq!(mouse_input(0x0201, 0), None);
}

#[test]
fn bound_wheel_turns_are_swallowed() {
    let combos = update_binds(&Config::default().binds);
    // Mod+WheelScrollDown is bound by default; the same turn without Mod
    // is not, and a zero-notch turn acts as no key.
    assert!(swallows_wheel(&combos, &wheel_event(MouseKind::WheelV, -1, false, false, true)));
    assert!(!swallows_wheel(&combos, &wheel_event(MouseKind::WheelV, -1, false, false, false)));
    assert!(!swallows_wheel(&combos, &wheel_event(MouseKind::WheelV, 0, false, false, true)));
}

use yumi_wini::config::{Action, Config};
use yumi_wini::input::{action_for, combo_of, decode_message, KeyEvent};

fn ev(vk: u32, pressed: bool, shift: bool, ctrl: bool, m: bool) -> KeyEvent {
    KeyEvent { vk, pressed, shift, ctrl, mod_held: m }
}

#[test]
fn key_names() {
    assert_eq!(KeyEvent::key_name(0x48), "H");
    assert_eq!(KeyEvent::key_name(0x25), "Left");
    assert_eq!(KeyEvent::key_name(0x70), "F1");
    assert_eq!(KeyEvent::key_name(0x20), "space");
    assert_eq!(KeyEvent::key_name(0x31), "1");
}

#[test]
fn combo_building() {
    assert_eq!(combo_of(&ev(0x48, true, false, false, true)), "mod+h");
    assert_eq!(combo_of(&ev(0x25, true, false, true, true)), "mod+ctrl+left");
    assert_eq!(combo_of(&ev(0x51, true, false, false, false)), "q");
}

#[test]
fn action_lookup() {
    let binds = Config::default().binds;
    let a = action_for(&binds, &ev(0x48, true, false, false, true));
    assert_eq!(a, Some(Action::FocusColumnLeft));
    assert_eq!(action_for(&binds, &ev(0x48, true, false, false, false)), None);
    assert_eq!(
        action_for(&binds, &ev(0x51, true, false, false, true)),
        Some(Action::CloseWindow)
    );
}

#[test]
fn message_roundtrip() {
    let e = ev(0x25, true, true, false, true);
    let packed = (e.vk as u64)
        | ((e.shift as u64) << 32)
        | ((e.ctrl as u64) << 33)
        | ((e.mod_held as u64) << 34);
    let d = decode_message(1, packed as isize);
    assert_eq!(d, e);
    let d2 = decode_message(0, packed as isize);
    assert!(!d2.pressed);
}

use yumi_wini::config::{Action, Config};
use yumi_wini::input::mouse::encode_wparam;
use yumi_wini::input::{
    action_for, decode_mouse_message, KeyEvent, MouseEvent, MouseKind, VK_WHEEL_DOWN,
    VK_WHEEL_RIGHT, VK_WHEEL_UP,
};

fn decode(w: usize, l: isize) -> MouseEvent {
    decode_mouse_message(w, l)
}

#[test]
fn move_roundtrip() {
    let l = (((-100i32 as u32 as u64) << 32) | 200u32 as u64) as isize;
    let ev = decode(0, l);
    assert_eq!(ev.kind, MouseKind::Move);
    assert_eq!((ev.x, ev.y), (-100, 200));
    assert_eq!(ev.notches, 0);
    assert!(!ev.shift && !ev.ctrl && !ev.mod_held);
}

#[test]
fn wheel_roundtrip() {
    let ev = MouseEvent {
        kind: MouseKind::WheelV,
        x: 5,
        y: 6,
        notches: 2,
        shift: true,
        ctrl: false,
        mod_held: true,
    };
    let w = encode_wparam(&ev);
    let l = (((5i32 as u32 as u64) << 32) | 6u32 as u64) as isize;
    assert_eq!(decode(w, l), ev);
    assert_eq!(ev.wheel_vk(), Some(VK_WHEEL_UP));

    let down = MouseEvent { notches: -1, ..ev };
    assert_eq!(down.wheel_vk(), Some(VK_WHEEL_DOWN));

    let h = MouseEvent { kind: MouseKind::WheelH, notches: 1, ..ev };
    assert_eq!(h.wheel_vk(), Some(VK_WHEEL_RIGHT));
}

#[test]
fn wheel_key_names_bind() {
    let binds = Config::default().binds;
    let ev = KeyEvent { vk: VK_WHEEL_DOWN, pressed: true, shift: false, ctrl: false, mod_held: true };
    assert_eq!(action_for(&binds, &ev), Some(Action::FocusColumnRight));
}

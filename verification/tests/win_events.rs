use yumi_wini::app::WindowEvent;
use yumi_wini::win::events::{
    decode, is_whole_window, WinEvent, EVENT_OBJECT_CLOAKED, EVENT_OBJECT_DESTROY,
    EVENT_OBJECT_HIDE, EVENT_OBJECT_SHOW, EVENT_OBJECT_UNCLOAKED, EVENT_SYSTEM_FOREGROUND,
    EVENT_SYSTEM_MINIMIZEEND, EVENT_SYSTEM_MINIMIZESTART, EVENT_SYSTEM_MOVESIZEEND,
    EVENT_SYSTEM_MOVESIZESTART,
};

#[test]
fn winevent_codes_decode() {
    assert_eq!(decode(0x8002, 7), Some(WinEvent::Shown(7)));
    assert_eq!(decode(EVENT_OBJECT_HIDE, 7), Some(WinEvent::Hidden(7)));
    assert_eq!(decode(EVENT_OBJECT_DESTROY, 7), Some(WinEvent::Destroyed(7)));
    assert_eq!(decode(EVENT_OBJECT_CLOAKED, 7), Some(WinEvent::Cloaked(7)));
    assert_eq!(decode(EVENT_OBJECT_UNCLOAKED, 7), Some(WinEvent::Uncloaked(7)));
    assert_eq!(decode(EVENT_SYSTEM_MINIMIZESTART, 7), Some(WinEvent::MinimizeStarted(7)));
    assert_eq!(decode(EVENT_SYSTEM_MINIMIZEEND, 7), Some(WinEvent::MinimizeEnded(7)));
    assert_eq!(decode(3, 7), Some(WinEvent::Foreground(7)));
    assert_eq!(decode(EVENT_SYSTEM_MOVESIZESTART, 7), Some(WinEvent::MoveSizeStart(7)));
    assert_eq!(decode(EVENT_SYSTEM_MOVESIZEEND, 7), Some(WinEvent::MoveSizeEnd(7)));
    assert_eq!(decode(0x800B, 7), None);
    assert_eq!(decode(0, 7), None);
    assert_eq!(EVENT_OBJECT_SHOW, 0x8002);
    assert_eq!(EVENT_SYSTEM_FOREGROUND, 3);
}

#[test]
fn only_whole_window_notifications_count() {
    assert!(is_whole_window(0, 42));
    assert!(!is_whole_window(0, 0));
    assert!(!is_whole_window(-4, 42));
    assert!(!is_whole_window(1, 42));
}

#[test]
fn winevents_map_to_window_manager_events() {
    assert_eq!(WinEvent::Uncloaked(5).window_event(), WindowEvent::Shown(5));
    assert_eq!(WinEvent::MinimizeEnded(5).window_event(), WindowEvent::Shown(5));
    assert_eq!(WinEvent::Shown(5).window_event(), WindowEvent::Shown(5));
    assert_eq!(WinEvent::Cloaked(6).window_event(), WindowEvent::Hidden(6));
    assert_eq!(WinEvent::MinimizeStarted(6).window_event(), WindowEvent::Hidden(6));
    assert_eq!(WinEvent::Hidden(6).window_event(), WindowEvent::Hidden(6));
    assert_eq!(WinEvent::Destroyed(8).window_event(), WindowEvent::Destroyed(8));
    assert_eq!(WinEvent::Foreground(9).window_event(), WindowEvent::Foreground(9));
    assert_eq!(WinEvent::MoveSizeStart(1).window_event(), WindowEvent::MoveSizeStart(1));
    assert_eq!(WinEvent::MoveSizeEnd(1).window_event(), WindowEvent::MoveSizeEnd(1));
    assert_eq!(WinEvent::MoveSizeEnd(11).hwnd(), 11);
    assert_eq!(WinEvent::Cloaked(12).hwnd(), 12);
}

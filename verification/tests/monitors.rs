use yumi_wini::win::monitor::{find_by_handle, primary, Monitor, ScreenRect};

fn mon(handle: isize, left: i32, primary: bool, device: &str) -> Monitor {
    Monitor {
        handle,
        full: ScreenRect { left, top: 0, right: left + 1920, bottom: 1080 },
        work: ScreenRect { left, top: 0, right: left + 1920, bottom: 1040 },
        device: device.to_string(),
        is_primary: primary,
    }
}

#[test]
fn monitor_working_area_geometry() {
    let m = mon(1, -1920, false, r"\\.\DISPLAY2");
    assert_eq!(m.width(), 1920);
    assert_eq!(m.height(), 1040);
    assert_eq!(m.origin(), (-1920, 0));
    assert!(m.contains(-1920, 0));
    assert!(m.contains(-1, 1039));
    assert!(!m.contains(0, 10));
    assert!(!m.contains(-100, 1040));
}

#[test]
fn monitor_lookup_by_handle_takes_first_match() {
    let ms = vec![
        mon(10, 0, true, "A"),
        mon(20, 1920, false, "B"),
        mon(20, 3840, false, "C"),
    ];
    assert_eq!(find_by_handle(&ms, 20).map(|m| m.device.clone()), Some("B".to_string()));
    assert_eq!(find_by_handle(&ms, 10).map(|m| m.device.clone()), Some("A".to_string()));
    assert!(find_by_handle(&ms, 30).is_none());
    assert!(find_by_handle(&[], 10).is_none());
}

#[test]
fn primary_monitor_is_found() {
    let ms = vec![mon(1, 0, false, "A"), mon(2, 1920, true, "B"), mon(3, 3840, true, "C")];
    assert_eq!(primary(&ms).map(|m| m.device.clone()), Some("B".to_string()));
    let none = vec![mon(1, 0, false, "A")];
    assert!(primary(&none).is_none());
}

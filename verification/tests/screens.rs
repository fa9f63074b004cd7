use yumi_wini::app::{dispatch, Session};
use yumi_wini::config::Action;
use yumi_wini::layout::geometry::{compute_workspace_geometry, refresh_view_offset, LayoutParams};
use yumi_wini::layout::Layout;
use yumi_wini::screens::{follow_focus, parked_windows, reflow_targets, window_to_raise, work_area};
use yumi_wini::win::monitor::{Monitor, ScreenRect};

fn screen(device: &str, left: i32) -> Monitor {
    Monitor {
        handle: left as isize + 1,
        full: ScreenRect { left, top: 0, right: left + 1000, bottom: 800 },
        work: ScreenRect { left, top: 0, right: left + 1000, bottom: 760 },
        device: device.to_string(),
        is_primary: left == 0,
    }
}

#[test]
fn work_area_in_millionths() {
    assert_eq!(work_area(&screen("D2", -1000)), (-1_000_000_000, 0, 1_000_000_000, 760_000_000));
}

#[test]
fn reflow_lays_out_each_screen_and_pauses_during_drags() {
    let mut layout = Layout::new();
    layout.add_window("D1", 1);
    layout.add_window("D1", 2);
    layout.add_window("D2", 3);
    let p = LayoutParams::default();
    let screens = vec![screen("D1", 0), screen("D2", 1000), screen("D3", 2000)];
    let mut expected = compute_workspace_geometry(
        layout.monitor("D1").unwrap().active_workspace(),
        &p,
        work_area(&screens[0]),
    );
    expected.extend(compute_workspace_geometry(
        layout.monitor("D2").unwrap().active_workspace(),
        &p,
        work_area(&screens[1]),
    ));
    let mut session = Session { layout, focused: None, interacting: None };
    let targets = reflow_targets(&session, &p, &screens).unwrap();
    assert_eq!(targets, expected);
    assert_eq!(targets.len(), 3);
    assert!(targets.iter().any(|r| r.id == 3 && r.x >= 1000));
    session.interacting = Some(2);
    assert!(reflow_targets(&session, &p, &screens).is_none());
}

#[test]
fn raise_follows_focused_monitor_then_cursor() {
    let mut layout = Layout::new();
    layout.add_window("D1", 1);
    layout.add_window("D1", 2);
    layout.add_window("D2", 3);
    dispatch(&mut layout, Some(2), None, Action::FocusColumnLeft, &[]);
    // Focused window 2 lives on D1, where window 1 now has focus.
    assert_eq!(window_to_raise(&layout, Some(2), Some("D2")), Some(1));
    // An unknown focused window: the monitor under the cursor decides.
    assert_eq!(window_to_raise(&layout, Some(9), Some("D2")), Some(3));
    assert_eq!(window_to_raise(&layout, None, Some("D2")), Some(3));
    assert_eq!(window_to_raise(&layout, None, Some("D9")), None);
    assert_eq!(window_to_raise(&layout, None, None), None);
}

#[test]
fn following_focus_scrolls_the_owning_workspace() {
    let mut layout = Layout::new();
    for id in 1..=4 {
        layout.add_window("D1", id);
    }
    layout.monitor_mut("D1").unwrap().active_workspace_mut().view_offset = 123;
    let p = LayoutParams::default();
    // The view on a 1000-pixel working area is 984 pixels wide once the
    // 8-pixel edge padding is taken off both sides.
    let mut expected = layout.monitor("D1").unwrap().active_workspace().clone();
    refresh_view_offset(&mut expected, &p, 984_000_000, None);
    assert_ne!(expected.view_offset, 123);
    let screens = vec![screen("D1", 0)];
    follow_focus(&mut layout, &p, 4, &screens);
    let after = layout.monitor("D1").unwrap().active_workspace().view_offset;
    assert_eq!(after, expected.view_offset);
    // A window the layout does not know changes nothing.
    layout.monitor_mut("D1").unwrap().active_workspace_mut().view_offset = 123;
    follow_focus(&mut layout, &p, 42, &screens);
    assert_eq!(layout.monitor("D1").unwrap().active_workspace().view_offset, 123);
    // Nor does a monitor without a screen.
    let mut other = Layout::new();
    other.add_window("D5", 1);
    other.add_window("D5", 2);
    other.monitor_mut("D5").unwrap().active_workspace_mut().view_offset = 123;
    follow_focus(&mut other, &p, 2, &screens);
    assert_eq!(other.monitor("D5").unwrap().active_workspace().view_offset, 123);
}

#[test]
fn windows_of_hidden_workspaces_are_parked() {
    let mut layout = Layout::new();
    layout.add_window("D1", 1);
    layout.add_window("D1", 2);
    layout.add_window("D2", 3);
    assert!(parked_windows(&layout).is_empty());
    dispatch(&mut layout, Some(2), None, Action::MoveColumnToWorkspace(2), &[]);
    // Window 2 went to workspace 2, which D1 now shows: window 1 is parked.
    assert_eq!(parked_windows(&layout), vec![1]);
    dispatch(&mut layout, Some(2), None, Action::FocusWorkspace(1), &[]);
    assert_eq!(parked_windows(&layout), vec![2]);
}

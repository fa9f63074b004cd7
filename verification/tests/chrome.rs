use yumi_wini::text::push_decimal;
use yumi_wini::win::focus_border::ring_geometry;
use yumi_wini::win::monitor::ScreenRect;
use yumi_wini::win::overlay::{label_origin, workspace_label, LABEL_HEIGHT, LABEL_WIDTH};
use yumi_wini::win::placement::{borderless_style, FULLSCREEN_STRIP};

#[test]
fn decimal_numerals() {
    let mut s = String::from("n=");
    push_decimal(&mut s, 0);
    assert_eq!(s, "n=0");
    let mut s = String::new();
    push_decimal(&mut s, 9);
    push_decimal(&mut s, 10);
    push_decimal(&mut s, 4096);
    assert_eq!(s, "9104096");
    let mut s = String::new();
    push_decimal(&mut s, usize::MAX);
    assert_eq!(s, usize::MAX.to_string());
}

#[test]
fn workspace_indicator_text() {
    assert_eq!(workspace_label(1), "Workspace 1");
    assert_eq!(workspace_label(12), "Workspace 12");
}

#[test]
fn workspace_indicator_is_centered_under_top() {
    let work = ScreenRect { left: 0, top: 0, right: 1920, bottom: 1040 };
    assert_eq!(label_origin(work), (960 - 140, 24));
    assert_eq!((LABEL_WIDTH, LABEL_HEIGHT), (280, 64));
    // A monitor left of the primary one: halves round toward zero.
    let left = ScreenRect { left: -1921, top: 40, right: 0, bottom: 1080 };
    assert_eq!(label_origin(left), (-960 - 140, 64));
}

#[test]
fn focus_ring_surrounds_window() {
    let g = ring_geometry(100, 50, 800, 600, 4);
    assert_eq!((g.x, g.y, g.w, g.h), (96, 46, 808, 608));
    assert_eq!(g.hole, ScreenRect { left: 4, top: 4, right: 804, bottom: 604 });
    // A ring is at least one pixel thick.
    let thin = ring_geometry(0, 0, 10, 10, 0);
    assert_eq!((thin.x, thin.y, thin.w, thin.h), (-1, -1, 12, 12));
    assert_eq!(thin.hole, ScreenRect { left: 1, top: 1, right: 11, bottom: 11 });
}

#[test]
fn borderless_strips_and_restores_decorations() {
    let decorated: u32 = 0x14CF_0000; // WS_OVERLAPPEDWINDOW | WS_VISIBLE | WS_CLIPSIBLINGS
    assert_eq!(FULLSCREEN_STRIP, 0x00CF_0000);
    let stripped = borderless_style(decorated, true);
    assert_eq!(stripped, Some(0x1400_0000));
    assert_eq!(borderless_style(0x1400_0000, false), Some(decorated));
    // Nothing to change: already stripped, or already decorated.
    assert_eq!(borderless_style(0x1400_0000, true), None);
    assert_eq!(borderless_style(decorated, false), None);
}

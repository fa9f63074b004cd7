use yumi_wini::anim::Easing;
use yumi_wini::config::{parse, Action, Config, FocusRingConfig, ModKey};
use yumi_wini::layout::geometry::CenterFocused;
use yumi_wini::layout::{ColumnWidth, Workspace};

// Pixel and proportion values are held in millionths: 8 px is 8_000_000,
// a proportion of 0.5 is 500_000.

#[test]
fn default_config_is_sane() {
    let cfg = Config::default();
    assert!(matches!(cfg.mod_key, ModKey::Alt));
    assert!(!cfg.focus_follows_mouse);
    assert_eq!(cfg.layout.gaps, 8_000_000);
    assert!(cfg
        .binds
        .iter()
        .any(|b| b.combo == "Mod+H" && b.action == Action::FocusColumnLeft));
    assert!(cfg
        .binds
        .iter()
        .any(|b| b.combo == "Mod+WheelScrollDown" && b.action == Action::FocusColumnRight));
}

#[test]
fn focus_follows_mouse_flag() {
    let cfg = parse("input { focus-follows-mouse; }").unwrap();
    assert!(cfg.focus_follows_mouse);
    assert!(!parse("layout { gaps 8; }").unwrap().focus_follows_mouse);
    let cfg = parse("binds { Mod+WheelScrollDown { focus-column-right; } }").unwrap();
    assert!(cfg.binds.iter().any(|b| b.combo == "Mod+WheelScrollDown"));
}

#[test]
fn parse_full_example() {
    let src = r#"
        input {
            keyboard-shortcuts {
                Mod "Super"
            }
        }
        layout {
            gaps 12
            edge-padding 4
            center-focused-column "always"
            default-column-width { fixed 1000; }
        }
        binds {
            Mod+H { focus-column-left; }
            Mod+L { focus-column-right; }
            Mod+W { set-column-width "+100"; }
        }
    "#;
    let cfg = parse(src).unwrap();
    assert!(matches!(cfg.mod_key, ModKey::Super));
    assert_eq!(cfg.layout.gaps, 12_000_000);
    assert_eq!(cfg.layout.edge_padding, 4_000_000);
    assert_eq!(cfg.layout.center_focused_column, CenterFocused::Always);
    assert_eq!(cfg.layout.default_column_width, ColumnWidth::Fixed(1_000_000_000));
    assert_eq!(cfg.binds.len(), 3);
    assert!(cfg
        .binds
        .iter()
        .any(|b| b.action == Action::SetColumnWidth("+100".into())));
}

#[test]
fn parse_errors_are_soft() {
    assert!(parse("this is ((( not kdl").is_err());
    let cfg = parse("favorites { color \"blue\"; }").unwrap();
    assert_eq!(cfg.layout.gaps, 8_000_000);
}

#[test]
fn animations_config() {
    let cfg = parse(
        "animations {
            window-movement { duration-ms 500; easing \"ease-out-expo\"; }
            view-offset { duration-ms 0; }
        }",
    )
    .unwrap();
    assert!(cfg.animations.enabled);
    assert_eq!(cfg.animations.window_movement.duration_ms, 500);
    assert_eq!(cfg.animations.window_movement.easing, Easing::EaseOutExpo);
    assert_eq!(cfg.animations.view_offset.duration_ms, 0);
    assert_eq!(cfg.animations.window_open.duration_ms, 150);

    let cfg = parse("animations { off; }").unwrap();
    assert!(!cfg.animations.enabled);

    let cfg = parse("animations { window-open { easing \"bogus\"; } }").unwrap();
    assert_eq!(cfg.animations.window_open.easing, Easing::EaseOutCubic);
}

#[test]
fn window_rule_parsing_and_matching() {
    let cfg = parse(
        r#"
        window-rule {
            match app-id="Firefox" title="Download"
            open-floating
        }
        window-rule {
            match exe="notepad.exe"
            open-on-workspace 2
            open-maximized
        }
        "#,
    )
    .unwrap();
    assert_eq!(cfg.window_rules.len(), 2);

    let r = cfg.match_rule("firefox.exe", "Downloads", "Mozilla").unwrap();
    assert!(r.open_floating);
    assert!(cfg.match_rule("firefox.exe", "New Tab", "Mozilla").is_none());
    let r = cfg.match_rule("notepad.exe", "Untitled", "Notepad").unwrap();
    assert_eq!(r.open_workspace, Some(2));
    assert!(r.open_maximized);

    let cfg = parse("window-rule { match exe=\"a\"; open-floating; }").unwrap();
    assert!(cfg.window_rules[0].open_floating);
    let cfg = parse("window-rule { match exe=\"a\"; open-floating #false; }").unwrap();
    assert!(!cfg.window_rules[0].open_floating);
}

#[test]
fn preset_column_widths_config() {
    let cfg = parse(
        "layout { preset-column-widths { proportion 0.33; proportion 0.5; fixed 1280; } }",
    )
    .unwrap();
    assert_eq!(
        cfg.layout.preset_column_widths,
        vec![
            ColumnWidth::Proportion(330_000),
            ColumnWidth::Proportion(500_000),
            ColumnWidth::Fixed(1_280_000_000)
        ]
    );

    let presets = cfg.layout.preset_column_widths.clone();
    let mut ws = Workspace::new();
    ws.add_window(1);
    assert!(ws.cycle_column_width(&presets));
    assert_eq!(ws.columns[0].width, Some(ColumnWidth::Proportion(330_000)));
    assert!(ws.cycle_column_width(&presets));
    assert_eq!(ws.columns[0].width, Some(ColumnWidth::Proportion(500_000)));
    assert!(ws.cycle_column_width(&presets));
    assert_eq!(ws.columns[0].width, Some(ColumnWidth::Fixed(1_280_000_000)));
    assert!(ws.cycle_column_width(&presets));
    assert_eq!(ws.columns[0].width, Some(ColumnWidth::Proportion(330_000)));

    assert!(!ws.cycle_column_width(&[]));
}

#[test]
fn focus_ring_config() {
    let cfg = parse(r##"layout { focus-ring { width 2; active-color "#ff0000"; } }"##).unwrap();
    assert!(cfg.focus_ring.enabled);
    assert_eq!(cfg.focus_ring.width, 2);
    assert_eq!(cfg.focus_ring.active_color, 0xFF_0000);

    let cfg = parse("layout { focus-ring { off; } }").unwrap();
    assert!(!cfg.focus_ring.enabled);

    let cfg = parse(r##"layout { focus-ring { active-color "nope"; } }"##).unwrap();
    assert_eq!(cfg.focus_ring.active_color, FocusRingConfig::default().active_color);
}

#[test]
fn proportion_clamped() {
    let cfg = parse("layout { default-column-width { proportion 5000; } }").unwrap();
    assert_eq!(cfg.layout.default_column_width, ColumnWidth::Proportion(100_000_000));
}

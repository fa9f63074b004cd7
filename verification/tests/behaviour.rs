use yumi_wini::anim::Easing;
use yumi_wini::app::{
    dispatch, dispatch_is_defined, handle_event, AppError, Effect, Session, WindowEvent,
};
use yumi_wini::config::reader::{config_from_nodes, easing_from_name, parse_hex_color};
use yumi_wini::config::document::{ConfigEntry, ConfigNode, ConfigValue};
use yumi_wini::config::{bind, parse, Action, Config, ModKey, WindowRule};
use yumi_wini::input::mouse::{
    encode_lparam, encode_wparam, move_is_throttled, pack_position, wheel_event,
};
use yumi_wini::input::{
    decode_message, decode_mouse_message, encode_message, matches_a_bind, update_binds, KeyEvent,
    MouseEvent, MouseKind,
};
use yumi_wini::layout::{ColumnWidth, DirH, DirV, Layout, MonitorLayout, Workspace};
use yumi_wini::text::{command_words, contains_chars};
use yumi_wini::win::msg_window::wide;
use yumi_wini::win::window::{exe_name, is_manageable};

fn chars(s: &str) -> Vec<char> {
    s.chars().collect()
}

fn node(name: &str, children: Option<Vec<ConfigNode>>) -> ConfigNode {
    ConfigNode { name: name.to_string(), entries: Vec::new(), children }
}

// --- layout laws on concrete values -------------------------------------------

#[test]
fn removing_a_new_window_restores_the_workspace() {
    let mut ws = Workspace::new();
    ws.add_window(1);
    ws.add_window(2);
    ws.add_window(3);
    ws.focus_column(DirH::Left);
    ws.add_window(9);
    assert_eq!(ws.focused_id(), Some(9));
    assert!(ws.remove_window(9));
    assert_eq!(ws.focused_id(), Some(2));
    assert_eq!(ws.columns.len(), 3);
    assert_eq!(ws.active_column_idx, 1);
}

#[test]
fn toggles_go_back() {
    let mut ws = Workspace::new();
    ws.add_window(1);
    assert!(ws.toggle_full_width());
    assert!(ws.toggle_full_width());
    assert!(!ws.columns[0].is_full_width);
    assert!(ws.toggle_overview());
    assert!(ws.toggle_overview());
    assert!(!ws.is_overview);
    assert!(ws.toggle_fullscreen());
    assert!(ws.toggle_fullscreen());
    assert_eq!(ws.fullscreen_id, None);
}

#[test]
fn moves_go_back() {
    let mut ws = Workspace::new();
    ws.add_window(1);
    ws.add_window(2);
    ws.add_window_to_column(3, 1, 0);
    let before: Vec<Vec<isize>> =
        ws.columns.iter().map(|c| c.tiles.iter().map(|t| t.id).collect()).collect();
    assert!(ws.move_column(DirH::Left));
    assert!(ws.move_column(DirH::Right));
    assert!(ws.move_tile(DirV::Down));
    assert!(ws.move_tile(DirV::Up));
    let after: Vec<Vec<isize>> =
        ws.columns.iter().map(|c| c.tiles.iter().map(|t| t.id).collect()).collect();
    assert_eq!(before, after);
    assert_eq!(ws.focused_id(), Some(3));
}

#[test]
fn focus_moves_keep_windows() {
    let mut ws = Workspace::new();
    ws.add_window(1);
    ws.add_window_to_column(2, 0, 1);
    ws.add_window(3);
    let ids = ws.window_ids();
    assert!(ws.focus_column(DirH::Left));
    assert!(ws.focus_tile(DirV::Up));
    assert_eq!(ws.window_ids(), ids);
    assert!(ws.focus_column(DirH::Right));
    assert_eq!(ws.focused_id(), Some(3));
}

#[test]
fn focus_window_focuses_it() {
    let mut ws = Workspace::new();
    ws.add_window(1);
    ws.add_window_to_column(2, 0, 1);
    ws.add_window(3);
    assert!(ws.focus_window(2));
    assert_eq!(ws.focused_id(), Some(2));
    assert!(!ws.focus_window(42));
}

#[test]
fn switching_to_the_active_workspace_is_a_no_op() {
    let mut ml = MonitorLayout::new("DISPLAY1".to_string());
    assert!(ml.switch_workspace(1));
    assert!(!ml.switch_workspace(1));
    assert_eq!(ml.workspaces.len(), 2);
}

// --- input ------------------------------------------------------------------------

#[test]
fn key_events_survive_messages() {
    let e = KeyEvent { vk: 0xE1, pressed: false, shift: false, ctrl: true, mod_held: true };
    let (w, l) = encode_message(&e);
    assert_eq!(w, 0);
    assert_eq!(decode_message(w, l), e);
}

#[test]
fn mouse_events_survive_messages() {
    let e = MouseEvent {
        kind: MouseKind::WheelH,
        x: -3000,
        y: 1200,
        notches: -128,
        shift: false,
        ctrl: true,
        mod_held: false,
    };
    assert_eq!(decode_mouse_message(encode_wparam(&e), encode_lparam(e.x, e.y)), e);
    let w = wheel_event(MouseKind::WheelV, 3, true, false, true);
    assert_eq!((w.x, w.y, w.notches), (0, 0, 3));
}

#[test]
fn compiled_binds_match_their_keys() {
    let binds = vec![bind("Mod+Shift+H", Action::MoveColumnLeft)];
    let combos = update_binds(&binds);
    assert!(matches_a_bind(&combos, 0x48, true, false, true));
    assert!(!matches_a_bind(&combos, 0x48, false, false, true));
}

// --- configuration ------------------------------------------------------------------

#[test]
fn hex_colors() {
    assert_eq!(parse_hex_color("#7daea3"), Some(0x7D_AEA3));
    assert_eq!(parse_hex_color("7DAEA3"), Some(0x7D_AEA3));
    assert_eq!(parse_hex_color("##ff0000"), Some(0xFF_0000));
    assert_eq!(parse_hex_color("+abcde"), None);
    assert_eq!(parse_hex_color("-abcde"), None);
    assert_eq!(parse_hex_color("#12345"), None);
    assert_eq!(parse_hex_color("#12345g"), None);
}

#[test]
fn easing_names() {
    assert_eq!(easing_from_name("linear"), Some(Easing::Linear));
    assert_eq!(easing_from_name("ease-out-back"), Some(Easing::EaseOutBack(1_701_580)));
    assert_eq!(easing_from_name("Linear"), None);
}

#[test]
fn syntax_errors_are_reported() {
    let err = parse("node {").unwrap_err();
    assert!(err.starts_with("KDL syntax: "));
}

#[test]
fn default_binds_include_workspaces() {
    let cfg = Config::default();
    assert_eq!(cfg.binds.len(), 63);
    assert_eq!(cfg.binds[36].combo, "Mod+1");
    assert_eq!(cfg.binds[36].action, Action::FocusWorkspace(1));
    assert_eq!(cfg.binds[38].combo, "Mod+Shift+1");
    assert_eq!(cfg.binds[38].action, Action::FocusColumnIndex(1));
    assert_eq!(cfg.binds[61].combo, "Mod+Ctrl+9");
    assert_eq!(cfg.binds[61].action, Action::MoveColumnToWorkspace(9));
    assert_eq!(cfg.binds[62].combo, "Mod+Shift+9");
    assert_eq!(cfg.binds[62].action, Action::FocusColumnIndex(9));
}

#[test]
fn unknown_nodes_and_missing_binds() {
    let cfg = config_from_nodes(&[node("favorites", None)]);
    // Without a `binds` node the default binds hold.
    assert_eq!(cfg.binds, Config::default().binds);
    assert_eq!(cfg.layout.gaps, 8_000_000);
    assert!(matches!(cfg.mod_key, ModKey::Alt));
}

#[test]
fn actions_from_nodes() {
    let spawn = ConfigNode {
        name: "spawn".to_string(),
        entries: vec![ConfigEntry { name: None, value: ConfigValue::Str("alacritty".to_string()) }],
        children: None,
    };
    let ws = ConfigNode {
        name: "focus-workspace".to_string(),
        entries: vec![ConfigEntry { name: None, value: ConfigValue::Str("300".to_string()) }],
        children: None,
    };
    let combo = node("Mod+T", Some(vec![spawn, ws, node("frobnicate", None)]));
    let cfg = config_from_nodes(&[node("binds", Some(vec![combo]))]);
    assert_eq!(cfg.binds.len(), 3);
    assert_eq!(cfg.binds[0].action, Action::Spawn("alacritty".to_string()));
    assert_eq!(cfg.binds[1].action, Action::FocusWorkspace(1));
    assert_eq!(cfg.binds[2].action, Action::Unknown("frobnicate".to_string()));
    assert!(cfg.binds.iter().all(|b| b.combo == "Mod+T"));
}

#[test]
fn numbers_and_rules() {
    let cfg = parse(
        "layout { gaps 2.5; focus-ring 0.5; default-column-width 640; }
         window-rule { open-on-workspace 3.9; open-fullscreen; }
         window-rule",
    )
    .unwrap();
    assert_eq!(cfg.layout.gaps, 2_500_000);
    assert_eq!(cfg.focus_ring.width, 1);
    assert_eq!(
        cfg.layout.default_column_width,
        yumi_wini::layout::ColumnWidth::Fixed(640_000_000)
    );
    assert_eq!(cfg.window_rules.len(), 1);
    assert_eq!(cfg.window_rules[0].open_workspace, Some(3));
    assert!(cfg.window_rules[0].open_fullscreen);
}

#[test]
fn rule_without_fields_matches_everything() {
    let rule = WindowRule::default();
    assert!(rule.matches("anything.exe", "Any Title", "AnyClass"));
    let rule = WindowRule { match_title: Some("DOWN".to_string()), ..WindowRule::default() };
    assert!(rule.matches("x", "my downloads", "y"));
    assert!(!rule.matches("x", "uploads", "y"));
}

// --- text ------------------------------------------------------------------------------

#[test]
fn substring_search() {
    assert!(contains_chars(&chars("firefox.exe"), &chars("fox")));
    assert!(contains_chars(&chars("abc"), &chars("")));
    assert!(!contains_chars(&chars("ab"), &chars("abc")));
    assert!(!contains_chars(&chars("abcab"), &chars("ba")));
}

#[test]
fn wide_strings_end_in_nul() {
    assert_eq!(wide("ab"), vec![0x61, 0x62, 0]);
    assert_eq!(wide("\u{1F600}"), vec![0xD83D, 0xDE00, 0]);
    assert_eq!(wide(""), vec![0]);
}

// --- decisions ---------------------------------------------------------------------------

#[test]
fn dispatch_acts_on_the_focused_workspace() {
    let mut layout = Layout::new();
    layout.add_window("D1", 1);
    layout.add_window("D1", 2);
    let d = |l: &mut Layout, f: Option<isize>, c: Option<&str>, a: Action| dispatch(l, f, c, a, &[]);
    assert_eq!(d(&mut layout, Some(2), None, Action::FocusColumnLeft), Effect::Relayout(2));
    assert_eq!(layout.focused_id("D1"), Some(1));
    assert_eq!(d(&mut layout, Some(1), None, Action::FocusColumnLeft), Effect::Nothing);
    assert_eq!(d(&mut layout, None, Some("D1"), Action::CloseWindow), Effect::Close(1));
    assert_eq!(d(&mut layout, None, None, Action::FocusColumnRight), Effect::Nothing);
    assert_eq!(d(&mut layout, Some(7), None, Action::FocusColumnRight), Effect::Nothing);
    assert_eq!(d(&mut layout, Some(1), None, Action::Quit), Effect::Quit);
    assert_eq!(d(&mut layout, None, None, Action::Quit), Effect::Quit);
    assert_eq!(
        d(&mut layout, None, None, Action::Spawn("notepad.exe a.txt".to_string())),
        Effect::Spawn("notepad.exe a.txt".to_string())
    );
    assert_eq!(d(&mut layout, None, None, Action::DoScreenTransition), Effect::ScreenTransition);
    assert_eq!(
        d(&mut layout, Some(1), None, Action::SetColumnWidth("50%".to_string())),
        Effect::Relayout(1)
    );
    assert_eq!(
        d(&mut layout, Some(1), None, Action::SetColumnWidth("wide".to_string())),
        Effect::Nothing
    );
    assert_eq!(d(&mut layout, Some(1), None, Action::ToggleWindowFloating), Effect::Nothing);
    assert_eq!(d(&mut layout, Some(1), None, Action::Unknown("x".to_string())), Effect::Nothing);
}

#[test]
fn documented_actions_act() {
    let mut layout = Layout::new();
    layout.add_window("D1", 1);
    layout.add_window("D1", 2);
    layout.add_window("D1", 3);
    let presets = vec![ColumnWidth::Proportion(333_330), ColumnWidth::Proportion(500_000)];
    // focus-column-index counts from one, clamped to the last column.
    assert_eq!(dispatch(&mut layout, Some(3), None, Action::FocusColumnIndex(1), &presets), Effect::Relayout(3));
    assert_eq!(layout.focused_id("D1"), Some(1));
    assert_eq!(dispatch(&mut layout, Some(1), None, Action::FocusColumnIndex(9), &presets), Effect::Relayout(1));
    assert_eq!(layout.focused_id("D1"), Some(3));
    // A bare set-column-width cycles the presets.
    assert_eq!(dispatch(&mut layout, Some(3), None, Action::SetColumnWidth(String::new()), &presets), Effect::Relayout(3));
    let ws = layout.monitor("D1").unwrap().active_workspace();
    assert_eq!(ws.columns[2].width, Some(ColumnWidth::Proportion(333_330)));
    dispatch(&mut layout, Some(3), None, Action::SetColumnWidth(String::new()), &presets);
    let ws = layout.monitor("D1").unwrap().active_workspace();
    assert_eq!(ws.columns[2].width, Some(ColumnWidth::Proportion(500_000)));
    // Windowed fullscreen on and off.
    assert_eq!(dispatch(&mut layout, Some(3), None, Action::ToggleWindowedFullscreen, &presets), Effect::Fullscreen(3, None, Some(3)));
    assert_eq!(dispatch(&mut layout, Some(3), None, Action::ToggleWindowedFullscreen, &presets), Effect::Fullscreen(3, Some(3), None));
    // The overview.
    assert_eq!(dispatch(&mut layout, Some(3), None, Action::ToggleOverview, &presets), Effect::Relayout(3));
    assert!(layout.monitor("D1").unwrap().active_workspace().is_overview);
    dispatch(&mut layout, Some(3), None, Action::ToggleOverview, &presets);
    // Workspaces: switching, and sending the focused column along.
    assert_eq!(dispatch(&mut layout, Some(3), None, Action::FocusWorkspace(2), &presets), Effect::WorkspaceShown(3, 2));
    assert_eq!(layout.monitor("D1").unwrap().active_workspace_idx, 1);
    assert_eq!(layout.focused_id("D1"), None);
    assert_eq!(dispatch(&mut layout, Some(3), None, Action::FocusWorkspace(2), &presets), Effect::Nothing);
    assert_eq!(dispatch(&mut layout, Some(3), None, Action::FocusWorkspace(1), &presets), Effect::WorkspaceShown(3, 1));
    assert_eq!(dispatch(&mut layout, Some(3), None, Action::MoveColumnToWorkspace(3), &presets), Effect::WorkspaceShown(3, 3));
    assert_eq!(layout.monitor("D1").unwrap().active_workspace_idx, 2);
    assert_eq!(layout.focused_id("D1"), Some(3));
    assert_eq!(dispatch(&mut layout, Some(3), None, Action::MoveWindowToWorkspace(1), &presets), Effect::WorkspaceShown(3, 1));
    assert_eq!(layout.monitor("D1").unwrap().active_workspace_idx, 0);
    assert_eq!(layout.focused_id("D1"), Some(3));
}

#[test]
fn command_lines_split_into_words() {
    assert_eq!(command_words("notepad.exe  a.txt\tb "), vec!["notepad.exe", "a.txt", "b"]);
    assert_eq!(command_words("   "), Vec::<String>::new());
    assert_eq!(command_words("alacritty"), vec!["alacritty"]);
}

#[test]
fn events_track_windows_and_pause_during_drags() {
    let mut s = Session { layout: Layout::new(), focused: None, interacting: None };
    let r = handle_event(&mut s, WindowEvent::Shown(1), false, true, "D1");
    assert!(r.track && r.reflow);
    let r = handle_event(&mut s, WindowEvent::Shown(2), false, false, "D1");
    assert!(!r.track);
    let r = handle_event(&mut s, WindowEvent::MoveSizeStart(1), true, true, "D1");
    assert!(!r.reflow);
    assert_eq!(s.interacting, Some(1));
    let r = handle_event(&mut s, WindowEvent::Shown(3), false, true, "D1");
    assert!(r.track && !r.reflow);
    let r = handle_event(&mut s, WindowEvent::MoveSizeEnd(1), true, true, "D1");
    assert!(r.reflow);
    assert_eq!(s.interacting, None);
    let r = handle_event(&mut s, WindowEvent::Foreground(1), true, true, "D1");
    assert_eq!(r.focus_view, Some(1));
    assert_eq!(s.layout.focused_id("D1"), Some(1));
    let r = handle_event(&mut s, WindowEvent::Destroyed(1), true, true, "D1");
    assert!(r.untrack && r.reflow);
    assert_eq!(s.layout.focused_id("D1"), Some(3));
}

#[test]
fn app_error_from_string() {
    let e = AppError::from("no message window".to_string());
    assert_eq!(e.message(), "no message window");
}

#[test]
fn dispatch_definedness() {
    let mut layout = Layout::new();
    layout.add_window("D1", 1);
    layout.add_window("D1", 2);
    dispatch(&mut layout, Some(2), None, Action::FocusColumnLeft, &[]);
    // Window 1 alone in the first of two columns may move right.
    assert!(dispatch_is_defined(&layout, Some(1), None, &Action::MoveWindowToColumnRight));
    // With no window to act on, every action is defined.
    let mut empty = Layout::new();
    empty.add_monitor("D2");
    assert!(dispatch_is_defined(&empty, None, Some("D2"), &Action::SetColumnWidth("50%".to_string())));
    assert!(dispatch_is_defined(&layout, Some(1), None, &Action::MoveWindowToColumnLeft));
    assert!(dispatch_is_defined(&layout, None, None, &Action::MoveWindowToColumnRight));
}

#[test]
fn manageable_windows() {
    let f = is_manageable;
    let caption = 0x00C0_0000;
    assert!(f(true, false, 0, false, caption, "Notepad", "Notepad"));
    assert!(!f(false, false, 0, false, caption, "Notepad", "Notepad"));
    assert!(!f(true, true, 0, false, caption, "Dialog", "#32770"));
    assert!(!f(true, false, 0x80, false, caption, "Palette", "Tool"));
    assert!(!f(true, false, 0, true, caption, "Ghost", "App"));
    assert!(!f(true, false, 0, false, 0, "Splash", "Splash"));
    assert!(!f(true, false, 0, false, caption, "   ", "Notepad"));
    assert!(!f(true, false, 0, false, caption, "Taskbar", "Shell_TrayWnd"));
}

#[test]
fn executable_names() {
    let f = exe_name;
    assert_eq!(f("C:\\Program Files\\Mozilla Firefox\\Firefox.EXE"), "firefox.exe");
    assert_eq!(f("/usr/bin/Notepad"), "notepad");
    assert_eq!(f("plain.exe"), "plain.exe");
    assert_eq!(f("C:\\dir\\"), "");
}

#[test]
fn mouse_moves_are_throttled() {
    let near = move_is_throttled;
    let pack = pack_position;
    assert!(!near(i64::MIN, 10, 10));
    let last = pack(100, -5);
    assert!(near(last, 102, -5));
    assert!(near(last, 98, -7));
    assert!(!near(last, 103, -5));
    assert!(!near(last, 100, -8));
}

#[test]
fn no_window_is_lost_or_duplicated() {
    let mut ws = Workspace::new();
    for i in 1..=4 {
        ws.add_window(i);
    }
    ws.add_window_to_column(5, 1, 0);
    let sorted = |ws: &Workspace| {
        let mut v = ws.window_ids();
        v.sort();
        v
    };
    let all = vec![1, 2, 3, 4, 5];
    assert_eq!(sorted(&ws), all);
    assert!(ws.consume_or_expel(DirH::Left));
    assert_eq!(sorted(&ws), all);
    assert!(ws.move_tile_across(DirH::Left));
    assert_eq!(sorted(&ws), all);
    assert!(ws.move_column(DirH::Right));
    assert_eq!(sorted(&ws), all);
    assert!(ws.remove_window(3));
    assert_eq!(sorted(&ws), vec![1, 2, 4, 5]);
}

#[test]
fn slash_opens_the_overview() {
    let binds = Config::default().binds;
    let ev = KeyEvent { vk: 0xBF, pressed: true, shift: true, ctrl: false, mod_held: true };
    assert_eq!(KeyEvent::key_name(0xBF), "Slash");
    assert_eq!(yumi_wini::input::action_for(&binds, &ev), Some(Action::ToggleOverview));
}

#[test]
fn mod_shift_digit_focuses_a_column() {
    let binds = Config::default().binds;
    let ev = KeyEvent { vk: 0x33, pressed: true, shift: true, ctrl: false, mod_held: true };
    assert_eq!(yumi_wini::input::action_for(&binds, &ev), Some(Action::FocusColumnIndex(3)));
}

#[test]
fn removing_another_window_keeps_focus() {
    let mut ws = Workspace::new();
    ws.add_window(1);
    ws.add_window(2);
    ws.add_window(3);
    ws.focus_column(DirH::Left);
    ws.focus_column(DirH::Right);
    assert!(ws.remove_window(1));
    assert_eq!(ws.focused_id(), Some(3));
    assert_eq!(ws.active_column_idx, 1);
    // A tile leaving another column does not move focus there either.
    ws.add_window_to_column(4, 0, 1);
    ws.focus_window(3);
    assert!(ws.remove_window(4));
    assert_eq!(ws.focused_id(), Some(3));
    // Removing a column right of the focused one keeps the index.
    ws.add_window(5);
    ws.focus_window(2);
    assert!(ws.remove_window(5));
    assert_eq!(ws.focused_id(), Some(2));
}

#[test]
fn lone_window_moves_into_right_neighbor() {
    let mut ws = Workspace::new();
    ws.add_window(1);
    ws.add_window(2);
    ws.focus_column(DirH::Left);
    assert!(ws.move_tile_across(DirH::Right));
    assert_eq!(ws.columns.len(), 1);
    assert_eq!(ws.columns[0].tiles.iter().map(|t| t.id).collect::<Vec<_>>(), vec![1, 2]);
    assert_eq!(ws.focused_id(), Some(1));
    // With more columns following, it lands in the neighbor, not beyond.
    let mut ws = Workspace::new();
    for i in 1..=3 {
        ws.add_window(i);
    }
    ws.focus_column(DirH::Left);
    ws.focus_column(DirH::Left);
    assert!(ws.move_tile_across(DirH::Right));
    assert_eq!(ws.columns.len(), 2);
    assert_eq!(ws.columns[0].tiles.iter().map(|t| t.id).collect::<Vec<_>>(), vec![1, 2]);
    assert_eq!(ws.columns[1].tiles.iter().map(|t| t.id).collect::<Vec<_>>(), vec![3]);
    assert_eq!(ws.focused_id(), Some(1));
}

#[test]
fn numbered_actions_take_integer_arguments() {
    let cfg = parse(
        "binds {\n Mod+A { focus-column-index 4; }\n Mod+B { focus-workspace 3; }\n Mod+C { move-column-to-workspace \"2\"; }\n Mod+D { do-screen-transition; }\n}",
    )
    .unwrap();
    assert_eq!(cfg.binds[0].action, Action::FocusColumnIndex(4));
    assert_eq!(cfg.binds[1].action, Action::FocusWorkspace(3));
    assert_eq!(cfg.binds[2].action, Action::MoveColumnToWorkspace(2));
    assert_eq!(cfg.binds[3].action, Action::DoScreenTransition);
}

#[test]
fn default_column_width_is_a_quarter() {
    let cfg = Config::default();
    assert_eq!(cfg.layout.default_column_width, ColumnWidth::Proportion(250_000));
    assert_eq!(cfg.layout.gaps, 8_000_000);
}

#[test]
fn a_bind_runs_all_its_actions_in_order() {
    let binds = vec![
        bind("Mod+T", Action::FocusColumnLeft),
        bind("Mod+Q", Action::CloseWindow),
        bind("Mod+T", Action::Unknown("frobnicate".to_string())),
        bind("Mod+T", Action::MaximizeColumn),
    ];
    let ev = KeyEvent { vk: 0x54, pressed: true, shift: false, ctrl: false, mod_held: true };
    assert_eq!(
        yumi_wini::input::actions_for(&binds, &ev),
        vec![Action::FocusColumnLeft, Action::MaximizeColumn]
    );
    let other = KeyEvent { vk: 0x55, pressed: true, shift: false, ctrl: false, mod_held: true };
    assert!(yumi_wini::input::actions_for(&binds, &other).is_empty());
}

#[test]
fn bare_numbers_size_columns() {
    let cfg = parse(
        "binds {\n Mod+W { set-column-width 800; }\n Mod+E { set-window-height -100; }\n Mod+R { set-column-width 12.5; }\n Mod+Y { set-column-width \"+10\" 5; }\n}",
    )
    .unwrap();
    assert_eq!(cfg.binds[0].action, Action::SetColumnWidth("800".to_string()));
    assert_eq!(cfg.binds[1].action, Action::SetWindowHeight("-100".to_string()));
    assert_eq!(cfg.binds[2].action, Action::SetColumnWidth("12.5".to_string()));
    assert_eq!(cfg.binds[3].action, Action::SetColumnWidth("+10".to_string()));
}

#[test]
fn a_binds_section_replaces_the_defaults() {
    let cfg = parse("layout { gaps 4; }").unwrap();
    assert_eq!(cfg.binds, Config::default().binds);
    let cfg = parse("binds { Mod+H { focus-column-left; } }\nbinds { Mod+L { focus-column-right; } }").unwrap();
    assert_eq!(cfg.binds.len(), 2);
    assert_eq!(cfg.binds[1].action, Action::FocusColumnRight);
}

#[test]
fn dispatch_keeps_each_window_once() {
    let mut layout = Layout::new();
    layout.add_window("D1", 1);
    layout.add_window("D1", 2);
    layout.add_window("D1", 3);
    assert_eq!(dispatch(&mut layout, Some(3), None, Action::MoveWindowToWorkspace(2), &[]), Effect::WorkspaceShown(3, 2));
    assert_eq!(dispatch(&mut layout, Some(3), None, Action::MoveColumnToWorkspace(1), &[]), Effect::WorkspaceShown(3, 1));
    assert_eq!(dispatch(&mut layout, Some(1), None, Action::ConsumeOrExpelWindowLeft, &[]), Effect::Relayout(1));
    for id in [1, 2, 3] {
        assert_eq!(layout.remove_window(id), Some("D1".to_string()));
        assert_eq!(layout.remove_window(id), None);
    }
}

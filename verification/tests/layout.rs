use yumi_wini::layout::{
    ColumnWidth, DirH, DirV, Edge, Layout, MonitorLayout, SizeChange, WindowId, Workspace,
};

const A: WindowId = 1;
const B: WindowId = 2;
const C: WindowId = 3;

fn tile_ids(ws: &Workspace, col: usize) -> Vec<WindowId> {
    ws.columns[col].tiles.iter().map(|t| t.id).collect()
}

fn column_focus(ws: &Workspace) -> Vec<Option<WindowId>> {
    ws.columns.iter().map(|c| c.focused_id()).collect()
}

#[test]
fn add_and_focus() {
    let mut ws = Workspace::new();
    ws.add_window(A);
    ws.add_window(B);
    ws.add_window(C);
    assert_eq!(ws.columns.len(), 3);
    assert_eq!(ws.focused_id(), Some(C));
    assert!(ws.focus_column(DirH::Left));
    assert_eq!(ws.focused_id(), Some(B));
}

#[test]
fn focus_no_wraparound() {
    let mut ws = Workspace::new();
    ws.add_window(A);
    assert!(!ws.focus_column(DirH::Left));
    assert!(!ws.focus_column(DirH::Right));
    ws.add_window(B);
    assert_eq!(ws.focused_id(), Some(B));
    assert!(!ws.focus_column(DirH::Right));
    assert!(ws.focus_column(DirH::Left));
    assert_eq!(ws.focused_id(), Some(A));
    assert!(!ws.focus_column(DirH::Left));
}

#[test]
fn remove_focused_column_returns_to_prev() {
    let mut ws = Workspace::new();
    ws.add_window(A);
    ws.add_window(B);
    assert_eq!(ws.focused_id(), Some(B));
    ws.remove_window(B);
    assert_eq!(ws.focused_id(), Some(A));
}

#[test]
fn remove_middle_column_falls_left() {
    let mut ws = Workspace::new();
    ws.add_window(A);
    ws.add_window(B);
    ws.add_window(C);
    ws.focus_column(DirH::Left);
    assert_eq!(ws.focused_id(), Some(B));
    ws.remove_window(B);
    assert_eq!(ws.focused_id(), Some(A));
}

#[test]
fn tile_navigation_and_move() {
    let mut ws = Workspace::new();
    ws.add_window(A);
    ws.add_window_to_column(B, 0, 1);
    ws.add_window_to_column(C, 0, 2);
    assert_eq!(ws.columns[0].tiles.len(), 3);
    assert_eq!(ws.focused_id(), Some(C));
    assert!(ws.focus_tile(DirV::Up));
    assert_eq!(ws.focused_id(), Some(B));
    assert!(ws.move_tile(DirV::Up));
    assert_eq!(tile_ids(&ws, 0), vec![B, A, C]);
    assert_eq!(ws.focused_id(), Some(B));
    assert!(!ws.move_tile(DirV::Up));
}

#[test]
fn move_column() {
    let mut ws = Workspace::new();
    ws.add_window(A);
    ws.add_window(B);
    ws.add_window(C);
    assert!(ws.move_column(DirH::Left));
    assert_eq!(column_focus(&ws), vec![Some(A), Some(C), Some(B)]);
    assert_eq!(ws.focused_id(), Some(C));
    assert!(ws.move_column(DirH::Left));
    assert_eq!(ws.focused_id(), Some(C));
    assert!(!ws.move_column(DirH::Left));
    assert!(ws.move_column(DirH::Right));
    assert!(ws.move_column(DirH::Right));
    assert!(!ws.move_column(DirH::Right));
}

#[test]
fn move_tile_across_merges() {
    let mut ws = Workspace::new();
    ws.add_window(A);
    ws.add_window(B);
    ws.add_window_to_column(C, 0, 1);
    ws.focus_column(DirH::Right);
    assert!(ws.move_tile_across(DirH::Left));
    assert_eq!(ws.columns.len(), 1);
    assert_eq!(tile_ids(&ws, 0), vec![A, C, B]);
    assert_eq!(ws.focused_id(), Some(B));
}

#[test]
fn consume_and_expel() {
    let mut ws = Workspace::new();
    ws.add_window(A);
    ws.add_window(B);
    assert!(ws.consume_or_expel(DirH::Left));
    assert_eq!(ws.columns.len(), 1);
    assert_eq!(tile_ids(&ws, 0), vec![A, B]);
    assert_eq!(ws.focused_id(), Some(B));
    assert!(ws.consume_or_expel(DirH::Left));
    assert_eq!(ws.columns.len(), 2);
    assert_eq!(ws.focused_id(), Some(B));
    assert_eq!(ws.active_column_idx, 0);
    assert!(!ws.consume_or_expel(DirH::Left));
    assert!(ws.consume_or_expel(DirH::Right));
    assert_eq!(ws.columns.len(), 1);
    assert_eq!(ws.focused_id(), Some(B));
    assert!(ws.consume_or_expel(DirH::Right));
    assert_eq!(ws.columns.len(), 2);
    assert_eq!(ws.active_column_idx, 1);
    assert_eq!(ws.focused_id(), Some(B));
    assert!(!ws.consume_or_expel(DirH::Right));
}

#[test]
fn workspace_switch_and_move() {
    let mut ml = MonitorLayout::new("DISPLAY1".into());
    ml.add_window(A);
    ml.add_window(B);

    assert!(ml.switch_workspace(2));
    assert_eq!(ml.workspaces.len(), 3);
    assert!(ml.active_workspace().is_empty());
    assert!(!ml.switch_workspace(2), "no-op when already active");

    assert_eq!(
        ml.move_focused_window_to_workspace(1, true),
        None,
        "empty workspace has nothing focused"
    );
    assert!(ml.switch_workspace(0));
    assert_eq!(ml.move_focused_window_to_workspace(1, true), Some(B));
    assert_eq!(ml.active_workspace_idx, 1);
    assert_eq!(ml.active_workspace().focused_id(), Some(B));
    assert_eq!(ml.workspaces[0].focused_id(), Some(A));
    assert_eq!(ml.workspace_of(B), Some(1));

    ml.move_focused_window_to_workspace(2, true);
    ml.add_window(C);
    let moved = ml.move_focused_column_to_workspace(0, false).unwrap();
    assert_eq!(moved, vec![C]);
    assert_eq!(ml.active_workspace_idx, 2, "focus=false keeps workspace");
    assert_eq!(ml.workspace_of(C), Some(0));
    assert_eq!(ml.workspaces[0].columns.len(), 2, "A + C's column");
}

#[test]
fn layout_add_remove_focus() {
    let mut layout = Layout::new();
    layout.add_window("DISPLAY1", A);
    layout.add_window("DISPLAY1", B);
    layout.add_window("DISPLAY2", C);
    assert_eq!(layout.focused_id("DISPLAY1"), Some(B));
    assert_eq!(layout.focused_id("DISPLAY2"), Some(C));
    assert!(layout.focus_window(A));
    assert_eq!(layout.focused_id("DISPLAY1"), Some(A));
    assert_eq!(layout.remove_window(A), Some("DISPLAY1".to_string()));
    assert_eq!(layout.focused_id("DISPLAY1"), Some(B));
    assert_eq!(layout.remove_window(C), Some("DISPLAY2".to_string()));
}

// Sizes are held in millionths: 100 px is 100_000_000, 50% is 500_000.
#[test]
fn size_change_parsing() {
    assert_eq!(SizeChange::parse("+100"), Some(SizeChange::Delta(100_000_000)));
    assert_eq!(SizeChange::parse("-50"), Some(SizeChange::Delta(-50_000_000)));
    assert_eq!(SizeChange::parse("1000"), Some(SizeChange::Fixed(1_000_000_000)));
    assert_eq!(SizeChange::parse("50%"), Some(SizeChange::Proportion(500_000)));
    assert_eq!(SizeChange::parse("junk"), None);
}

#[test]
fn set_column_width_specs() {
    let mut ws = Workspace::new();
    ws.add_window(A);
    assert!(ws.set_column_width(&SizeChange::Fixed(800_000_000)));
    assert_eq!(ws.columns[0].width, Some(ColumnWidth::Fixed(800_000_000)));
    assert!(ws.set_column_width(&SizeChange::Delta(-100_000_000)));
    assert_eq!(ws.columns[0].width, Some(ColumnWidth::Fixed(700_000_000)));
    assert!(ws.set_column_width(&SizeChange::Proportion(500_000)));
    assert_eq!(ws.columns[0].width, Some(ColumnWidth::Proportion(500_000)));
    ws.toggle_full_width();
    assert!(ws.columns[0].is_full_width);
    assert!(ws.set_column_width(&SizeChange::Fixed(600_000_000)));
    assert!(!ws.columns[0].is_full_width);
}

#[test]
fn maximize_toggles_state() {
    let mut ws = Workspace::new();
    ws.add_window(A);
    assert!(!ws.columns[0].is_maximized);
    assert!(ws.toggle_maximized());
    assert!(ws.columns[0].is_maximized);
    assert!(ws.columns[0].is_full_width);
    assert!(ws.toggle_maximized());
    assert!(!ws.columns[0].is_maximized);
}

#[test]
fn fullscreen_toggles_and_clears_on_removal() {
    let mut ws = Workspace::new();
    ws.add_window(A);
    ws.add_window(B);
    assert!(ws.toggle_fullscreen());
    assert_eq!(ws.fullscreen_id, Some(B));
    assert!(ws.toggle_fullscreen());
    assert_eq!(ws.fullscreen_id, None);

    ws.toggle_fullscreen();
    ws.remove_window(B);
    assert_eq!(ws.fullscreen_id, None, "state cleared with the window");
}

#[test]
fn insert_column_at_positions_and_focuses() {
    let mut ws = Workspace::new();
    ws.add_window(A);
    ws.add_window(B);
    ws.add_window(C);
    ws.remove_window(A);
    ws.insert_column_at(2, A);
    assert_eq!(column_focus(&ws), vec![Some(B), Some(C), Some(A)]);
    assert_eq!(ws.focused_id(), Some(A));
    ws.remove_window(A);
    ws.insert_column_at(99, A);
    assert_eq!(ws.columns.len(), 3);
    assert_eq!(ws.focused_id(), Some(A));
    ws.remove_window(A);
    ws.add_window_to_column(A, 0, 1);
    assert_eq!(ws.columns.len(), 2);
    assert_eq!(tile_ids(&ws, 0), vec![B, A]);
    assert_eq!(ws.focused_id(), Some(A));
}

#[test]
fn focus_column_edges() {
    let mut ws = Workspace::new();
    for i in 1..=4 {
        ws.add_window(i);
    }
    assert!(ws.focus_column_edge(Edge::First));
    assert_eq!(ws.focused_id(), Some(1));
    assert!(ws.focus_column_edge(Edge::Last));
    assert_eq!(ws.focused_id(), Some(4));
    assert!(!ws.focus_column_edge(Edge::Last));
}

#[test]
fn focus_column_index() {
    let mut ws = Workspace::new();
    assert!(!ws.focus_column_index(0));
    for i in 1..=3 {
        ws.add_window(i);
    }
    assert!(!ws.focus_column_index(2));
    assert_eq!(ws.focused_id(), Some(3));
    assert!(ws.focus_column_index(0));
    assert_eq!(ws.focused_id(), Some(1));
    assert!(ws.focus_column_index(1));
    assert_eq!(ws.focused_id(), Some(2));
    assert!(ws.focus_column_index(8));
    assert_eq!(ws.focused_id(), Some(3));
    assert!(!ws.focus_column_index(8));
}

#[test]
fn size_changes_take_exponents() {
    assert_eq!(SizeChange::parse("1e3"), Some(SizeChange::Fixed(1_000_000_000)));
    assert_eq!(SizeChange::parse("+2.5E2"), Some(SizeChange::Delta(250_000_000)));
    assert_eq!(SizeChange::parse("-1e1"), Some(SizeChange::Delta(-10_000_000)));
    assert_eq!(SizeChange::parse("5e1%"), Some(SizeChange::Proportion(500_000)));
    assert_eq!(SizeChange::parse("125e-1"), Some(SizeChange::Fixed(12_500_000)));
    assert_eq!(SizeChange::parse("1.5e+1"), Some(SizeChange::Fixed(15_000_000)));
    assert_eq!(SizeChange::parse(".5e-3"), Some(SizeChange::Fixed(500)));
    assert_eq!(SizeChange::parse("1e"), None);
    assert_eq!(SizeChange::parse("e3"), None);
    assert_eq!(SizeChange::parse("1e3.0"), None);
    assert_eq!(SizeChange::parse("1e-"), None);
}

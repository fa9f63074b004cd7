use yumi_wini::layout::geometry::{
    clamp_view_pos, column_widths, column_xs, compute_workspace_geometry, refresh_view_offset,
    tile_heights, view_offset_centered, view_offset_for_column, view_offset_to_show, view_pos,
    CenterFocused, LayoutParams,
};
use yumi_wini::layout::{ColumnWidth, DirH, Micros, Workspace};

// Lengths are held in millionths of a pixel.
const PX: Micros = 1_000_000;
const W: Micros = 1000 * PX;
const H: Micros = 800 * PX;

fn params() -> LayoutParams {
    LayoutParams {
        gaps: 8 * PX,
        edge_padding: 8 * PX,
        default_column_width: ColumnWidth::Proportion(250_000),
        preset_column_widths: Vec::new(),
        center_focused_column: CenterFocused::OnOverflow,
    }
}

fn area() -> (Micros, Micros, Micros, Micros) {
    (0, 0, W, H)
}

#[test]
fn widths_default_and_overrides() {
    let mut ws = Workspace::new();
    ws.add_window(1);
    ws.add_window(2);
    ws.columns[1].width = Some(ColumnWidth::Fixed(300 * PX));
    let p = params();
    let ws_w = W - 16 * PX;
    let widths = column_widths(&ws, &p, ws_w);
    assert_eq!(widths, vec![ws_w / 4, 300 * PX]);
    let xs = column_xs(&widths, 8 * PX);
    assert_eq!(xs, vec![0, ws_w / 4 + 8 * PX]);
}

#[test]
fn view_pos_is_relative_to_active_column() {
    let mut ws = Workspace::new();
    ws.add_window(1);
    ws.add_window(2);
    let p = params();
    let widths = column_widths(&ws, &p, W);
    let xs = column_xs(&widths, p.gaps);
    assert_eq!(view_pos(&ws, &xs), xs[1]);
    ws.view_offset = -10 * PX;
    assert_eq!(view_pos(&ws, &xs), xs[1] - 10 * PX);
}

#[test]
fn offset_when_already_visible() {
    let off = view_offset_to_show(0, 1000 * PX, 500 * PX, 200 * PX, 8 * PX);
    assert_eq!(off, 0 - 500 * PX);
}

#[test]
fn offset_prefers_less_motion() {
    let off = view_offset_to_show(0, 1000 * PX, 1200 * PX, 200 * PX, 8 * PX);
    assert_eq!(off, -(1000 * PX - 8 * PX - 200 * PX));
}

#[test]
fn wide_column_left_aligns() {
    let off = view_offset_to_show(300 * PX, 500 * PX, 100 * PX, 800 * PX, 8 * PX);
    assert_eq!(off, 0);
}

#[test]
fn centered_offset() {
    assert_eq!(view_offset_centered(1000 * PX, 400 * PX, 200 * PX), 0);
    assert_eq!(view_offset_centered(1000 * PX, 0, 200 * PX), -400 * PX);
}

#[test]
fn clamp_left_aligns_when_content_fits() {
    let xs = vec![0, 260 * PX];
    let widths = vec![250 * PX, 250 * PX];
    let vp = clamp_view_pos(0, &xs, &widths, 1000 * PX);
    assert_eq!(vp, 0);
    let xs2 = vec![0, 2000 * PX];
    let widths2 = vec![500 * PX, 500 * PX];
    assert_eq!(clamp_view_pos(-50 * PX, &xs2, &widths2, 1000 * PX), 0);
    assert_eq!(clamp_view_pos(3000 * PX, &xs2, &widths2, 1000 * PX), 1500 * PX);
}

#[test]
fn tile_heights_split_by_weight() {
    let mut ws = Workspace::new();
    ws.add_window(1);
    ws.add_window_to_column(2, 0, 1);
    let p = params();
    let hs = tile_heights(&ws, 0, &p, 800 * PX);
    let (y0, h0) = hs[0];
    let (y1, h1) = hs[1];
    assert_eq!(y0, 0);
    assert_eq!(h0, (800 * PX - 8 * PX) / 2);
    assert_eq!(y1, h0 + 8 * PX);
    assert_eq!(h1, (800 * PX - 8 * PX) / 2);
}

#[test]
fn full_geometry_three_columns() {
    let mut ws = Workspace::new();
    ws.add_window(1);
    ws.add_window(2);
    ws.add_window(3);
    let p = params();
    let rects = compute_workspace_geometry(&ws, &p, area());
    assert_eq!(rects.len(), 3);
    let content_w = W - 16 * PX;
    let col_w = content_w / 4;
    let total = 3 * col_w + 16 * PX;
    assert!(total < content_w);
    for (i, r) in rects.iter().enumerate() {
        assert_eq!(r.w, (col_w / PX) as i32);
        let expected_x = ((8 * PX + i as Micros * (col_w + 8 * PX)) / PX) as i32;
        assert_eq!(r.x, expected_x);
        assert_eq!(r.y, 8);
        assert_eq!(r.h, (H / PX) as i32 - 16);
    }
}

#[test]
fn overview_scales_and_fits() {
    let mut ws = Workspace::new();
    for i in 1..=8 {
        ws.add_window(i);
    }
    ws.toggle_overview();
    let p = params();
    let rects = compute_workspace_geometry(&ws, &p, area());
    assert_eq!(rects.len(), 8);
    let (w_px, h_px) = ((W / PX) as i32, (H / PX) as i32);
    for r in &rects {
        assert!(r.x >= 0 && r.x + r.w <= w_px, "column fits: {r:?}");
        assert!(r.y >= 0 && r.y + r.h <= h_px);
        assert!(r.h < h_px, "scaled down vertically");
    }
    let mut last_x = i32::MIN;
    for r in &rects {
        assert!(r.x >= last_x);
        last_x = r.x;
    }
    ws.toggle_overview();
    let rects = compute_workspace_geometry(&ws, &p, area());
    assert!(rects.iter().all(|r| r.h == h_px - 16));
}

#[test]
fn maximize_covers_whole_area() {
    let mut ws = Workspace::new();
    ws.add_window(1);
    assert!(ws.toggle_maximized());
    let p = params();
    let rects = compute_workspace_geometry(&ws, &p, area());
    assert_eq!(rects.len(), 1);
    assert_eq!(
        (rects[0].x, rects[0].y, rects[0].w, rects[0].h),
        (0, 0, (W / PX) as i32, (H / PX) as i32)
    );
}

#[test]
fn maximized_column_scrolls_with_view() {
    let mut ws = Workspace::new();
    for i in 1..=3 {
        ws.add_window(i);
    }
    assert!(ws.toggle_maximized());
    let p = params();
    let view_w = W - 16 * PX;
    let (w_px, h_px) = ((W / PX) as i32, (H / PX) as i32);
    refresh_view_offset(&mut ws, &p, view_w, None);
    let rects = compute_workspace_geometry(&ws, &p, area());
    let max_rect = rects.iter().find(|r| r.id == 3).unwrap();
    assert_eq!((max_rect.x, max_rect.y, max_rect.w, max_rect.h), (0, 0, w_px, h_px));

    ws.focus_column(DirH::Left);
    ws.focus_column(DirH::Left);
    refresh_view_offset(&mut ws, &p, view_w, None);
    let rects = compute_workspace_geometry(&ws, &p, area());
    let max_rect = rects.iter().find(|r| r.id == 3).unwrap();
    assert!(max_rect.x > 0, "maximized column scrolled: {max_rect:?}");
    let first = rects.iter().find(|r| r.id == 1).unwrap();
    assert!(first.x >= 0 && first.x + first.w <= w_px, "first column visible: {first:?}");
}

#[test]
fn focus_far_column_scrolls_view() {
    let mut ws = Workspace::new();
    for i in 1..=8 {
        ws.add_window(i);
    }
    let p = params();
    let view_w = W - 16 * PX;
    let widths = column_widths(&ws, &p, view_w);
    let xs = column_xs(&widths, p.gaps);
    for _ in 0..7 {
        ws.focus_column(DirH::Right);
    }
    let prev = Some(6usize);
    let new_off = view_offset_for_column(&ws, &p, view_w, &xs, &widths, 7, prev);
    let vp = xs[7] + new_off;
    assert!(vp <= xs[7], "left edge visible: {vp} <= {}", xs[7]);
    assert!(xs[7] + widths[7] <= vp + view_w, "right edge visible");
}

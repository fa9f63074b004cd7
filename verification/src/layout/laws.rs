//! Properties of the layout operations taken together: what one operation
//! undoes of another, and what navigation leaves alone.
use vstd::prelude::*;

use super::monitor::{
    assign_all, lemma_monitor_exists_first, remove_all, Layout, LayoutModel, MonitorModel,
};
use super::workspace::lemma_find_first;
use super::geometry::{
    available_height, clamped_view_pos, heights_from, mul_div, offset_to_show, sat,
    show_padding, tile_heights_of, weight_sum,
};
use super::workspace::{max_i64, min, MIN_WEIGHT, MIN_WEIGHT_AFTER_DELTA};
use super::{
    div_trunc, ColumnModel, DirH, DirV, SizeChange, Tile, WindowId, WorkspaceModel, ONE,
};

verus! {

/// The opposite horizontal direction.
pub open spec fn opposite_h(dir: DirH) -> DirH {
    match dir {
        DirH::Left => DirH::Right,
        DirH::Right => DirH::Left,
    }
}

/// The opposite vertical direction.
pub open spec fn opposite_v(dir: DirV) -> DirV {
    match dir {
        DirV::Up => DirV::Down,
        DirV::Down => DirV::Up,
    }
}

/// Closing a window right after it was opened gives the workspace back as
/// it was: the same columns, the same focused column and view offset
/// (only the memory of the column to return to is spent).
pub proof fn law_remove_new_window_restores(ws: WorkspaceModel, id: WindowId)
    requires
        ws.wf(),
        ws.columns.len() > 0,
        !ws.contains(id),
        ws.fullscreen_id != Some(id),
    ensures
        ws.add_window(id).remove_window(id) == (WorkspaceModel { prev_active: None, ..ws }, true),
        ws.add_window(id).remove_window(id).0.focused_id() == ws.focused_id(),
{
    let w1 = ws.add_window(id);
    let n = ws.columns.len() as int;
    assert(w1.columns[n] == ColumnModel::single(id));
    assert(w1.is_first(id, n, 0)) by {
        assert forall|c: int| 0 <= c < n implies !(#[trigger] w1.columns[c]).contains(id) by {
            assert(w1.columns[c] == ws.columns[c]);
        }
    }
    lemma_find_first(w1, id, n, 0);
    assert(w1.columns.remove(n) =~= ws.columns);
}

/// A window that leaves takes its fullscreen state with it.
pub proof fn law_remove_clears_fullscreen(ws: WorkspaceModel, id: WindowId)
    requires
        ws.contains(id),
        ws.fullscreen_id == Some(id),
    ensures
        ws.remove_window(id).1,
        ws.remove_window(id).0.fullscreen_id is None,
{
    let c = choose|c: int| 0 <= c < ws.columns.len() && (#[trigger] ws.columns[c]).contains(id);
    lemma_first_column(ws, id, c);
    let ci = choose|ci: int|
        0 <= ci < ws.columns.len() && (#[trigger] ws.columns[ci]).contains(id) && forall|k: int|
            0 <= k < ci ==> !(#[trigger] ws.columns[k]).contains(id);
    let col = ws.columns[ci];
    lemma_first_tile(col, id);
    let ti = choose|ti: int|
        0 <= ti < col.tiles.len() && col.tiles[ti].id == id && forall|k: int|
            0 <= k < ti ==> (#[trigger] col.tiles[k]).id != id;
    assert(ws.is_first(id, ci, ti));
    lemma_find_first(ws, id, ci, ti);
}

/// Some column holding `id` has no column holding `id` before it.
proof fn lemma_first_column(ws: WorkspaceModel, id: WindowId, c: int)
    requires
        0 <= c < ws.columns.len(),
        ws.columns[c].contains(id),
    ensures
        exists|ci: int|
            0 <= ci < ws.columns.len() && (#[trigger] ws.columns[ci]).contains(id) && forall|k: int|
                0 <= k < ci ==> !(#[trigger] ws.columns[k]).contains(id),
    decreases c,
{
    if exists|k: int| 0 <= k < c && (#[trigger] ws.columns[k]).contains(id) {
        let k = choose|k: int| 0 <= k < c && (#[trigger] ws.columns[k]).contains(id);
        lemma_first_column(ws, id, k);
    } else {
        assert(0 <= c < ws.columns.len() && ws.columns[c].contains(id) && forall|k: int|
            0 <= k < c ==> !(#[trigger] ws.columns[k]).contains(id));
    }
}

/// A column holding `id` has a first tile holding it.
proof fn lemma_first_tile(col: ColumnModel, id: WindowId)
    requires
        col.contains(id),
    ensures
        exists|ti: int|
            0 <= ti < col.tiles.len() && col.tiles[ti].id == id && forall|k: int|
                0 <= k < ti ==> (#[trigger] col.tiles[k]).id != id,
{
    let t = choose|t: int| 0 <= t < col.tiles.len() && col.tiles[t].id == id;
    lemma_first_tile_below(col, id, t);
}

proof fn lemma_first_tile_below(col: ColumnModel, id: WindowId, t: int)
    requires
        0 <= t < col.tiles.len(),
        col.tiles[t].id == id,
    ensures
        exists|ti: int|
            0 <= ti < col.tiles.len() && col.tiles[ti].id == id && forall|k: int|
                0 <= k < ti ==> (#[trigger] col.tiles[k]).id != id,
    decreases t,
{
    if exists|k: int| 0 <= k < t && (#[trigger] col.tiles[k]).id == id {
        let k = choose|k: int| 0 <= k < t && (#[trigger] col.tiles[k]).id == id;
        lemma_first_tile_below(col, id, k);
    } else {
        assert(0 <= t < col.tiles.len() && col.tiles[t].id == id && forall|k: int|
            0 <= k < t ==> (#[trigger] col.tiles[k]).id != id);
    }
}

/// Focusing a window that the workspace holds makes it the focused window.
pub proof fn law_focus_window_focuses(ws: WorkspaceModel, id: WindowId)
    requires
        ws.contains(id),
    ensures
        ws.focus_window(id).1,
        ws.focus_window(id).0.focused_id() == Some(id),
{
    let c = choose|c: int| 0 <= c < ws.columns.len() && (#[trigger] ws.columns[c]).contains(id);
    lemma_first_column(ws, id, c);
    let ci = choose|ci: int|
        0 <= ci < ws.columns.len() && (#[trigger] ws.columns[ci]).contains(id) && forall|k: int|
            0 <= k < ci ==> !(#[trigger] ws.columns[k]).contains(id);
    let col = ws.columns[ci];
    lemma_first_tile(col, id);
    let ti = choose|ti: int|
        0 <= ti < col.tiles.len() && col.tiles[ti].id == id && forall|k: int|
            0 <= k < ti ==> (#[trigger] col.tiles[k]).id != id;
    assert(ws.is_first(id, ci, ti));
    lemma_find_first(ws, id, ci, ti);
}

/// Windowed fullscreen toggles back: toggling twice restores the
/// workspace when nothing or the focused window was fullscreen.
pub proof fn law_toggle_fullscreen_twice(ws: WorkspaceModel)
    requires
        ws.focused_id() is Some,
        ws.fullscreen_id is None || ws.fullscreen_id == ws.focused_id(),
    ensures
        ws.toggle_fullscreen().0.toggle_fullscreen() == (ws, true),
{
}

/// Overview mode toggles back.
pub proof fn law_toggle_overview_twice(ws: WorkspaceModel)
    ensures
        ws.toggle_overview().0.toggle_overview() == (ws, true),
{
}

/// Full width toggles back.
pub proof fn law_toggle_full_width_twice(ws: WorkspaceModel)
    requires
        ws.wf(),
        ws.columns.len() > 0,
    ensures
        ws.toggle_full_width().0.toggle_full_width() == (ws, true),
{
    let a = ws.active_column_idx;
    let w1 = ws.toggle_full_width().0;
    assert(w1.toggle_full_width().0.columns =~= ws.columns);
}

/// Maximize toggles back to the column's flags when full width followed
/// the maximized state (as every maximize toggle leaves it).
pub proof fn law_toggle_maximized_twice(ws: WorkspaceModel)
    requires
        ws.wf(),
        ws.columns.len() > 0,
        ws.columns[ws.active_column_idx].is_full_width == ws.columns[ws.active_column_idx].is_maximized,
    ensures
        ws.toggle_maximized().0.toggle_maximized() == (ws, true),
{
    let w1 = ws.toggle_maximized().0;
    assert(w1.toggle_maximized().0.columns =~= ws.columns);
}

/// Moving a column one step and back restores the workspace.
pub proof fn law_move_column_back(ws: WorkspaceModel, dir: DirH)
    requires
        ws.wf(),
        ws.move_column(dir).1,
    ensures
        ws.move_column(dir).0.move_column(opposite_h(dir)) == (ws, true),
{
    let w1 = ws.move_column(dir).0;
    let a = ws.active_column_idx;
    let j = w1.active_column_idx;
    assert(WorkspaceModel::swap(WorkspaceModel::swap(ws.columns, a, j), j, a) =~= ws.columns);
}

/// Moving a tile one step and back restores the workspace.
pub proof fn law_move_tile_back(ws: WorkspaceModel, dir: DirV)
    requires
        ws.wf(),
        ws.move_tile(dir).1,
    ensures
        ws.move_tile(dir).0.move_tile(opposite_v(dir)) == (ws, true),
{
    let a = ws.active_column_idx;
    let col = ws.columns[a];
    assert(col.wf());
    let w1 = ws.move_tile(dir).0;
    let col1 = w1.columns[a];
    let t = col.active_tile_idx;
    let j = col1.active_tile_idx;
    assert(WorkspaceModel::swap(WorkspaceModel::swap(col.tiles, t, j), j, t) =~= col.tiles);
    assert(w1.move_tile(opposite_v(dir)).0.columns =~= ws.columns);
}

/// Moving column focus one step and back returns to the same column; the
/// columns themselves never change.
pub proof fn law_focus_column_back(ws: WorkspaceModel, dir: DirH)
    requires
        ws.wf(),
        ws.focus_column(dir).1,
    ensures
        ws.focus_column(dir).0.columns == ws.columns,
        ws.focus_column(dir).0.focus_column(opposite_h(dir)).1,
        ws.focus_column(dir).0.focus_column(opposite_h(dir)).0.active_column_idx
            == ws.active_column_idx,
        ws.focus_column(dir).0.focus_column(opposite_h(dir)).0.columns == ws.columns,
{
}

/// Moving tile focus keeps every window where it is: the window order is
/// unchanged.
pub proof fn law_focus_tile_keeps_windows(ws: WorkspaceModel, dir: DirV)
    ensures
        ws.focus_tile(dir).0.ids() == ws.ids(),
{
    let w1 = ws.focus_tile(dir).0;
    assert(w1.columns.map_values(|c: ColumnModel| c.ids()) =~= ws.columns.map_values(
        |c: ColumnModel| c.ids(),
    )) by {
        assert forall|i: int| 0 <= i < ws.columns.len() implies #[trigger] w1.columns[i].ids()
            == ws.columns[i].ids() by {
            assert(w1.columns[i].ids() =~= ws.columns[i].ids());
        }
    }
}

/// Switching to the workspace that is already active changes nothing.
pub proof fn law_switch_workspace_again(m: MonitorModel, idx: int)
    ensures
        m.switch_workspace(idx).0.switch_workspace(idx) == (m.switch_workspace(idx).0, false),
{
}

/// Showing a column that is narrower than the view brings it fully into
/// view: the new view position (the column's x plus the offset) is at or
/// left of the column, and the view's right edge at or right of its right
/// edge.  (Quantities far from the `i64` limits, where nothing saturates.)
pub proof fn law_shown_column_is_visible(cur_vp: i64, view_width: i64, col_x: i64, col_width: i64, gaps: i64)
    requires
        0 <= col_width < view_width <= 0x1000_0000_0000_0000,
        0 <= gaps <= 0x1000_0000_0000_0000,
        -0x1000_0000_0000_0000 <= cur_vp <= 0x1000_0000_0000_0000,
        -0x1000_0000_0000_0000 <= col_x <= 0x1000_0000_0000_0000,
    ensures
        ({
            let vp = col_x + offset_to_show(cur_vp, view_width, col_x, col_width, gaps);
            vp <= col_x && col_x + col_width <= vp + view_width
        }),
{
    let pad = show_padding(view_width, col_width, gaps);
    assert(0 <= pad && 2 * pad <= view_width - col_width);
}

/// A column at least as wide as the view is shown left-aligned.
pub proof fn law_wide_column_left_aligned(cur_vp: i64, view_width: i64, col_x: i64, col_width: i64, gaps: i64)
    requires
        view_width <= col_width,
    ensures
        offset_to_show(cur_vp, view_width, col_x, col_width, gaps) == 0,
{
}

/// The view never scrolls past the columns: when they do not fit, the
/// clamped position lies between the first column's left edge and the
/// last column's right edge less the view width; when they fit, the first
/// column sits at the left edge.
pub proof fn law_clamped_view_stays_on_columns(vp: i64, xs: Seq<i64>, widths: Seq<i64>, view_width: i64)
    requires
        xs.len() > 0,
        widths.len() > 0,
        0 <= view_width,
        -0x1000_0000_0000_0000 <= xs[0] <= 0x1000_0000_0000_0000,
        -0x1000_0000_0000_0000 <= xs.last() <= 0x1000_0000_0000_0000,
        0 <= widths.last() <= 0x1000_0000_0000_0000,
        view_width <= 0x1000_0000_0000_0000,
    ensures
        ({
            let r = clamped_view_pos(vp, xs, widths, view_width);
            let right = xs.last() + widths.last();
            if right - xs[0] <= view_width {
                r == xs[0]
            } else {
                xs[0] <= r <= right - view_width
            }
        }),
{
}

/// The height of a tile `j >= k` that is not the last of its column, in
/// the heights of tiles `k..`: its own weight's share of `avail`, at least
/// a pixel.
proof fn lemma_height_of_tile(
    tiles: Seq<Tile>,
    gaps: i64,
    avail: i64,
    total: i64,
    k: int,
    y: i64,
    used: i64,
    j: int,
)
    requires
        0 <= k <= j,
        j + 1 < tiles.len(),
        total > 0,
    ensures
        heights_from(tiles, gaps, avail, total, k, y, used)[j - k].1 == max_i64(
            mul_div(avail as int, tiles[j].height_weight as int, total as int),
            ONE,
        ),
    decreases j - k,
{
    if k < j {
        let last = k == tiles.len() - 1;
        let share = mul_div(avail as int, tiles[k].height_weight as int, total as int);
        let h = max_i64(share, ONE);
        lemma_height_of_tile(tiles, gaps, avail, total, k + 1, sat(y + h + gaps), sat(used + share), j);
        lemma_heights_from(tiles, gaps, avail, total, k + 1, sat(y + h + gaps), sat(used + share), j);
    }
}

/// Each tile but the last of a column gets its own weight's share of the
/// height the tiles share: `avail * weight / total weight`, rounded toward
/// zero, and at least a pixel. So a tile whose weight is raised grows
/// relative to the others, and tiles of equal weight are equally high.
pub proof fn law_tile_height_follows_its_weight(tiles: Seq<Tile>, gaps: i64, area_h: i64, i: int)
    requires
        0 <= i,
        i + 1 < tiles.len(),
        weight_sum(tiles, tiles.len() as int) > 0,
    ensures
        ({
            let avail = available_height(tiles.len() as int, gaps, area_h);
            let total = weight_sum(tiles, tiles.len() as int);
            let h = tile_heights_of(tiles, gaps, area_h)[i].1;
            &&& h == max_i64(mul_div(avail as int, tiles[i].height_weight as int, total as int), ONE)
            &&& (ONE <= div_trunc(avail * tiles[i].height_weight, total as int) <= i64::MAX ==> h as int
                == div_trunc(avail * tiles[i].height_weight, total as int))
        }),
        forall|j: int|
            0 <= j < tiles.len() - 1 && tiles[j].height_weight == tiles[i].height_weight
                ==> tile_heights_of(tiles, gaps, area_h)[j].1 == tile_heights_of(tiles, gaps, area_h)[i].1,
{
    let avail = available_height(tiles.len() as int, gaps, area_h);
    let total = weight_sum(tiles, tiles.len() as int);
    lemma_height_of_tile(tiles, gaps, avail, total, 0, 0, 0, i);
    assert forall|j: int|
        0 <= j < tiles.len() - 1 && tiles[j].height_weight == tiles[i].height_weight
            implies tile_heights_of(tiles, gaps, area_h)[j].1 == tile_heights_of(tiles, gaps, area_h)[i].1 by {
        lemma_height_of_tile(tiles, gaps, avail, total, 0, 0, 0, j);
    }
}

/// Tiles of a column are stacked top to bottom: each is at least a pixel
/// high and the next one starts a gap below it (short of saturation).
pub proof fn law_tiles_stack(tiles: Seq<Tile>, gaps: i64, area_h: i64, i: int)
    requires
        0 <= i,
        i + 1 < tiles.len(),
    ensures
        ({
            let hs = tile_heights_of(tiles, gaps, area_h);
            &&& hs.len() == tiles.len()
            &&& hs[i].1 >= ONE
            &&& hs[i + 1].0 == sat(hs[i].0 + hs[i].1 + gaps)
        }),
{
    let avail = available_height(tiles.len() as int, gaps, area_h);
    let total = weight_sum(tiles, tiles.len() as int);
    lemma_heights_from(tiles, gaps, avail, total, 0, 0, 0, i);
}

/// The shape of [`heights_from`]: one entry per tile from `k` on, each at
/// least a pixel high, each next one a gap below the previous.
proof fn lemma_heights_from(
    tiles: Seq<Tile>,
    gaps: i64,
    avail: i64,
    total: i64,
    k: int,
    y: i64,
    used: i64,
    i: int,
)
    requires
        0 <= k <= tiles.len(),
    ensures
        heights_from(tiles, gaps, avail, total, k, y, used).len() == tiles.len() - k,
        k <= i && i + 1 < tiles.len() ==> ({
            let hs = heights_from(tiles, gaps, avail, total, k, y, used);
            &&& hs[i - k].1 >= ONE
            &&& hs[i - k + 1].0 == sat(hs[i - k].0 + hs[i - k].1 + gaps)
        }),
    decreases tiles.len() - k,
{
    if k < tiles.len() {
        let last = k == tiles.len() - 1;
        let share = if last {
            sat(avail - used)
        } else if total > 0 {
            mul_div(avail as int, tiles[k].height_weight as int, total as int)
        } else {
            0
        };
        let h = max_i64(share, ONE);
        let ny = sat(y + h + gaps);
        let nused = if last {
            used
        } else {
            sat(used + share)
        };
        lemma_heights_from(tiles, gaps, avail, total, k + 1, ny, nused, i);
        let rest = heights_from(tiles, gaps, avail, total, k + 1, ny, nused);
        if k + 1 < tiles.len() {
            lemma_heights_from(tiles, gaps, avail, total, k + 1, ny, nused, k + 1);
            assert(rest.len() > 0);
            assert(rest[0].0 == ny);
        }
    }
}

/// A window added to a monitor of the layout is found there again:
/// removing it reports that monitor (when no monitor recorded the window
/// before).
pub proof fn law_remove_added_window_reports_monitor(layout: Layout, device: Seq<char>, id: WindowId)
    requires
        layout@.wf(),
        forall|i: int|
            0 <= i < layout@.monitors.len() ==> !(#[trigger] layout@.monitors[i]).window_map.contains_key(
                id,
            ),
    ensures
        layout@.add_window(device, id).remove_window(id).1 == Some(device),
{
    let l = layout@;
    let l1 = l.add_monitor(device);
    if l.monitor_index(device) is None {
        lemma_monitor_exists_first(l1, device, l.monitors.len() as int);
    }
    let k = l1.monitor_index(device).unwrap();
    assert(l1.is_first_monitor(device, k)) by {
        assert(exists|i: int| l1.is_first_monitor(device, i));
    }
    assert(l1.monitors[k].wf() && l1.monitors[k].active_workspace_idx <= usize::MAX) by {
        if k < l.monitors.len() {
            assert(l1.monitors[k] == l.monitors[k]);
            assert(l.monitors[k] == layout.monitors@[k]@);
        }
    }
    assert forall|i: int| 0 <= i < l1.monitors.len() implies !(#[trigger] l1.monitors[i]).window_map.contains_key(id) by {
        if i < l.monitors.len() {
            assert(l1.monitors[i] == l.monitors[i]);
        }
    }
    let l2 = l.add_window(device, id);
    assert(l2.monitors == l1.monitors.update(k, l1.monitors[k].add_window(id)));
    lemma_remove_skips(l2, id, 0, k);
    let m = l2.monitors[k];
    let w = m.window_map[id] as int;
    let m1 = l1.monitors[k];
    assert(w == m1.active_workspace_idx);
    let ws = m1.active_workspace().add_window(id);
    assert(m.workspaces[w] == ws);
    let n = m1.active_workspace().columns.len() as int;
    assert(ws.columns[n] == ColumnModel::single(id));
    assert(ws.columns[n].contains(id)) by {
        assert(ws.columns[n].tiles[0].id == id);
    }
    lemma_first_column(ws, id, n);
    let ci = choose|ci: int|
        0 <= ci < ws.columns.len() && (#[trigger] ws.columns[ci]).contains(id) && forall|j: int|
            0 <= j < ci ==> !(#[trigger] ws.columns[j]).contains(id);
    let col = ws.columns[ci];
    lemma_first_tile(col, id);
    let ti = choose|ti: int|
        0 <= ti < col.tiles.len() && col.tiles[ti].id == id && forall|j: int|
            0 <= j < ti ==> (#[trigger] col.tiles[j]).id != id;
    assert(ws.is_first(id, ci, ti));
    lemma_find_first(ws, id, ci, ti);
}

/// Monitors `j..k` that do not record `id` pass the removal on unchanged.
proof fn lemma_remove_skips(l: LayoutModel, id: WindowId, j: int, k: int)
    requires
        0 <= j <= k < l.monitors.len(),
        forall|i: int| j <= i < k ==> !(#[trigger] l.monitors[i]).window_map.contains_key(id),
    ensures
        l.remove_window_from(id, j) == l.remove_window_from(id, k),
    decreases k - j,
{
    if j < k {
        assert(l.monitors[j].remove_window(id) == (l.monitors[j], false));
        assert(LayoutModel { monitors: l.monitors.update(j, l.monitors[j]) } =~= l);
        lemma_remove_skips(l, id, j + 1, k);
    }
}

// --- no operation loses or duplicates a window ----------------------------------

/// The sum of a sequence of integers.
pub open spec fn sum(s: Seq<int>) -> int
    decreases s.len(),
{
    if s.len() == 0 {
        0
    } else {
        sum(s.drop_last()) + s.last()
    }
}

/// How many tiles of `tiles` hold window `id`.
pub open spec fn tile_count(tiles: Seq<Tile>, id: WindowId) -> int {
    sum(tiles.map_values(|t: Tile| if t.id == id { 1int } else { 0int }))
}

/// How many tiles of the columns `cols` hold window `id`.
pub open spec fn window_count(cols: Seq<ColumnModel>, id: WindowId) -> int {
    sum(cols.map_values(|c: ColumnModel| tile_count(c.tiles, id)))
}

proof fn lemma_sum_update(s: Seq<int>, i: int, v: int)
    requires
        0 <= i < s.len(),
    ensures
        sum(s.update(i, v)) == sum(s) - s[i] + v,
    decreases s.len(),
{
    let t = s.update(i, v);
    if i == s.len() - 1 {
        assert(t.drop_last() =~= s.drop_last());
    } else {
        assert(t.drop_last() =~= s.drop_last().update(i, v));
        lemma_sum_update(s.drop_last(), i, v);
    }
}

proof fn lemma_sum_remove(s: Seq<int>, i: int)
    requires
        0 <= i < s.len(),
    ensures
        sum(s.remove(i)) == sum(s) - s[i],
    decreases s.len(),
{
    let t = s.remove(i);
    if i == s.len() - 1 {
        assert(t =~= s.drop_last());
    } else {
        assert(t.drop_last() =~= s.drop_last().remove(i));
        lemma_sum_remove(s.drop_last(), i);
    }
}

proof fn lemma_sum_insert(s: Seq<int>, i: int, v: int)
    requires
        0 <= i <= s.len(),
    ensures
        sum(s.insert(i, v)) == sum(s) + v,
    decreases s.len(),
{
    let t = s.insert(i, v);
    if i == s.len() {
        assert(t.drop_last() =~= s);
    } else {
        assert(t.drop_last() =~= s.drop_last().insert(i, v));
        lemma_sum_insert(s.drop_last(), i, v);
    }
}

pub(crate) proof fn lemma_tiles_update(tiles: Seq<Tile>, i: int, t: Tile, id: WindowId)
    requires
        0 <= i < tiles.len(),
    ensures
        tile_count(tiles.update(i, t), id) == tile_count(tiles, id) - (if tiles[i].id == id { 1int } else { 0int }) + (if t.id == id { 1int } else { 0int }),
{
    let f = |x: Tile| if x.id == id { 1int } else { 0int };
    assert(tiles.update(i, t).map_values(f) =~= tiles.map_values(f).update(i, f(t)));
    lemma_sum_update(tiles.map_values(f), i, f(t));
}

proof fn lemma_tiles_remove(tiles: Seq<Tile>, i: int, id: WindowId)
    requires
        0 <= i < tiles.len(),
    ensures
        tile_count(tiles.remove(i), id) == tile_count(tiles, id) - (if tiles[i].id == id { 1int } else { 0int }),
{
    let f = |x: Tile| if x.id == id { 1int } else { 0int };
    assert(tiles.remove(i).map_values(f) =~= tiles.map_values(f).remove(i));
    lemma_sum_remove(tiles.map_values(f), i);
}

proof fn lemma_tiles_insert(tiles: Seq<Tile>, i: int, t: Tile, id: WindowId)
    requires
        0 <= i <= tiles.len(),
    ensures
        tile_count(tiles.insert(i, t), id) == tile_count(tiles, id) + (if t.id == id { 1int } else { 0int }),
{
    let f = |x: Tile| if x.id == id { 1int } else { 0int };
    assert(tiles.insert(i, t).map_values(f) =~= tiles.map_values(f).insert(i, f(t)));
    lemma_sum_insert(tiles.map_values(f), i, f(t));
}

/// A lone tile holds its own window once.
proof fn lemma_single_tile(t: Tile, id: WindowId)
    ensures
        tile_count(seq![t], id) == (if t.id == id { 1int } else { 0int }),
{
    let e = Seq::<Tile>::empty();
    assert(e.map_values(|x: Tile| if x.id == id { 1int } else { 0int }) =~= Seq::<int>::empty());
    lemma_tiles_insert(e, 0, t, id);
    assert(e.insert(0, t) =~= seq![t]);
}

pub(crate) proof fn lemma_cols_update(cols: Seq<ColumnModel>, i: int, c: ColumnModel, id: WindowId)
    requires
        0 <= i < cols.len(),
    ensures
        window_count(cols.update(i, c), id) == window_count(cols, id) - tile_count(cols[i].tiles, id)
            + tile_count(c.tiles, id),
{
    let f = |x: ColumnModel| tile_count(x.tiles, id);
    assert(cols.update(i, c).map_values(f) =~= cols.map_values(f).update(i, f(c)));
    lemma_sum_update(cols.map_values(f), i, f(c));
}

proof fn lemma_cols_remove(cols: Seq<ColumnModel>, i: int, id: WindowId)
    requires
        0 <= i < cols.len(),
    ensures
        window_count(cols.remove(i), id) == window_count(cols, id) - tile_count(cols[i].tiles, id),
{
    let f = |x: ColumnModel| tile_count(x.tiles, id);
    assert(cols.remove(i).map_values(f) =~= cols.map_values(f).remove(i));
    lemma_sum_remove(cols.map_values(f), i);
}

proof fn lemma_cols_insert(cols: Seq<ColumnModel>, i: int, c: ColumnModel, id: WindowId)
    requires
        0 <= i <= cols.len(),
    ensures
        window_count(cols.insert(i, c), id) == window_count(cols, id) + tile_count(c.tiles, id),
{
    let f = |x: ColumnModel| tile_count(x.tiles, id);
    assert(cols.insert(i, c).map_values(f) =~= cols.map_values(f).insert(i, f(c)));
    lemma_sum_insert(cols.map_values(f), i, f(c));
}

/// Reordering columns keeps every window: moving a column leaves the
/// number of tiles holding each window unchanged.
pub proof fn law_move_column_keeps_windows(ws: WorkspaceModel, dir: DirH, id: WindowId)
    requires
        ws.wf(),
    ensures
        window_count(ws.move_column(dir).0.columns, id) == window_count(ws.columns, id),
{
    if ws.move_column(dir).1 {
        let a = ws.active_column_idx;
        let j = ws.move_column(dir).0.active_column_idx;
        let c = ws.columns;
        lemma_cols_update(c, a, c[j], id);
        lemma_cols_update(c.update(a, c[j]), j, c[a], id);
    }
}

/// Reordering tiles keeps every window.
pub proof fn law_move_tile_keeps_windows(ws: WorkspaceModel, dir: DirV, id: WindowId)
    requires
        ws.wf(),
    ensures
        window_count(ws.move_tile(dir).0.columns, id) == window_count(ws.columns, id),
{
    if ws.move_tile(dir).1 {
        let a = ws.active_column_idx;
        let col = ws.columns[a];
        assert(col.wf());
        let t = col.active_tile_idx;
        let j = ws.move_tile(dir).0.columns[a].active_tile_idx;
        lemma_tiles_update(col.tiles, t, col.tiles[j], id);
        lemma_tiles_update(col.tiles.update(t, col.tiles[j]), j, col.tiles[t], id);
        let moved = ws.move_tile(dir).0.columns[a];
        lemma_cols_update(ws.columns, a, moved, id);
    }
}

/// Moving a window into the neighboring column keeps every window.
pub proof fn law_move_tile_across_keeps_windows(ws: WorkspaceModel, dir: DirH, id: WindowId)
    requires
        ws.wf(),
    ensures
        window_count(ws.move_tile_across(dir).0.columns, id) == window_count(ws.columns, id),
{
    if ws.move_tile_across(dir).1 {
        let ci = ws.active_column_idx;
        let col = ws.columns[ci];
        assert(col.wf());
        let ti = col.active_tile_idx;
        let ni = ws.neighbor(ci, dir).unwrap();
        let tile = col.tiles[ti];
        let rest = col.tiles.remove(ti);
        lemma_tiles_remove(col.tiles, ti, id);
        let cols = if rest.len() == 0 {
            ws.columns.remove(ci)
        } else {
            ws.columns.update(
                ci,
                ColumnModel { tiles: rest, active_tile_idx: min(col.active_tile_idx, rest.len() - 1), ..col },
            )
        };
        if rest.len() == 0 {
            lemma_cols_remove(ws.columns, ci, id);
            assert(tile_count(rest, id) == 0) by {
                assert(rest.map_values(|t: Tile| if t.id == id { 1int } else { 0int }) =~= Seq::<int>::empty());
            }
        } else {
            lemma_cols_update(
                ws.columns,
                ci,
                ColumnModel { tiles: rest, active_tile_idx: min(col.active_tile_idx, rest.len() - 1), ..col },
                id,
            );
        }
        let tgt = if rest.len() == 0 && ni > ci {
            ni - 1
        } else {
            ni
        };
        let target = cols[tgt];
        let at = match dir {
            DirH::Left => target.tiles.len() as int,
            DirH::Right => 0,
        };
        lemma_tiles_insert(target.tiles, at, tile, id);
        lemma_cols_update(
            cols,
            tgt,
            ColumnModel { tiles: target.tiles.insert(at, tile), active_tile_idx: at, ..target },
            id,
        );
    }
}

/// Consuming a window into the neighboring column or expelling it into a
/// column of its own keeps that window focused. It fails exactly when the
/// workspace has no column, or when the focused window is alone in its
/// column and no column lies on that side; a failed call changes nothing.
pub proof fn law_consume_or_expel_keeps_focus(ws: WorkspaceModel, dir: DirH)
    requires
        ws.wf(),
    ensures
        ws.consume_or_expel(dir).0.focused_id() == ws.focused_id(),
        !ws.consume_or_expel(dir).1 <==> (ws.columns.len() == 0 || (
        ws.columns[ws.active_column_idx].tiles.len() == 1 && ws.neighbor(
            ws.active_column_idx,
            dir,
        ) is None)),
        !ws.consume_or_expel(dir).1 ==> ws.consume_or_expel(dir).0 == ws,
{
    if ws.columns.len() > 0 {
        let ci = ws.active_column_idx;
        let col = ws.columns[ci];
        assert(col.wf());
        let ti = col.active_tile_idx;
        if col.tiles.len() == 1 {
            if let Some(n) = ws.neighbor(ci, dir) {
                let cols = ws.columns.remove(ci);
                let t = match dir {
                    DirH::Left => ci - 1,
                    DirH::Right => ci,
                };
                let target = cols[t];
                let tiles = target.tiles.push(col.tiles[0]);
                assert(tiles[tiles.len() - 1] == col.tiles[0]);
            }
        } else {
            let at = match dir {
                DirH::Left => ci,
                DirH::Right => ci + 1,
            };
            let rest = col.tiles.remove(ti);
            let kept = ColumnModel {
                tiles: rest,
                active_tile_idx: min(col.active_tile_idx, rest.len() - 1),
                ..col
            };
            let fresh = ColumnModel {
                tiles: seq![col.tiles[ti]],
                active_tile_idx: 0,
                width: col.width,
                is_full_width: false,
                is_maximized: false,
            };
            assert(ws.columns.update(ci, kept).insert(at, fresh)[at] == fresh);
        }
    }
}

/// Consuming a window into a column or expelling it into its own keeps
/// every window.
pub proof fn law_consume_or_expel_keeps_windows(ws: WorkspaceModel, dir: DirH, id: WindowId)
    requires
        ws.wf(),
    ensures
        window_count(ws.consume_or_expel(dir).0.columns, id) == window_count(ws.columns, id),
{
    if ws.consume_or_expel(dir).1 {
        let ci = ws.active_column_idx;
        let col = ws.columns[ci];
        assert(col.wf());
        let ti = col.active_tile_idx;
        if col.tiles.len() == 1 {
            let cols = ws.columns.remove(ci);
            lemma_cols_remove(ws.columns, ci, id);
            let t = match dir {
                DirH::Left => ci - 1,
                DirH::Right => ci,
            };
            let target = cols[t];
            let tiles = target.tiles.push(col.tiles[0]);
            lemma_tiles_insert(target.tiles, target.tiles.len() as int, col.tiles[0], id);
            assert(target.tiles.insert(target.tiles.len() as int, col.tiles[0]) =~= tiles);
            assert(tile_count(col.tiles, id) == (if col.tiles[0].id == id { 1int } else { 0int })) by {
                lemma_tiles_remove(col.tiles, 0, id);
                assert(col.tiles.remove(0).map_values(|x: Tile| if x.id == id { 1int } else { 0int }) =~= Seq::<int>::empty());
            }
            lemma_cols_update(
                cols,
                t,
                ColumnModel {
                    tiles,
                    active_tile_idx: tiles.len() - 1,
                    width: if target.width is None {
                        col.width
                    } else {
                        target.width
                    },
                    ..target
                },
                id,
            );
        } else {
            let rest = col.tiles.remove(ti);
            let kept = ColumnModel {
                tiles: rest,
                active_tile_idx: min(col.active_tile_idx, rest.len() - 1),
                ..col
            };
            let fresh = ColumnModel {
                tiles: seq![col.tiles[ti]],
                active_tile_idx: 0,
                width: col.width,
                is_full_width: false,
                is_maximized: false,
            };
            let at = match dir {
                DirH::Left => ci,
                DirH::Right => ci + 1,
            };
            lemma_tiles_remove(col.tiles, ti, id);
            lemma_cols_update(ws.columns, ci, kept, id);
            lemma_cols_insert(ws.columns.update(ci, kept), at, fresh, id);
            lemma_single_tile(col.tiles[ti], id);
        }
    }
}

/// Adding a window adds exactly one tile holding it and leaves every
/// other window's count alone.
pub proof fn law_add_window_adds_one(ws: WorkspaceModel, id: WindowId, x: WindowId)
    ensures
        window_count(ws.add_window(id).columns, x) == window_count(ws.columns, x) + (if x == id {
            1int
        } else {
            0int
        }),
{
    let c = ColumnModel::single(id);
    lemma_cols_insert(ws.columns, ws.columns.len() as int, c, x);
    assert(ws.columns.insert(ws.columns.len() as int, c) =~= ws.columns.push(c));
    lemma_single_tile(Tile::spec_new(id), x);
}

/// Removing a window the workspace holds removes exactly one tile holding
/// it and leaves every other window's count alone.
pub proof fn law_remove_window_removes_one(ws: WorkspaceModel, id: WindowId, x: WindowId)
    requires
        ws.contains(id),
    ensures
        ws.remove_window(id).1,
        window_count(ws.remove_window(id).0.columns, x) == window_count(ws.columns, x) - (if x == id {
            1int
        } else {
            0int
        }),
{
    let c = choose|c: int| 0 <= c < ws.columns.len() && (#[trigger] ws.columns[c]).contains(id);
    lemma_first_column(ws, id, c);
    let ci = choose|ci: int|
        0 <= ci < ws.columns.len() && (#[trigger] ws.columns[ci]).contains(id) && forall|k: int|
            0 <= k < ci ==> !(#[trigger] ws.columns[k]).contains(id);
    let col = ws.columns[ci];
    lemma_first_tile(col, id);
    let ti = choose|ti: int|
        0 <= ti < col.tiles.len() && col.tiles[ti].id == id && forall|k: int|
            0 <= k < ti ==> (#[trigger] col.tiles[k]).id != id;
    assert(ws.is_first(id, ci, ti));
    lemma_find_first(ws, id, ci, ti);
    let tiles = col.tiles.remove(ti);
    lemma_tiles_remove(col.tiles, ti, x);
    if tiles.len() == 0 {
        lemma_cols_remove(ws.columns, ci, x);
        assert(tiles.map_values(|t: Tile| if t.id == x { 1int } else { 0int }) =~= Seq::<int>::empty());
    } else {
        lemma_cols_update(
            ws.columns,
            ci,
            ColumnModel { tiles, active_tile_idx: min(col.active_tile_idx, tiles.len() - 1), ..col },
            x,
        );
    }
}

/// How many tiles of the workspaces `wss` hold window `id`.
pub open spec fn workspaces_count(wss: Seq<WorkspaceModel>, id: WindowId) -> int {
    sum(wss.map_values(|w: WorkspaceModel| window_count(w.columns, id)))
}

proof fn lemma_sum_concat(a: Seq<int>, b: Seq<int>)
    ensures
        sum(a + b) == sum(a) + sum(b),
    decreases b.len(),
{
    if b.len() == 0 {
        assert(a + b =~= a);
    } else {
        assert((a + b).drop_last() =~= a + b.drop_last());
        lemma_sum_concat(a, b.drop_last());
    }
}

proof fn lemma_sum_zeros(s: Seq<int>)
    requires
        forall|i: int| 0 <= i < s.len() ==> s[i] == 0,
    ensures
        sum(s) == 0,
    decreases s.len(),
{
    if s.len() > 0 {
        lemma_sum_zeros(s.drop_last());
    }
}

/// Growing the workspace list adds only empty workspaces.
pub(crate) proof fn lemma_grown_count(m: MonitorModel, count: int, id: WindowId)
    ensures
        workspaces_count(m.grown(count), id) == workspaces_count(m.workspaces, id),
{
    if m.workspaces.len() < count {
        let extra = Seq::new(
            (count - m.workspaces.len()) as nat,
            |i: int| WorkspaceModel::empty(),
        );
        let f = |w: WorkspaceModel| window_count(w.columns, id);
        assert((m.workspaces + extra).map_values(f) =~= m.workspaces.map_values(f) + extra.map_values(f));
        lemma_sum_concat(m.workspaces.map_values(f), extra.map_values(f));
        assert forall|i: int| 0 <= i < extra.map_values(f).len() implies extra.map_values(f)[i] == 0 by {
            assert(WorkspaceModel::empty().columns.map_values(|c: ColumnModel| tile_count(c.tiles, id)) =~= Seq::<int>::empty());
        }
        lemma_sum_zeros(extra.map_values(f));
    }
}

pub(crate) proof fn lemma_workspaces_update(wss: Seq<WorkspaceModel>, i: int, w: WorkspaceModel, id: WindowId)
    requires
        0 <= i < wss.len(),
    ensures
        workspaces_count(wss.update(i, w), id) == workspaces_count(wss, id) - window_count(
            wss[i].columns,
            id,
        ) + window_count(w.columns, id),
{
    let f = |x: WorkspaceModel| window_count(x.columns, id);
    assert(wss.update(i, w).map_values(f) =~= wss.map_values(f).update(i, f(w)));
    lemma_sum_update(wss.map_values(f), i, f(w));
}

/// Moving the focused window to another workspace keeps every window on
/// the monitor: each window is held by as many tiles as before.
pub proof fn law_move_window_to_workspace_keeps_windows(m: MonitorModel, idx: int, focus: bool, x: WindowId)
    requires
        m.wf(),
        0 <= idx,
    ensures
        workspaces_count(m.move_focused_window_to_workspace(idx, focus).0.workspaces, x)
            == workspaces_count(m.workspaces, x),
{
    if let Some(id) = m.active_workspace().focused_id() {
        if idx != m.active_workspace_idx {
            let a = m.active_workspace_idx;
            let w = m.active_workspace();
            let col = w.columns[w.active_column_idx];
            assert(w.contains(id)) by {
                assert(col.tiles[col.active_tile_idx].id == id);
                assert(w.columns[w.active_column_idx].contains(id));
            }
            let ws = m.grown(idx + 1);
            lemma_grown_count(m, idx + 1, x);
            assert(ws[a] == w);
            law_remove_window_removes_one(w, id, x);
            let ws2 = ws.update(a, ws[a].remove_window(id).0);
            lemma_workspaces_update(ws, a, ws[a].remove_window(id).0, x);
            law_add_window_adds_one(ws2[idx], id, x);
            lemma_workspaces_update(ws2, idx, ws2[idx].add_window(id), x);
        }
    }
}

/// A sequence of sequences flattens to what comes before item `i`, item
/// `i`, and what comes after it.
proof fn lemma_flatten_split(s: Seq<Seq<WindowId>>, i: int)
    requires
        0 <= i < s.len(),
    ensures
        s.flatten() == s.take(i).flatten() + s[i] + s.skip(i + 1).flatten(),
{
    assert(s =~= (s.take(i) + seq![s[i]]) + s.skip(i + 1));
    vstd::seq_lib::lemma_flatten_concat(s.take(i) + seq![s[i]], s.skip(i + 1));
    vstd::seq_lib::lemma_flatten_concat(s.take(i), seq![s[i]]);
    seq![s[i]].lemma_flatten_singleton();
}

/// A value in none of the parts is not in the whole.
proof fn lemma_flatten_absent(s: Seq<Seq<WindowId>>, x: WindowId)
    requires
        forall|c: int| 0 <= c < s.len() ==> !(#[trigger] s[c]).contains(x),
    ensures
        !s.flatten().contains(x),
    decreases s.len(),
{
    if s.len() > 0 {
        let rest = s.drop_first();
        assert forall|c: int| 0 <= c < rest.len() implies !(#[trigger] rest[c]).contains(x) by {
            assert(rest[c] == s[c + 1]);
        }
        lemma_flatten_absent(rest, x);
        let f = s.flatten();
        assert(f =~= s[0] + rest.flatten());
        if f.contains(x) {
            let j = choose|j: int| 0 <= j < f.len() && f[j] == x;
            if j < s[0].len() {
                assert(s[0][j] == x);
                assert(s[0].contains(x));
            } else {
                assert(rest.flatten()[j - s[0].len()] == x);
            }
        }
    }
}

/// The window ids of each column.
spec fn column_ids(cols: Seq<ColumnModel>) -> Seq<Seq<WindowId>> {
    cols.map_values(|c: ColumnModel| c.ids())
}

/// A window that a column holds somewhere has a first occurrence in the
/// workspace, searching the columns from `c` on when none before holds it.
proof fn lemma_first_column_from(ws: WorkspaceModel, id: WindowId, c: int)
    requires
        0 <= c <= ws.columns.len(),
        forall|d: int| 0 <= d < c ==> !(#[trigger] ws.columns[d]).contains(id),
        ws.contains(id),
    ensures
        exists|p: (int, int)| ws.is_first(id, p.0, p.1),
    decreases ws.columns.len() - c,
{
    if c == ws.columns.len() {
        let d = choose|d: int| 0 <= d < ws.columns.len() && (#[trigger] ws.columns[d]).contains(id);
        assert(false);
    } else if ws.columns[c].contains(id) {
        lemma_first_tile_from(ws, id, c, 0);
    } else {
        lemma_first_column_from(ws, id, c + 1);
    }
}

/// Within column `c`, the first tile holding `id` from `t` on.
proof fn lemma_first_tile_from(ws: WorkspaceModel, id: WindowId, c: int, t: int)
    requires
        0 <= c < ws.columns.len(),
        forall|d: int| 0 <= d < c ==> !(#[trigger] ws.columns[d]).contains(id),
        ws.columns[c].contains(id),
        0 <= t <= ws.columns[c].tiles.len(),
        forall|u: int| 0 <= u < t ==> (#[trigger] ws.columns[c].tiles[u]).id != id,
    ensures
        exists|p: (int, int)| ws.is_first(id, p.0, p.1),
    decreases ws.columns[c].tiles.len() - t,
{
    let tiles = ws.columns[c].tiles;
    if t == tiles.len() {
        let u = choose|u: int| 0 <= u < tiles.len() && tiles[u].id == id;
        assert(tiles[u].id != id);
    } else if tiles[t].id == id {
        let p = (c, t);
        assert(ws.is_first(id, p.0, p.1));
    } else {
        lemma_first_tile_from(ws, id, c, t + 1);
    }
}

/// Removing a window that sits outside the focused column keeps the
/// focused window focused and the view where it was.
pub proof fn law_remove_elsewhere_keeps_focus(ws: WorkspaceModel, id: WindowId)
    requires
        ws.wf(),
        ws.contains(id),
        !ws.columns[ws.active_column_idx].contains(id),
    ensures
        ws.remove_window(id).1,
        ws.remove_window(id).0.focused_id() == ws.focused_id(),
        ws.remove_window(id).0.view_offset == ws.view_offset,
{
    match ws.find(id) {
        None => {
            lemma_first_column_from(ws, id, 0);
            let p = choose|p: (int, int)| ws.is_first(id, p.0, p.1);
            lemma_find_first(ws, id, p.0, p.1);
        },
        Some(p) => {
            let q = choose|q: (int, int)| ws.is_first(id, q.0, q.1);
            assert(ws.is_first(id, q.0, q.1));
            assert(ws.columns[p.0].contains(id)) by {
                assert(ws.columns[p.0].tiles[p.1].id == id);
            }
            assert(p.0 != ws.active_column_idx);
            let r = ws.remove_at(id, p.0, p.1);
            if ws.columns[p.0].tiles.remove(p.1).len() == 0 {
                let cols = ws.columns.remove(p.0);
                if p.0 < ws.active_column_idx {
                    assert(cols[ws.active_column_idx - 1] == ws.columns[ws.active_column_idx]);
                } else {
                    assert(cols[ws.active_column_idx] == ws.columns[ws.active_column_idx]);
                }
            } else {
                assert(r.columns[ws.active_column_idx] == ws.columns[ws.active_column_idx]);
            }
        },
    }
}

/// Removing a window takes out exactly its first occurrence in layout
/// order: it succeeds exactly when the workspace holds the window, the
/// window ids afterwards are the ids before less the first occurrence
/// (the others in their order), no column is left empty and the focus
/// stays in range; a failed removal changes nothing.
pub proof fn law_remove_window_takes_first(ws: WorkspaceModel, id: WindowId)
    requires
        ws.wf(),
        ws.prev_active matches Some(p) ==> p.0 >= 0,
    ensures
        ws.remove_window(id).1 == ws.contains(id),
        !ws.remove_window(id).1 ==> ws.remove_window(id).0 == ws,
        ws.remove_window(id).1 ==> exists|k: int|
            0 <= k < ws.ids().len() && ws.ids()[k] == id && (forall|j: int|
                0 <= j < k ==> ws.ids()[j] != id) && #[trigger] ws.ids().remove(k)
                == ws.remove_window(id).0.ids(),
        ws.remove_window(id).0.wf(),
{
    match ws.find(id) {
        None => {
            if ws.contains(id) {
                lemma_first_column_from(ws, id, 0);
                let p = choose|p: (int, int)| ws.is_first(id, p.0, p.1);
                lemma_find_first(ws, id, p.0, p.1);
            }
        },
        Some(p) => {
            let q = choose|q: (int, int)| ws.is_first(id, q.0, q.1);
            assert(ws.is_first(id, q.0, q.1));
            let ci = p.0;
            let ti = p.1;
            assert(ws.columns[ci].contains(id)) by {
                assert(ws.columns[ci].tiles[ti].id == id);
            }
            let s = column_ids(ws.columns);
            let col = ws.columns[ci];
            assert(col.wf());
            lemma_flatten_split(s, ci);
            let pre = s.take(ci).flatten();
            let post = s.skip(ci + 1).flatten();
            assert(ws.ids() == pre + s[ci] + post);
            assert forall|c: int| 0 <= c < s.take(ci).len() implies !(#[trigger] s.take(ci)[c]).contains(id) by {
                assert(!ws.columns[c].contains(id));
                if s.take(ci)[c].contains(id) {
                    let t = choose|t: int| 0 <= t < s[c].len() && s[c][t] == id;
                    assert(ws.columns[c].tiles[t].id == id);
                }
            }
            lemma_flatten_absent(s.take(ci), id);
            let k = pre.len() + ti;
            let ids = ws.ids();
            assert(ids[k] == id);
            assert forall|j: int| 0 <= j < k implies ids[j] != id by {
                if j < pre.len() {
                    assert(ids[j] == pre[j]);
                    if pre[j] == id {
                        assert(pre.contains(id));
                    }
                } else {
                    assert(ids[j] == col.tiles[j - pre.len()].id);
                }
            }
            let r = ws.remove_at(id, ci, ti);
            lemma_find_first(ws, id, q.0, q.1);
            let rest = col.tiles.remove(ti);
            if rest.len() == 0 {
                let cols = ws.columns.remove(ci);
                assert(column_ids(cols) =~= s.take(ci) + s.skip(ci + 1));
                vstd::seq_lib::lemma_flatten_concat(s.take(ci), s.skip(ci + 1));
                assert(s[ci] =~= seq![id]);
                assert(r.ids() =~= ids.remove(k));
                assert forall|c: int| 0 <= c < cols.len() implies #[trigger] cols[c].wf() by {
                    if c < ci {
                        assert(ws.columns[c].wf());
                    } else {
                        assert(ws.columns[c + 1].wf());
                    }
                }
            } else {
                let nc = ColumnModel {
                    tiles: rest,
                    active_tile_idx: min(col.active_tile_idx, rest.len() - 1),
                    ..col
                };
                let cols = ws.columns.update(ci, nc);
                let s2 = column_ids(cols);
                assert(s2.take(ci) =~= s.take(ci));
                assert(s2.skip(ci + 1) =~= s.skip(ci + 1));
                assert(s2[ci] =~= s[ci].remove(ti));
                lemma_flatten_split(s2, ci);
                assert(r.ids() =~= ids.remove(k));
                assert forall|c: int| 0 <= c < cols.len() implies #[trigger] cols[c].wf() by {
                    if c != ci {
                        assert(ws.columns[c].wf());
                    }
                }
            }
        },
    }
}

// --- the layout holds each tracked window once ------------------------------------

/// How many tiles of the whole layout hold window `x`.
pub open spec fn layout_count(l: LayoutModel, x: WindowId) -> int {
    sum(l.monitors.map_values(|m: MonitorModel| workspaces_count(m.workspaces, x)))
}

/// Monitor `m` records window `x` in its map exactly when one of its
/// workspaces holds it, and then every tile holding it lies in the
/// workspace the map names.
pub open spec fn map_faithful(m: MonitorModel, x: WindowId) -> bool {
    &&& m.window_map.contains_key(x) <==> workspaces_count(m.workspaces, x) > 0
    &&& m.window_map.contains_key(x) ==> window_count(
        m.workspaces[m.window_map[x] as int].columns,
        x,
    ) == workspaces_count(m.workspaces, x)
}

/// Every monitor's active workspace index is a `usize`, as in a layout.
pub open spec fn indices_fit(l: LayoutModel) -> bool {
    forall|i: int| 0 <= i < l.monitors.len() ==> #[trigger] l.monitors[i].active_workspace_idx <= usize::MAX
}

/// Every monitor's map is faithful for every window (see [`map_faithful`]).
pub open spec fn faithful(l: LayoutModel) -> bool {
    forall|i: int, x: WindowId| 0 <= i < l.monitors.len() ==> #[trigger] map_faithful(l.monitors[i], x)
}

proof fn lemma_sum_nonneg(s: Seq<int>)
    requires
        forall|i: int| 0 <= i < s.len() ==> s[i] >= 0,
    ensures
        sum(s) >= 0,
        forall|i: int| 0 <= i < s.len() ==> s[i] <= sum(s),
    decreases s.len(),
{
    if s.len() > 0 {
        lemma_sum_nonneg(s.drop_last());
        assert forall|i: int| 0 <= i < s.len() implies s[i] <= sum(s) by {
            if i < s.len() - 1 {
                assert(s[i] == s.drop_last()[i]);
            }
        }
    }
}

proof fn lemma_sum_pos(s: Seq<int>)
    requires
        sum(s) > 0,
    ensures
        exists|i: int| 0 <= i < s.len() && s[i] > 0,
    decreases s.len(),
{
    if s.last() <= 0 {
        lemma_sum_pos(s.drop_last());
        let i = choose|i: int| 0 <= i < s.drop_last().len() && s.drop_last()[i] > 0;
        assert(s[i] > 0);
    }
}

proof fn lemma_tile_count_nonneg(tiles: Seq<Tile>, x: WindowId)
    ensures
        tile_count(tiles, x) >= 0,
{
    lemma_sum_nonneg(tiles.map_values(|t: Tile| if t.id == x { 1int } else { 0int }));
}

pub(crate) proof fn lemma_window_count_nonneg(cols: Seq<ColumnModel>, x: WindowId)
    ensures
        window_count(cols, x) >= 0,
        forall|c: int| 0 <= c < cols.len() ==> tile_count(#[trigger] cols[c].tiles, x) <= window_count(cols, x),
{
    let f = |c: ColumnModel| tile_count(c.tiles, x);
    assert forall|c: int| 0 <= c < cols.map_values(f).len() implies cols.map_values(f)[c] >= 0 by {
        lemma_tile_count_nonneg(cols[c].tiles, x);
    }
    lemma_sum_nonneg(cols.map_values(f));
    assert forall|c: int| 0 <= c < cols.len() implies tile_count(#[trigger] cols[c].tiles, x) <= window_count(cols, x) by {
        assert(cols.map_values(f)[c] == tile_count(cols[c].tiles, x));
    }
}

pub(crate) proof fn lemma_workspaces_count_nonneg(wss: Seq<WorkspaceModel>, x: WindowId)
    ensures
        workspaces_count(wss, x) >= 0,
        forall|w: int| 0 <= w < wss.len() ==> window_count(#[trigger] wss[w].columns, x) <= workspaces_count(wss, x),
        forall|w: int| 0 <= w < wss.len() ==> window_count(#[trigger] wss[w].columns, x) >= 0,
{
    let f = |w: WorkspaceModel| window_count(w.columns, x);
    assert forall|w: int| 0 <= w < wss.map_values(f).len() implies wss.map_values(f)[w] >= 0 by {
        lemma_window_count_nonneg(wss[w].columns, x);
    }
    lemma_sum_nonneg(wss.map_values(f));
    assert forall|w: int| 0 <= w < wss.len() implies window_count(#[trigger] wss[w].columns, x) <= workspaces_count(wss, x) && window_count(wss[w].columns, x) >= 0 by {
        assert(wss.map_values(f)[w] == window_count(wss[w].columns, x));
    }
}

/// The counts of the monitors, and each one's share of the layout count.
pub(crate) proof fn lemma_layout_count_parts(l: LayoutModel, x: WindowId)
    ensures
        layout_count(l, x) >= 0,
        forall|i: int| 0 <= i < l.monitors.len() ==> workspaces_count(#[trigger] l.monitors[i].workspaces, x) <= layout_count(l, x),
        forall|i: int| 0 <= i < l.monitors.len() ==> workspaces_count(#[trigger] l.monitors[i].workspaces, x) >= 0,
{
    let f = |m: MonitorModel| workspaces_count(m.workspaces, x);
    assert forall|i: int| 0 <= i < l.monitors.map_values(f).len() implies l.monitors.map_values(f)[i] >= 0 by {
        lemma_workspaces_count_nonneg(l.monitors[i].workspaces, x);
    }
    lemma_sum_nonneg(l.monitors.map_values(f));
    assert forall|i: int| 0 <= i < l.monitors.len() implies workspaces_count(#[trigger] l.monitors[i].workspaces, x) <= layout_count(l, x) && workspaces_count(l.monitors[i].workspaces, x) >= 0 by {
        assert(l.monitors.map_values(f)[i] == workspaces_count(l.monitors[i].workspaces, x));
    }
}

/// Replacing monitor `i` changes the layout count by the change in its
/// count.
pub(crate) proof fn lemma_layout_update(l: LayoutModel, i: int, m: MonitorModel, x: WindowId)
    requires
        0 <= i < l.monitors.len(),
    ensures
        layout_count(LayoutModel { monitors: l.monitors.update(i, m) }, x) == layout_count(l, x)
            - workspaces_count(l.monitors[i].workspaces, x) + workspaces_count(m.workspaces, x),
{
    let f = |m: MonitorModel| workspaces_count(m.workspaces, x);
    assert(l.monitors.update(i, m).map_values(f) =~= l.monitors.map_values(f).update(i, f(m)));
    lemma_sum_update(l.monitors.map_values(f), i, f(m));
}

/// Columns that hold window `x` somewhere hold it in some column.
proof fn lemma_count_contains(ws: WorkspaceModel, x: WindowId)
    requires
        window_count(ws.columns, x) > 0,
    ensures
        ws.contains(x),
{
    let f = |c: ColumnModel| tile_count(c.tiles, x);
    lemma_sum_pos(ws.columns.map_values(f));
    let c = choose|c: int| 0 <= c < ws.columns.map_values(f).len() && ws.columns.map_values(f)[c] > 0;
    let tiles = ws.columns[c].tiles;
    let g = |t: Tile| if t.id == x { 1int } else { 0int };
    assert(tile_count(tiles, x) > 0);
    lemma_sum_pos(tiles.map_values(g));
    let t = choose|t: int| 0 <= t < tiles.map_values(g).len() && tiles.map_values(g)[t] > 0;
    assert(tiles[t].id == x);
    assert(ws.columns[c].contains(x));
}

/// Focusing a window keeps every workspace's tiles.
proof fn lemma_focus_counts(ws: WorkspaceModel, id: WindowId, x: WindowId)
    ensures
        window_count(ws.focus_window(id).0.columns, x) == window_count(ws.columns, x),
{
    if let Some(p) = ws.find(id) {
        let q = choose|q: (int, int)| ws.is_first(id, q.0, q.1);
        assert(ws.is_first(id, q.0, q.1));
        let col = ws.columns[p.0];
        lemma_cols_update(ws.columns, p.0, ColumnModel { active_tile_idx: p.1, ..col }, x);
    }
}

/// Adding a window the layout does not hold puts exactly one tile of it
/// in the layout and keeps the maps faithful.
pub proof fn lemma_add_tracked(l: LayoutModel, device: Seq<char>, id: WindowId)
    requires
        l.wf(),
        indices_fit(l),
        faithful(l),
        layout_count(l, id) == 0,
    ensures
        faithful(l.add_window(device, id)),
        forall|x: WindowId| #[trigger] layout_count(l.add_window(device, id), x) == layout_count(l, x)
            + (if x == id { 1int } else { 0int }),
{
    let l1 = l.add_monitor(device);
    if l.monitor_index(device) is None {
        let m0 = MonitorModel {
            device,
            workspaces: seq![WorkspaceModel::empty()],
            active_workspace_idx: 0,
            window_map: Map::empty(),
        };
        assert(l1.monitors =~= l.monitors.push(m0));
        assert(WorkspaceModel::empty().columns.map_values(|c: ColumnModel| tile_count(c.tiles, id)) =~= Seq::<int>::empty());
        assert forall|x: WindowId| layout_count(l1, x) == layout_count(l, x) by {
            let f = |m: MonitorModel| workspaces_count(m.workspaces, x);
            assert(l1.monitors.map_values(f).drop_last() =~= l.monitors.map_values(f));
            assert(WorkspaceModel::empty().columns.map_values(|c: ColumnModel| tile_count(c.tiles, x)) =~= Seq::<int>::empty());
            let g = |w: WorkspaceModel| window_count(w.columns, x);
            assert(seq![WorkspaceModel::empty()].map_values(g).drop_last() =~= Seq::<int>::empty());
            assert(workspaces_count(m0.workspaces, x) == 0);
        }
        assert forall|i: int, x: WindowId| 0 <= i < l1.monitors.len() implies #[trigger] map_faithful(l1.monitors[i], x) by {
            if i < l.monitors.len() {
                assert(map_faithful(l.monitors[i], x));
            } else {
                assert(WorkspaceModel::empty().columns.map_values(|c: ColumnModel| tile_count(c.tiles, x)) =~= Seq::<int>::empty());
                let g = |w: WorkspaceModel| window_count(w.columns, x);
                assert(seq![WorkspaceModel::empty()].map_values(g).drop_last() =~= Seq::<int>::empty());
            }
        }
        lemma_monitor_exists_first(l1, device, l.monitors.len() as int);
        assert forall|i: int| 0 <= i < l1.monitors.len() implies #[trigger] l1.monitors[i].wf() by {
            if i < l.monitors.len() {
                assert(l.monitors[i].wf());
            }
        }
    } else {
        assert(l1 == l);
    }
    let i = l1.monitor_index(device).unwrap();
    let m = l1.monitors[i];
    assert(m.wf());
    if i < l.monitors.len() {
        assert(l1.monitors[i] == l.monitors[i]);
    }
    let a = m.active_workspace_idx;
    let ws = m.active_workspace();
    let m2 = m.add_window(id);
    let l2 = LayoutModel { monitors: l1.monitors.update(i, m2) };
    assert(l2 == l.add_window(device, id));
    lemma_layout_count_parts(l1, id);
    lemma_workspaces_count_nonneg(m.workspaces, id);
    assert(workspaces_count(m.workspaces, id) == 0);
    assert(window_count(ws.columns, id) == 0);
    assert forall|x: WindowId| #[trigger] layout_count(l2, x) == layout_count(l, x) + (if x == id {
        1int
    } else {
        0int
    }) && workspaces_count(m2.workspaces, x) == workspaces_count(m.workspaces, x) + (if x == id {
        1int
    } else {
        0int
    }) by {
        law_add_window_adds_one(ws, id, x);
        lemma_workspaces_update(m.workspaces, a, ws.add_window(id), x);
        lemma_layout_update(l1, i, m2, x);
    }
    assert forall|j: int, x: WindowId| 0 <= j < l2.monitors.len() implies #[trigger] map_faithful(l2.monitors[j], x) by {
        if j != i {
            assert(map_faithful(l1.monitors[j], x));
        } else {
            assert(map_faithful(m, x));
            assert(workspaces_count(m2.workspaces, x) == workspaces_count(m.workspaces, x) + (if x == id {
                1int
            } else {
                0int
            })) by {
                law_add_window_adds_one(ws, id, x);
                lemma_workspaces_update(m.workspaces, a, ws.add_window(id), x);
            }
            law_add_window_adds_one(ws, id, x);
            if x == id {
                assert(m2.window_map[x] as int == a);
            } else if m.window_map.contains_key(x) {
                assert(m2.window_map[x] == m.window_map[x]);
                if m.window_map[x] as int != a {
                    assert(m2.workspaces[m.window_map[x] as int] == m.workspaces[m.window_map[x] as int]);
                }
            }
        }
    }
}

/// Removing a window the layout holds once takes that tile out and keeps
/// the maps faithful.
pub proof fn lemma_remove_tracked(l: LayoutModel, id: WindowId)
    requires
        l.wf(),
        faithful(l),
        layout_count(l, id) == 1,
    ensures
        faithful(l.remove_window(id).0),
        forall|x: WindowId| #[trigger] layout_count(l.remove_window(id).0, x) == layout_count(l, x)
            - (if x == id { 1int } else { 0int }),
{
    let f = |m: MonitorModel| workspaces_count(m.workspaces, id);
    lemma_sum_pos(l.monitors.map_values(f));
    let j = choose|j: int| 0 <= j < l.monitors.map_values(f).len() && l.monitors.map_values(f)[j] > 0;
    lemma_layout_count_parts(l, id);
    let z = l.monitors.map_values(f).update(j, 0);
    lemma_sum_update(l.monitors.map_values(f), j, 0);
    assert forall|k: int| 0 <= k < z.len() implies z[k] >= 0 by {
        assert(l.monitors[k].workspaces == l.monitors[k].workspaces);
    }
    lemma_sum_nonneg(z);
    assert forall|k: int| 0 <= k < j implies !(#[trigger] l.monitors[k]).window_map.contains_key(id) by {
        assert(z[k] == f(l.monitors[k]));
        assert(map_faithful(l.monitors[k], id));
    }
    lemma_remove_skips(l, id, 0, j);
    let m = l.monitors[j];
    assert(m.wf());
    assert(map_faithful(m, id));
    assert(workspaces_count(m.workspaces, id) == 1);
    let w = m.window_map[id] as int;
    let ws = m.workspaces[w];
    lemma_count_contains(ws, id);
    law_remove_window_removes_one(ws, id, id);
    let ws2 = ws.remove_window(id).0;
    let m2 = MonitorModel { workspaces: m.workspaces.update(w, ws2), window_map: m.window_map.remove(id), ..m };
    let l2 = LayoutModel { monitors: l.monitors.update(j, m2) };
    assert(l.remove_window_from(id, j) == (l2, Some(m.device)));
    assert forall|x: WindowId| #[trigger] layout_count(l2, x) == layout_count(l, x) - (if x == id {
        1int
    } else {
        0int
    }) by {
        law_remove_window_removes_one(ws, id, x);
        lemma_workspaces_update(m.workspaces, w, ws2, x);
        lemma_layout_update(l, j, m2, x);
    }
    assert forall|k: int, x: WindowId| 0 <= k < l2.monitors.len() implies #[trigger] map_faithful(l2.monitors[k], x) by {
        assert(map_faithful(l.monitors[k], x));
        if k == j {
            law_remove_window_removes_one(ws, id, x);
            lemma_workspaces_update(m.workspaces, w, ws2, x);
            if x != id && m.window_map.contains_key(x) {
                assert(m2.window_map[x] == m.window_map[x]);
                if m.window_map[x] as int != w {
                    assert(m2.workspaces[m.window_map[x] as int] == m.workspaces[m.window_map[x] as int]);
                }
            }
        }
    }
}

/// Some monitor recording `id` has none recording it before it.
proof fn lemma_owner_min(l: LayoutModel, id: WindowId, c: int)
    requires
        0 <= c < l.monitors.len(),
        l.monitors[c].window_map.contains_key(id),
    ensures
        exists|i: int|
            0 <= i < l.monitors.len() && (#[trigger] l.monitors[i]).window_map.contains_key(id)
                && forall|k: int| 0 <= k < i ==> !(#[trigger] l.monitors[k]).window_map.contains_key(id),
    decreases c,
{
    if exists|k: int| 0 <= k < c && (#[trigger] l.monitors[k]).window_map.contains_key(id) {
        let k = choose|k: int| 0 <= k < c && (#[trigger] l.monitors[k]).window_map.contains_key(id);
        lemma_owner_min(l, id, k);
    } else {
        assert(0 <= c < l.monitors.len() && l.monitors[c].window_map.contains_key(id) && forall|k: int|
            0 <= k < c ==> !(#[trigger] l.monitors[k]).window_map.contains_key(id));
    }
}

/// Focusing a window keeps every window's tiles and the maps faithful.
pub proof fn lemma_focus_tracked(l: LayoutModel, id: WindowId)
    requires
        l.wf(),
        faithful(l),
    ensures
        faithful(l.focus_window(id).0),
        forall|x: WindowId| #[trigger] layout_count(l.focus_window(id).0, x) == layout_count(l, x),
{
    if exists|c: int| 0 <= c < l.monitors.len() && (#[trigger] l.monitors[c]).window_map.contains_key(id) {
        let c = choose|c: int| 0 <= c < l.monitors.len() && (#[trigger] l.monitors[c]).window_map.contains_key(id);
        lemma_owner_min(l, id, c);
        let i = choose|i: int|
            0 <= i < l.monitors.len() && (#[trigger] l.monitors[i]).window_map.contains_key(id)
                && forall|k: int| 0 <= k < i ==> !(#[trigger] l.monitors[k]).window_map.contains_key(id);
        super::monitor::lemma_owner_first(l, id, i);
        let m = l.monitors[i];
        assert(m.wf());
        let w = m.window_map[id] as int;
        let ws = m.workspaces[w];
        let m2 = MonitorModel {
            workspaces: m.workspaces.update(w, ws.focus_window(id).0),
            active_workspace_idx: w,
            ..m
        };
        let l2 = LayoutModel { monitors: l.monitors.update(i, m2) };
        assert forall|x: WindowId| #[trigger] layout_count(l2, x) == layout_count(l, x) && workspaces_count(m2.workspaces, x) == workspaces_count(m.workspaces, x) by {
            lemma_focus_counts(ws, id, x);
            lemma_workspaces_update(m.workspaces, w, ws.focus_window(id).0, x);
            lemma_layout_update(l, i, m2, x);
        }
        assert forall|k: int, x: WindowId| 0 <= k < l2.monitors.len() implies #[trigger] map_faithful(l2.monitors[k], x) by {
            assert(map_faithful(l.monitors[k], x));
            if k == i {
                assert(workspaces_count(m2.workspaces, x) == workspaces_count(m.workspaces, x)) by {
                    lemma_focus_counts(ws, id, x);
                    lemma_workspaces_update(m.workspaces, w, ws.focus_window(id).0, x);
                }
                if m.window_map.contains_key(x) && m.window_map[x] as int == w {
                    lemma_focus_counts(ws, id, x);
                }
            }
        }
    }
}


/// One when `y` is window `x`, else zero.
pub open spec fn hits(y: WindowId, x: WindowId) -> int {
    if y == x {
        1
    } else {
        0
    }
}

/// How many times window `x` occurs in `ids`.
pub open spec fn id_count(ids: Seq<WindowId>, x: WindowId) -> int {
    sum(ids.map_values(|y: WindowId| hits(y, x)))
}

/// A column holds a window as often as its ids name it.
proof fn lemma_tile_count_ids(tiles: Seq<Tile>, x: WindowId)
    ensures
        tile_count(tiles, x) == id_count(tiles.map_values(|t: Tile| t.id), x),
{
    assert(tiles.map_values(|t: Tile| if t.id == x { 1int } else { 0int }) =~= tiles.map_values(
        |t: Tile| t.id,
    ).map_values(|y: WindowId| hits(y, x)));
}

/// `ids` names `x` exactly when it counts it, and never more often than
/// its length allows below zero.
proof fn lemma_id_count_contains(ids: Seq<WindowId>, x: WindowId)
    ensures
        id_count(ids, x) >= 0,
        ids.contains(x) <==> id_count(ids, x) > 0,
{
    let f = |y: WindowId| hits(y, x);
    assert forall|i: int| 0 <= i < ids.map_values(f).len() implies ids.map_values(f)[i] >= 0 by {}
    lemma_sum_nonneg(ids.map_values(f));
    if ids.contains(x) {
        let k = choose|k: int| 0 <= k < ids.len() && ids[k] == x;
        assert(ids.map_values(f)[k] == 1);
    }
    if id_count(ids, x) > 0 {
        lemma_sum_pos(ids.map_values(f));
        let k = choose|k: int| 0 <= k < ids.map_values(f).len() && ids.map_values(f)[k] > 0;
        assert(ids[k] == x);
    }
}

/// Counting the ids without the last one.
proof fn lemma_id_count_last(ids: Seq<WindowId>, x: WindowId)
    requires
        ids.len() > 0,
    ensures
        id_count(ids, x) == id_count(ids.drop_last(), x) + (if ids.last() == x { 1int } else { 0int }),
{
    let f = |y: WindowId| hits(y, x);
    assert(ids.map_values(f).drop_last() =~= ids.drop_last().map_values(f));
}

/// Removing the windows `ids` one by one takes each out as often as it is
/// named, when the workspace holds it at least that often.
proof fn lemma_remove_all_count(ws: WorkspaceModel, ids: Seq<WindowId>, x: WindowId)
    requires
        forall|y: WindowId| #[trigger] id_count(ids, y) <= window_count(ws.columns, y),
    ensures
        window_count(remove_all(ws, ids).columns, x) == window_count(ws.columns, x) - id_count(ids, x),
    decreases ids.len(),
{
    if ids.len() == 0 {
        assert(ids.map_values(|y: WindowId| hits(y, x)) =~= Seq::<int>::empty());
    } else {
        let p = ids.drop_last();
        let y = ids.last();
        assert forall|z: WindowId| #[trigger] id_count(p, z) <= window_count(ws.columns, z) by {
            lemma_id_count_last(ids, z);
            lemma_id_count_contains(ids, z);
            lemma_id_count_contains(p, z);
        }
        lemma_remove_all_count(ws, p, x);
        lemma_remove_all_count(ws, p, y);
        lemma_id_count_last(ids, x);
        lemma_id_count_last(ids, y);
        let rp = remove_all(ws, p);
        lemma_count_contains(rp, y);
        law_remove_window_removes_one(rp, y, x);
    }
}

/// Adding the windows `ids` as one column adds each as often as it is
/// named.
proof fn lemma_add_column_count(ws: WorkspaceModel, ids: Seq<WindowId>, x: WindowId)
    ensures
        window_count(ws.add_column(ids).columns, x) == window_count(ws.columns, x) + id_count(ids, x),
{
    if ids.len() == 0 {
        assert(ids.map_values(|y: WindowId| hits(y, x)) =~= Seq::<int>::empty());
    } else {
        let tiles = ids.map_values(|id: WindowId| Tile::spec_new(id));
        let c = ColumnModel { tiles, ..ColumnModel::single(ids[0]) };
        lemma_cols_insert(ws.columns, ws.columns.len() as int, c, x);
        assert(ws.columns.insert(ws.columns.len() as int, c) =~= ws.columns.push(c));
        assert(tiles.map_values(|t: Tile| if t.id == x { 1int } else { 0int }) =~= ids.map_values(
            |y: WindowId| hits(y, x),
        ));
    }
}

/// The grown workspace list keeps the workspaces there were and adds
/// empty ones.
proof fn lemma_grown_parts(m: MonitorModel, count: int, x: WindowId)
    ensures
        m.grown(count).len() >= m.workspaces.len(),
        forall|j: int| 0 <= j < m.workspaces.len() ==> #[trigger] m.grown(count)[j] == m.workspaces[j],
        forall|j: int|
            m.workspaces.len() <= j < m.grown(count).len() ==> window_count(
                #[trigger] m.grown(count)[j].columns,
                x,
            ) == 0,
{
    assert forall|j: int|
        m.workspaces.len() <= j < m.grown(count).len() implies window_count(
            #[trigger] m.grown(count)[j].columns,
            x,
        ) == 0 by {
        assert(m.grown(count)[j] == WorkspaceModel::empty());
        assert(WorkspaceModel::empty().columns.map_values(|c: ColumnModel| tile_count(c.tiles, x))
            =~= Seq::<int>::empty());
    }
}

/// Switching workspace keeps the windows of the monitor where they are,
/// so its map stays faithful for every window it was faithful for.
pub proof fn law_switch_workspace_keeps_map(m: MonitorModel, idx: int, x: WindowId)
    requires
        m.wf(),
        0 <= idx,
        map_faithful(m, x),
    ensures
        workspaces_count(m.switch_workspace(idx).0.workspaces, x) == workspaces_count(m.workspaces, x),
        map_faithful(m.switch_workspace(idx).0, x),
{
    lemma_grown_count(m, idx + 1, x);
    lemma_grown_parts(m, idx + 1, x);
    if m.window_map.contains_key(x) {
        assert(m.grown(idx + 1)[m.window_map[x] as int] == m.workspaces[m.window_map[x] as int]);
    }
}

/// Moving the focused window to another workspace keeps the monitor's map
/// faithful, when the monitor holds each window at most once: the moved
/// window is recorded in its new workspace, the others stay as they were.
pub proof fn law_move_window_keeps_map(m: MonitorModel, idx: int, focus: bool, x: WindowId)
    requires
        m.wf(),
        0 <= idx <= usize::MAX,
        forall|y: WindowId| #[trigger] map_faithful(m, y),
        forall|y: WindowId| #[trigger] workspaces_count(m.workspaces, y) <= 1,
    ensures
        map_faithful(m.move_focused_window_to_workspace(idx, focus).0, x),
{
    law_move_window_to_workspace_keeps_windows(m, idx, focus, x);
    let m3 = m.move_focused_window_to_workspace(idx, focus).0;
    assert(map_faithful(m, x));
    if let Some(id) = m.active_workspace().focused_id() {
        assert(map_faithful(m, id));
        assert(workspaces_count(m.workspaces, id) <= 1);
        law_move_window_to_workspace_keeps_windows(m, idx, focus, id);
        if idx != m.active_workspace_idx {
            let a = m.active_workspace_idx;
            let w = m.active_workspace();
            let col = w.columns[w.active_column_idx];
            assert(w.contains(id)) by {
                assert(col.tiles[col.active_tile_idx].id == id);
                assert(w.columns[w.active_column_idx].contains(id));
            }
            let ws = m.grown(idx + 1);
            lemma_grown_count(m, idx + 1, x);
            lemma_grown_parts(m, idx + 1, x);
            lemma_grown_count(m, idx + 1, id);
            lemma_grown_parts(m, idx + 1, id);
            assert(ws[a] == w);
            let r = w.remove_window(id).0;
            law_remove_window_removes_one(w, id, x);
            law_remove_window_removes_one(w, id, id);
            let ws2 = ws.update(a, r);
            lemma_workspaces_update(ws, a, r, x);
            lemma_workspaces_update(ws, a, r, id);
            law_add_window_adds_one(ws2[idx], id, x);
            law_add_window_adds_one(ws2[idx], id, id);
            let ws3 = ws2.update(idx, ws2[idx].add_window(id));
            lemma_workspaces_update(ws2, idx, ws2[idx].add_window(id), x);
            lemma_workspaces_update(ws2, idx, ws2[idx].add_window(id), id);
            assert(m3.workspaces == ws3);
            lemma_window_count_nonneg(r.columns, id);
            lemma_workspaces_count_nonneg(m.workspaces, id);
            lemma_workspaces_count_nonneg(ws2, id);
            assert(window_count(ws2[idx].columns, id) == 0);
            assert(window_count(w.columns, id) >= 1);
            assert(workspaces_count(m.workspaces, id) == 1);
            assert(workspaces_count(ws2, id) == 0);
            if x != id {
                if m.window_map.contains_key(x) {
                    let j = m.window_map[x] as int;
                    assert(j < m.workspaces.len());
                    if j == a {
                        assert(ws3[j] == r);
                    } else if j == idx {
                        assert(ws3[j] == ws2[idx].add_window(id));
                        assert(ws2[idx] == m.workspaces[j]);
                    } else {
                        assert(ws3[j] == m.workspaces[j]);
                    }
                    assert(window_count(ws3[j].columns, x) == window_count(m.workspaces[j].columns, x));
                }
                assert(m3.window_map.contains_key(x) == m.window_map.contains_key(x));
            } else {
                assert(m3.window_map[id] as int == idx);
                assert(window_count(ws3[idx].columns, id) == 1);
            }
        }
    }
}

/// Moving the focused column to another workspace keeps the monitor's
/// map faithful, when the monitor holds each window at most once: the
/// column's windows are recorded in their new workspace, the others stay
/// as they were.
pub proof fn law_move_column_keeps_map(m: MonitorModel, idx: int, focus: bool, x: WindowId)
    requires
        m.wf(),
        0 <= idx <= usize::MAX,
        forall|y: WindowId| #[trigger] map_faithful(m, y),
        forall|y: WindowId| #[trigger] workspaces_count(m.workspaces, y) <= 1,
    ensures
        workspaces_count(m.move_focused_column_to_workspace(idx, focus).0.workspaces, x)
            == workspaces_count(m.workspaces, x),
        map_faithful(m.move_focused_column_to_workspace(idx, focus).0, x),
{
    let m3 = m.move_focused_column_to_workspace(idx, focus).0;
    assert(map_faithful(m, x));
    assert(workspaces_count(m.workspaces, x) <= 1);
    if idx != m.active_workspace_idx {
        if let Some(ids) = m.focused_column_ids() {
            if ids.len() > 0 {
                let a = m.active_workspace_idx;
                let w = m.active_workspace();
                let col = w.columns[w.active_column_idx];
                assert(ids == col.ids());
                assert forall|y: WindowId| #[trigger] id_count(ids, y) <= window_count(w.columns, y) by {
                    lemma_tile_count_ids(col.tiles, y);
                    lemma_window_count_nonneg(w.columns, y);
                }
                let ws = m.grown(idx + 1);
                lemma_grown_count(m, idx + 1, x);
                lemma_grown_parts(m, idx + 1, x);
                assert(ws[a] == w);
                let r = remove_all(w, ids);
                lemma_remove_all_count(w, ids, x);
                let ws2 = ws.update(a, r);
                lemma_workspaces_update(ws, a, r, x);
                let added = ws2[idx].add_column(ids);
                lemma_add_column_count(ws2[idx], ids, x);
                let ws3 = ws2.update(idx, added);
                lemma_workspaces_update(ws2, idx, added, x);
                assert(m3.workspaces == ws3);
                lemma_id_count_contains(ids, x);
                lemma_window_count_nonneg(r.columns, x);
                lemma_workspaces_count_nonneg(m.workspaces, x);
                lemma_workspaces_count_nonneg(ws2, x);
                if ids.contains(x) {
                    assert(window_count(w.columns, x) >= 1);
                    assert(workspaces_count(m.workspaces, x) == 1);
                    assert(id_count(ids, x) == 1);
                    assert(workspaces_count(ws2, x) == 0);
                    assert(m3.window_map.contains_key(x));
                    assert(m3.window_map[x] as int == idx);
                    assert(window_count(ws2[idx].columns, x) == 0);
                    assert(window_count(ws3[idx].columns, x) == 1);
                } else {
                    assert(m3.window_map.contains_key(x) == m.window_map.contains_key(x));
                    if m.window_map.contains_key(x) {
                        let j = m.window_map[x] as int;
                        assert(m3.window_map[x] == m.window_map[x]);
                        assert(j < m.workspaces.len());
                        if j == a {
                            assert(ws3[j] == r);
                        } else if j == idx {
                            assert(ws3[j] == added);
                            assert(ws2[idx] == m.workspaces[j]);
                        } else {
                            assert(ws3[j] == m.workspaces[j]);
                        }
                        assert(window_count(ws3[j].columns, x) == window_count(m.workspaces[j].columns, x));
                    }
                }
            }
        }
    }
}


/// A height change by a delta (`set-window-height "+N"` / `"-N"`) moves
/// the focused window's weight in the delta's direction by a hundredth of
/// it: a positive delta never lowers the weight, a negative one never
/// raises it (but to the floor of a tenth), and within range the new
/// weight is exactly the old one plus the delta over 100. The other
/// windows of the column are untouched.
pub proof fn law_height_delta_moves_weight(ws: WorkspaceModel, d: i64)
    requires
        ws.wf(),
        ws.columns.len() > 0,
    ensures
        ({
            let col = ws.columns[ws.active_column_idx];
            let t = col.active_tile_idx;
            let (r, changed) = ws.set_window_height(SizeChange::Delta(d));
            let after = r.columns[ws.active_column_idx].tiles;
            let old = col.tiles[t].height_weight;
            let new = after[t].height_weight;
            &&& changed
            &&& after.len() == col.tiles.len()
            &&& after[t].id == col.tiles[t].id
            &&& forall|j: int| 0 <= j < after.len() && j != t ==> after[j] == col.tiles[j]
            &&& (d >= 0 ==> new >= old)
            &&& (d <= 0 ==> new <= old || new == MIN_WEIGHT_AFTER_DELTA)
            &&& (MIN_WEIGHT_AFTER_DELTA <= old + div_trunc(d as int, 100) <= i64::MAX ==> new == old
                + div_trunc(d as int, 100))
        }),
{
    let col = ws.columns[ws.active_column_idx];
    assert(col.wf());
    if d >= 0 {
        assert(div_trunc(d as int, 100) >= 0);
    } else {
        assert(div_trunc(d as int, 100) <= 0);
    }
}


/// Setting a height outright (`set-window-height "800"` or `"50%"`) gives
/// the focused window a weight that grows with the size asked for: a
/// proportion is its own weight, pixels count a full weight per 400, and
/// neither goes below the floor of a twentieth.
pub proof fn law_height_set_outright(ws: WorkspaceModel, px: i64, p: i64)
    requires
        ws.wf(),
        ws.columns.len() > 0,
    ensures
        ({
            let col = ws.columns[ws.active_column_idx];
            let t = col.active_tile_idx;
            let (fixed, fixed_changed) = ws.set_window_height(SizeChange::Fixed(px));
            let (prop, prop_changed) = ws.set_window_height(SizeChange::Proportion(p));
            let wf = fixed.columns[ws.active_column_idx].tiles[t].height_weight;
            let wp = prop.columns[ws.active_column_idx].tiles[t].height_weight;
            &&& fixed_changed && prop_changed
            &&& wf >= MIN_WEIGHT && wp >= MIN_WEIGHT
            &&& (p >= MIN_WEIGHT ==> wp == p)
            &&& (px >= 400 * MIN_WEIGHT ==> wf as int == div_trunc(px as int, 400))
            &&& fixed.columns[ws.active_column_idx].tiles[t].id == col.tiles[t].id
            &&& prop.columns[ws.active_column_idx].tiles[t].id == col.tiles[t].id
        }),
{
    let col = ws.columns[ws.active_column_idx];
    assert(col.wf());
}

} // verus!

//! Layout tuning parameters and computed window rectangles.
use vstd::prelude::*;

use super::workspace::max_i64;
use super::{
    div_trunc, ColumnModel, ColumnWidth, Micros, Tile, WindowId, Workspace, WorkspaceModel, ONE,
};

verus! {

/// Whether / when the focused column gets centered in the view.
#[derive(Clone, Copy, Debug, PartialEq, Eq, Structural)]
pub enum CenterFocused {
    Never,
    OnOverflow,
    Always,
}

/// Layout tuning parameters.
#[derive(Clone, Debug)]
pub struct LayoutParams {
    /// Gap between columns and between tiles (millionths of a pixel).
    pub gaps: Micros,
    /// Padding between the monitor work area and the content area.
    pub edge_padding: Micros,
    /// Width for columns that don't specify one.
    pub default_column_width: ColumnWidth,
    /// Widths cycled through by a bare `set-column-width`.
    pub preset_column_widths: Vec<ColumnWidth>,
    pub center_focused_column: CenterFocused,
}

impl LayoutParams {
    /// The defaults: gaps 8, edge padding 8, a quarter-view default column
    /// width, presets 1/3, 1/2, 2/3, center focused column on overflow.
    pub fn default() -> (p: LayoutParams)
        ensures
            p.gaps == 8_000_000,
            p.edge_padding == 8_000_000,
            p.default_column_width == ColumnWidth::Proportion(250_000),
            p.preset_column_widths@ == seq![
                ColumnWidth::Proportion(333_330),
                ColumnWidth::Proportion(500_000),
                ColumnWidth::Proportion(666_670),
            ],
            p.center_focused_column == CenterFocused::OnOverflow,
    {
        let p = LayoutParams {
            gaps: 8_000_000,
            edge_padding: 8_000_000,
            default_column_width: ColumnWidth::Proportion(250_000),
            preset_column_widths: vec![
                ColumnWidth::Proportion(333_330),
                ColumnWidth::Proportion(500_000),
                ColumnWidth::Proportion(666_670),
            ],
            center_focused_column: CenterFocused::OnOverflow,
        };
        assert(p.preset_column_widths@ =~= seq![
            ColumnWidth::Proportion(333_330),
            ColumnWidth::Proportion(500_000),
            ColumnWidth::Proportion(666_670),
        ]);
        p
    }
}

/// A computed rectangle for one window, in absolute screen coordinates.
#[derive(Clone, Copy, Debug, PartialEq, Eq, Structural)]
pub struct TileRect {
    pub id: WindowId,
    pub x: i32,
    pub y: i32,
    pub w: i32,
    pub h: i32,
}


// --- arithmetic in millionths ----------------------------------------------

/// `v` clamped to the range of `i64`.
pub open spec fn sat(v: int) -> i64 {
    if v > i64::MAX {
        i64::MAX
    } else if v < i64::MIN {
        i64::MIN
    } else {
        v as i64
    }
}

/// `a * b / d` rounded toward zero, clamped to `i64`.
pub open spec fn mul_div(a: int, b: int, d: int) -> i64 {
    sat(div_trunc(a * b, d))
}

/// `a * b / d` rounded toward zero, clamped to `i64`.
fn mul_div_i64(a: i64, b: i64, d: i64) -> (r: i64)
    requires
        d > 0,
    ensures
        r == mul_div(a as int, b as int, d as int),
{
    assert(-0x4000_0000_0000_0000_0000_0000_0000_0000 <= (a as int) * (b as int)
        <= 0x4000_0000_0000_0000_0000_0000_0000_0000) by (nonlinear_arith)
        requires
            i64::MIN <= a <= i64::MAX,
            i64::MIN <= b <= i64::MAX,
    ;
    let p: i128 = (a as i128) * (b as i128);
    let q: i128 = if p >= 0 {
        p / (d as i128)
    } else {
        let np: i128 = -p;
        let nq: i128 = np / (d as i128);
        assert(0 <= (np as int) / (d as int) <= np as int) by (nonlinear_arith)
            requires
                np as int > 0,
                d as int > 0,
        ;
        -nq
    };
    assert(p >= 0 ==> 0 <= (p as int) / (d as int) <= p as int) by (nonlinear_arith)
        requires
            d as int > 0,
    ;
    sat_i128(q)
}

/// `v` clamped to the range of `i64`.
fn sat_i128(v: i128) -> (r: i64)
    ensures
        r == sat(v as int),
{
    if v > 9_223_372_036_854_775_807 {
        i64::MAX
    } else if v < -9_223_372_036_854_775_808 {
        i64::MIN
    } else {
        v as i64
    }
}

/// `a + b + c`, clamped to `i64`.
fn sat_add3(a: i64, b: i64, c: i64) -> (r: i64)
    ensures
        r == sat(a + b + c),
{
    sat_i128((a as i128) + (b as i128) + (c as i128))
}

/// A length in millionths of a pixel as whole pixels: rounded half away
/// from zero, clamped to `i32`.
pub open spec fn px(m: i64) -> i32 {
    let r = if m >= 0 {
        (m + 500_000) / 1_000_000
    } else {
        -((500_000 - m) / 1_000_000)
    };
    if r > i32::MAX {
        i32::MAX
    } else if r < i32::MIN {
        i32::MIN
    } else {
        r as i32
    }
}

/// Whole pixels of `m` (see [`px`]).
pub fn to_px(m: i64) -> (r: i32)
    ensures
        r == px(m),
{
    let v: i128 = m as i128;
    let q: i128 = if v >= 0 {
        (v + 500_000) / 1_000_000
    } else {
        -((500_000 - v) / 1_000_000)
    };
    if q > 2_147_483_647 {
        i32::MAX
    } else if q < -2_147_483_648 {
        i32::MIN
    } else {
        q as i32
    }
}

/// A size in whole pixels, at least 1.
pub open spec fn px_size(m: i64) -> i32 {
    if px(m) < 1 {
        1
    } else {
        px(m)
    }
}

fn to_px_size(m: i64) -> (r: i32)
    ensures
        r == px_size(m),
{
    let p = to_px(m);
    if p < 1 {
        1
    } else {
        p
    }
}

// --- widths and positions ------------------------------------------------------

/// A column's width in the view `view_width` wide: a proportion of it or a
/// fixed width (the default width when the column names none), at least
/// one pixel.
pub open spec fn resolved_width(w: Option<ColumnWidth>, dflt: ColumnWidth, view_width: i64) -> i64 {
    let v = match (match w {
        Some(x) => x,
        None => dflt,
    }) {
        ColumnWidth::Proportion(p) => mul_div(p as int, view_width as int, ONE as int),
        ColumnWidth::Fixed(f) => f,
    };
    max_i64(v, ONE)
}

/// Resolve a column's width.
pub fn resolve_width(width: Option<ColumnWidth>, params: &LayoutParams, view_width: Micros) -> (r:
    Micros)
    ensures
        r == resolved_width(width, params.default_column_width, view_width),
{
    let w = match width {
        Some(x) => x,
        None => params.default_column_width,
    };
    let v = match w {
        ColumnWidth::Proportion(p) => mul_div_i64(p, view_width, ONE),
        ColumnWidth::Fixed(f) => f,
    };
    if v >= ONE {
        v
    } else {
        ONE
    }
}

/// The width a column takes: a maximized column a whole work area (the
/// view plus both edge paddings), a full-width one the view, others their
/// resolved width.
pub open spec fn column_width(c: ColumnModel, p: LayoutParams, view_width: i64) -> i64 {
    if c.is_maximized {
        sat(view_width + 2 * p.edge_padding)
    } else if c.is_full_width {
        view_width
    } else {
        resolved_width(c.width, p.default_column_width, view_width)
    }
}

/// The width of every column.
pub open spec fn widths_of(cols: Seq<ColumnModel>, p: LayoutParams, view_width: i64) -> Seq<i64> {
    cols.map_values(|c: ColumnModel| column_width(c, p, view_width))
}

/// Width of each column.
pub fn column_widths(ws: &Workspace, params: &LayoutParams, view_width: Micros) -> (r: Vec<Micros>)
    ensures
        r@ == widths_of(ws@.columns, *params, view_width),
{
    let mut out: Vec<Micros> = Vec::new();
    let mut i: usize = 0;
    while i < ws.columns.len()
        invariant
            0 <= i <= ws.columns.len(),
            out@ =~= widths_of(ws@.columns, *params, view_width).take(i as int),
        decreases ws.columns.len() - i,
    {
        let c = &ws.columns[i];
        let w = if c.is_maximized {
            sat_add3(view_width, params.edge_padding, params.edge_padding)
        } else if c.is_full_width {
            view_width
        } else {
            resolve_width(c.width, params, view_width)
        };
        out.push(w);
        i += 1;
        assert(out@ =~= widths_of(ws@.columns, *params, view_width).take(i as int));
    }
    out
}

/// The left edge of column `i` in column space: the widths and gaps of the
/// columns before it.
pub open spec fn column_x(widths: Seq<i64>, gaps: i64, i: int) -> i64
    decreases i,
{
    if i <= 0 {
        0
    } else {
        sat(column_x(widths, gaps, i - 1) + widths[i - 1] + gaps)
    }
}

/// The left edge of every column.
pub open spec fn xs_of(widths: Seq<i64>, gaps: i64) -> Seq<i64> {
    Seq::new(widths.len(), |i: int| column_x(widths, gaps, i))
}

/// Column-space x of the left edge of every column.
pub fn column_xs(widths: &[Micros], gaps: Micros) -> (r: Vec<Micros>)
    ensures
        r@ == xs_of(widths@, gaps),
{
    let mut out: Vec<Micros> = Vec::new();
    let mut x: i64 = 0;
    let mut i: usize = 0;
    while i < widths.len()
        invariant
            0 <= i <= widths.len(),
            x == column_x(widths@, gaps, i as int),
            out@ =~= xs_of(widths@, gaps).take(i as int),
        decreases widths.len() - i,
    {
        out.push(x);
        x = sat_add3(x, widths[i], gaps);
        i += 1;
        assert(out@ =~= xs_of(widths@, gaps).take(i as int));
    }
    assert(xs_of(widths@, gaps).take(widths.len() as int) =~= xs_of(widths@, gaps));
    out
}

/// The view position: the active column's left edge plus the view offset.
pub open spec fn view_pos_of(ws: WorkspaceModel, xs: Seq<i64>) -> i64 {
    let active = if 0 <= ws.active_column_idx < xs.len() {
        xs[ws.active_column_idx]
    } else {
        0
    };
    sat(active + ws.view_offset)
}

/// The current view position (column-space x at the content area's left
/// edge).
pub fn view_pos(ws: &Workspace, xs: &[Micros]) -> (r: Micros)
    ensures
        r == view_pos_of(ws@, xs@),
{
    let active = if ws.active_column_idx < xs.len() {
        xs[ws.active_column_idx]
    } else {
        0
    };
    sat_add3(active, ws.view_offset, 0)
}


// --- keeping the focused column in view --------------------------------------------

pub open spec fn abs_int(v: int) -> int {
    if v >= 0 {
        v
    } else {
        -v
    }
}

/// The padding kept beside a column shown in the view: up to `gaps`, less
/// when the column is nearly as wide as the view.
pub open spec fn show_padding(view_width: i64, col_width: i64, gaps: i64) -> int {
    let half = (view_width - col_width) / 2;
    if half < 0 {
        0
    } else if half > gaps {
        if gaps < 0 {
            0
        } else {
            gaps as int
        }
    } else {
        half
    }
}

/// The view offset (relative to the column) that shows the column at
/// `col_x`, `col_width` wide, from the view position `cur_vp`: unchanged
/// when it is visible with its padding already, else aligned to the
/// nearer edge; a column at least as wide as the view is left-aligned.
pub open spec fn offset_to_show(
    cur_vp: i64,
    view_width: i64,
    col_x: i64,
    col_width: i64,
    gaps: i64,
) -> i64 {
    if view_width <= col_width {
        0
    } else {
        let padding = show_padding(view_width, col_width, gaps);
        let left = col_x - padding;
        let right = col_x + col_width + padding;
        if cur_vp <= left && right <= cur_vp + view_width {
            sat(cur_vp - col_x)
        } else if abs_int(cur_vp - left) <= abs_int(cur_vp + view_width - right) {
            sat(-padding)
        } else {
            sat(-(view_width - padding - col_width))
        }
    }
}

/// View offset that makes the column at `col_x`, `col_width` wide
/// visible (niri's `compute_new_view_offset`); relative to the column.
pub fn view_offset_to_show(
    cur_vp: Micros,
    view_width: Micros,
    col_x: Micros,
    col_width: Micros,
    gaps: Micros,
) -> (r: Micros)
    ensures
        r == offset_to_show(cur_vp, view_width, col_x, col_width, gaps),
{
    if view_width <= col_width {
        return 0;
    }
    let half: i128 = ((view_width as i128) - (col_width as i128)) / 2;
    let padding: i128 = if half < 0 {
        0
    } else if half > (gaps as i128) {
        if gaps < 0 {
            0
        } else {
            gaps as i128
        }
    } else {
        half
    };
    let vp = cur_vp as i128;
    let left: i128 = (col_x as i128) - padding;
    let right: i128 = (col_x as i128) + (col_width as i128) + padding;
    if vp <= left && right <= vp + (view_width as i128) {
        return sat_i128(vp - (col_x as i128));
    }
    let dl: i128 = if vp - left >= 0 {
        vp - left
    } else {
        left - vp
    };
    let e: i128 = vp + (view_width as i128) - right;
    let dr: i128 = if e >= 0 {
        e
    } else {
        -e
    };
    if dl <= dr {
        sat_i128(-padding)
    } else {
        sat_i128(-((view_width as i128) - padding - (col_width as i128)))
    }
}

/// The offset that centers the column at `col_x`, `col_width` wide, in
/// the view: `col_x + (col_width - view_width) / 2`; 0 for a column at
/// least as wide as the view.
pub open spec fn offset_centered(view_width: i64, col_x: i64, col_width: i64) -> i64 {
    if view_width <= col_width {
        0
    } else {
        sat(col_x + div_trunc(col_width - view_width, 2))
    }
}

/// View offset that centers a column in the view.
pub fn view_offset_centered(view_width: Micros, col_x: Micros, col_width: Micros) -> (r: Micros)
    ensures
        r == offset_centered(view_width, col_x, col_width),
{
    if view_width <= col_width {
        return 0;
    }
    let d: i128 = (view_width as i128) - (col_width as i128);
    let half: i128 = d / 2;
    sat_i128((col_x as i128) - half)
}

/// The column shown next to target `idx` when focus came from `prev`:
/// the target's neighbor on the side focus came from.
pub open spec fn source_column(idx: int, prev: int, n: int) -> int {
    if prev > idx {
        if idx + 1 < n - 1 {
            idx + 1
        } else {
            n - 1
        }
    } else if idx >= 1 {
        idx - 1
    } else {
        0
    }
}

/// The view offset for focusing column `idx` (coming from `prev_idx`):
/// always centered, never centered (shown with least motion), or, on
/// overflow, centered only when the target and the column it was reached
/// from do not fit in the view together.
pub open spec fn offset_for_column(
    ws: WorkspaceModel,
    p: LayoutParams,
    view_width: i64,
    xs: Seq<i64>,
    widths: Seq<i64>,
    idx: int,
    prev_idx: Option<int>,
) -> i64 {
    let tx = xs[idx];
    let tw = widths[idx];
    let show = offset_to_show(view_pos_of(ws, xs), view_width, tx, tw, p.gaps);
    match p.center_focused_column {
        CenterFocused::Always => offset_centered(view_width, tx, tw),
        CenterFocused::Never => show,
        CenterFocused::OnOverflow => match prev_idx {
            None => show,
            Some(prev) => if prev == idx {
                show
            } else {
                let s = source_column(idx, prev, ws.columns.len() as int);
                let sx = xs[s];
                let sw = widths[s];
                let span = (if sx < tx {
                    tx - sx + tw
                } else {
                    sx - tx + sw
                }) + 2 * p.gaps;
                if span <= view_width {
                    show
                } else {
                    offset_centered(view_width, tx, tw)
                }
            },
        },
    }
}

/// The view offset for focusing column `idx` (see [`offset_for_column`]).
pub fn view_offset_for_column(
    ws: &Workspace,
    params: &LayoutParams,
    view_width: Micros,
    xs: &[Micros],
    widths: &[Micros],
    idx: usize,
    prev_idx: Option<usize>,
) -> (r: Micros)
    requires
        idx < xs.len(),
        idx < widths.len(),
        (params.center_focused_column == CenterFocused::OnOverflow && prev_idx is Some && prev_idx
            != Some(idx)) ==> ({
            let s = source_column(idx as int, prev_idx.unwrap() as int, ws.columns.len() as int);
            &&& ws.columns.len() > 0
            &&& 0 <= s < xs.len()
            &&& s < widths.len()
        }),
    ensures
        r == offset_for_column(
            ws@,
            *params,
            view_width,
            xs@,
            widths@,
            idx as int,
            match prev_idx {
                Some(p) => Some(p as int),
                None => None,
            },
        ),
{
    let tx = xs[idx];
    let tw = widths[idx];
    match params.center_focused_column {
        CenterFocused::Always => view_offset_centered(view_width, tx, tw),
        CenterFocused::Never => view_offset_to_show(view_pos(ws, xs), view_width, tx, tw, params.gaps),
        CenterFocused::OnOverflow => {
            let prev = match prev_idx {
                Some(p) => p,
                None => {
                    return view_offset_to_show(view_pos(ws, xs), view_width, tx, tw, params.gaps);
                },
            };
            if prev == idx {
                return view_offset_to_show(view_pos(ws, xs), view_width, tx, tw, params.gaps);
            }
            let n = ws.columns.len();
            let s = if prev > idx {
                if idx + 1 < n - 1 {
                    idx + 1
                } else {
                    n - 1
                }
            } else if idx >= 1 {
                idx - 1
            } else {
                0
            };
            let sx = xs[s] as i128;
            let sw = widths[s] as i128;
            let t = tx as i128;
            let span: i128 = (if sx < t {
                t - sx + (tw as i128)
            } else {
                sx - t + sw
            }) + 2 * (params.gaps as i128);
            if span <= (view_width as i128) {
                view_offset_to_show(view_pos(ws, xs), view_width, tx, tw, params.gaps)
            } else {
                view_offset_centered(view_width, tx, tw)
            }
        },
    }
}

/// The view position `vp` kept within the columns: when everything fits
/// the first column stays at the left edge; otherwise the view may not
/// scroll past the first or the last column.
pub open spec fn clamped_view_pos(vp: i64, xs: Seq<i64>, widths: Seq<i64>, view_width: i64) -> i64 {
    if xs.len() == 0 || widths.len() == 0 {
        vp
    } else {
        let first = xs[0];
        let last_right = xs.last() + widths.last();
        if last_right - first <= view_width {
            first
        } else if vp < first {
            first
        } else if vp > last_right - view_width {
            sat(last_right - view_width)
        } else {
            vp
        }
    }
}

/// Clamp a view position so the view never scrolls beyond the first or
/// the last column.
pub fn clamp_view_pos(vp: Micros, xs: &[Micros], widths: &[Micros], view_width: Micros) -> (r: Micros)
    ensures
        r == clamped_view_pos(vp, xs@, widths@, view_width),
{
    if xs.len() == 0 || widths.len() == 0 {
        return vp;
    }
    let first = xs[0];
    let last_right: i128 = (xs[xs.len() - 1] as i128) + (widths[widths.len() - 1] as i128);
    if last_right - (first as i128) <= (view_width as i128) {
        first
    } else if vp < first {
        first
    } else if (vp as i128) > last_right - (view_width as i128) {
        sat_i128(last_right - (view_width as i128))
    } else {
        vp
    }
}


// --- tile heights --------------------------------------------------------------------

/// The sum of the first `k` tile weights (saturating at each step).
pub open spec fn weight_sum(tiles: Seq<Tile>, k: int) -> i64
    decreases k,
{
    if k <= 0 {
        0
    } else {
        sat(weight_sum(tiles, k - 1) + tiles[k - 1].height_weight)
    }
}

/// The height tiles share: the column height less the gaps between them,
/// at least one pixel per tile.
pub open spec fn available_height(n: int, gaps: i64, area_h: i64) -> i64 {
    let a = sat(area_h - gaps * (n - 1));
    if a < n * ONE {
        sat(n * ONE)
    } else {
        a
    }
}

/// The (y, height) of tiles `i..` of a column: each tile gets its weight's
/// share of `avail` (the last one what is left), at least one pixel, and
/// the next tile starts a gap below it.
pub open spec fn heights_from(
    tiles: Seq<Tile>,
    gaps: i64,
    avail: i64,
    total: i64,
    i: int,
    y: i64,
    used: i64,
) -> Seq<(i64, i64)>
    decreases tiles.len() - i,
{
    if i < 0 || i >= tiles.len() {
        Seq::empty()
    } else {
        let last = i == tiles.len() - 1;
        let share = if last {
            sat(avail - used)
        } else if total > 0 {
            mul_div(avail as int, tiles[i].height_weight as int, total as int)
        } else {
            0
        };
        let h = max_i64(share, ONE);
        seq![(y, h)] + heights_from(
            tiles,
            gaps,
            avail,
            total,
            i + 1,
            sat(y + h + gaps),
            if last {
                used
            } else {
                sat(used + share)
            },
        )
    }
}

/// The (y, height) of every tile of a column `area_h` high.
pub open spec fn tile_heights_of(tiles: Seq<Tile>, gaps: i64, area_h: i64) -> Seq<(i64, i64)> {
    heights_from(
        tiles,
        gaps,
        available_height(tiles.len() as int, gaps, area_h),
        weight_sum(tiles, tiles.len() as int),
        0,
        0,
        0,
    )
}

/// Distribute a column's height among its tiles by weight, with `gaps`
/// between tiles: `(y, height)` of each tile, in column space.
pub fn tile_heights(ws: &Workspace, ci: usize, params: &LayoutParams, area_h: Micros) -> (r: Vec<
    (Micros, Micros),
>)
    requires
        ci < ws.columns.len(),
    ensures
        r@ == tile_heights_of(ws@.columns[ci as int].tiles, params.gaps, area_h),
{
    let tiles = &ws.columns[ci].tiles;
    let n = tiles.len();
    let mut out: Vec<(Micros, Micros)> = Vec::new();
    if n == 0 {
        return out;
    }
    let gaps = params.gaps;
    let nm1: i128 = (n - 1) as i128;
    let a: i64 = match (gaps as i128).checked_mul(nm1) {
        Some(p) => match (area_h as i128).checked_sub(p) {
            Some(d) => sat_i128(d),
            None => if p > 0 {
                i64::MIN
            } else {
                i64::MAX
            },
        },
        None => if gaps > 0 {
            i64::MIN
        } else {
            assert(gaps * nm1 < 0) by (nonlinear_arith)
                requires
                    gaps <= 0,
                    nm1 >= 0,
                    gaps * nm1 < i128::MIN || gaps * nm1 > i128::MAX,
            ;
            i64::MAX
        },
    };
    let floor: i128 = (n as i128) * 1_000_000;
    let avail: i64 = if (a as i128) < floor {
        sat_i128(floor)
    } else {
        a
    };
    let mut total: i64 = 0;
    let mut k: usize = 0;
    while k < n
        invariant
            n == tiles@.len(),
            0 <= k <= n,
            total == weight_sum(tiles@, k as int),
        decreases n - k,
    {
        total = sat_add3(total, tiles[k].height_weight, 0);
        k += 1;
    }
    let ghost all = tiles_heights_goal(tiles@, gaps, avail, total);
    let mut y: i64 = 0;
    let mut used: i64 = 0;
    let mut i: usize = 0;
    while i < n
        invariant
            n == tiles@.len(),
            0 <= i <= n,
            all == heights_from(tiles@, gaps, avail, total, 0, 0, 0),
            all == out@ + heights_from(tiles@, gaps, avail, total, i as int, y, used),
        decreases n - i,
    {
        let last = i == n - 1;
        let share: i64 = if last {
            sat_i128((avail as i128) - (used as i128))
        } else if total > 0 {
            mul_div_i64(avail, tiles[i].height_weight, total)
        } else {
            0
        };
        let h = if share >= ONE {
            share
        } else {
            ONE
        };
        let ghost rest = heights_from(tiles@, gaps, avail, total, i as int, y, used);
        out.push((y, h));
        y = sat_add3(y, h, gaps);
        if !last {
            used = sat_add3(used, share, 0);
        }
        proof {
            assert(rest =~= seq![(rest[0].0, rest[0].1)] + heights_from(
                tiles@,
                gaps,
                avail,
                total,
                i + 1,
                y,
                used,
            ));
        }
        i += 1;
        assert(all =~= out@ + heights_from(tiles@, gaps, avail, total, i as int, y, used));
    }
    assert(heights_from(tiles@, gaps, avail, total, n as int, y, used) =~= Seq::<(i64, i64)>::empty());
    assert(out@ =~= all);
    out
}

/// The heights a column's tiles get with the given available height and
/// weight sum.
pub open spec fn tiles_heights_goal(tiles: Seq<Tile>, gaps: i64, avail: i64, total: i64) -> Seq<
    (i64, i64),
> {
    heights_from(tiles, gaps, avail, total, 0, 0, 0)
}


// --- the whole workspace ----------------------------------------------------------------

/// `ws` with the view offset that shows its active column (see
/// [`offset_for_column`]); 0 for an empty workspace.
pub open spec fn view_refreshed(
    ws: WorkspaceModel,
    p: LayoutParams,
    view_width: i64,
    prev_idx: Option<int>,
) -> WorkspaceModel {
    WorkspaceModel {
        view_offset: if ws.columns.len() == 0 {
            0
        } else {
            let widths = widths_of(ws.columns, p, view_width);
            offset_for_column(
                ws,
                p,
                view_width,
                xs_of(widths, p.gaps),
                widths,
                ws.active_column_idx,
                prev_idx,
            )
        },
        ..ws
    }
}

/// Store in `ws` the view offset that shows its active column (see
/// [`view_refreshed`]).
pub fn refresh_view_offset(
    ws: &mut Workspace,
    params: &LayoutParams,
    view_width: Micros,
    prev_idx: Option<usize>,
)
    requires
        old(ws)@.wf(),
    ensures
        final(ws)@ == view_refreshed(
            old(ws)@,
            *params,
            view_width,
            match prev_idx {
                Some(p) => Some(p as int),
                None => None,
            },
        ),
{
    if ws.columns.len() == 0 {
        ws.view_offset = 0;
        return;
    }
    let idx = ws.active_column_idx;
    let widths = column_widths(ws, params, view_width);
    let xs = column_xs(widths.as_slice(), params.gaps);
    let off = view_offset_for_column(ws, params, view_width, xs.as_slice(), widths.as_slice(), idx, prev_idx);
    ws.view_offset = off;
}

/// The rectangles of the first tiles of a column (as many as there are
/// heights): left edge `x`, top `base_y`, width `w`, the given heights.
pub open spec fn tile_rects(
    tiles: Seq<Tile>,
    heights: Seq<(i64, i64)>,
    x: i64,
    base_y: i64,
    w: i64,
) -> Seq<TileRect> {
    let n = if tiles.len() < heights.len() {
        tiles.len()
    } else {
        heights.len()
    };
    Seq::new(
        n,
        |i: int|
            TileRect {
                id: tiles[i].id,
                x: px(x),
                y: px(sat(base_y + heights[i].0)),
                w: px_size(w),
                h: px_size(heights[i].1),
            },
    )
}

/// Append the rectangles of a column's tiles (see [`tile_rects`]).
fn push_tile_rects(
    out: &mut Vec<TileRect>,
    tiles: &[Tile],
    heights: &[(Micros, Micros)],
    x: Micros,
    base_y: Micros,
    w: Micros,
)
    ensures
        final(out)@ == old(out)@ + tile_rects(tiles@, heights@, x, base_y, w),
{
    let n = if tiles.len() < heights.len() {
        tiles.len()
    } else {
        heights.len()
    };
    let ghost start = out@;
    let mut i: usize = 0;
    while i < n
        invariant
            n <= tiles.len(),
            n <= heights.len(),
            0 <= i <= n,
            out@ =~= start + tile_rects(tiles@, heights@, x, base_y, w).take(i as int),
        decreases n - i,
    {
        let (y, h) = heights[i];
        out.push(
            TileRect {
                id: tiles[i].id,
                x: to_px(x),
                y: to_px(sat_add3(base_y, y, 0)),
                w: to_px_size(w),
                h: to_px_size(h),
            },
        );
        i += 1;
        assert(out@ =~= start + tile_rects(tiles@, heights@, x, base_y, w).take(i as int));
    }
    assert(tile_rects(tiles@, heights@, x, base_y, w).take(n as int) =~= tile_rects(
        tiles@,
        heights@,
        x,
        base_y,
        w,
    ));
}

/// A length less two paddings, at least one pixel.
pub open spec fn inner_size(len: i64, pad: i64) -> i64 {
    max_i64(sat(len - 2 * pad), ONE)
}

/// The rectangles of column `ci` when not in overview: placed at its
/// column-space x less the view position, inside the padded content area;
/// a maximized column covers the whole work area, its first tile only.
pub open spec fn column_rects(
    ws: WorkspaceModel,
    p: LayoutParams,
    area: (i64, i64, i64, i64),
    widths: Seq<i64>,
    xs: Seq<i64>,
    vp: i64,
    ci: int,
) -> Seq<TileRect> {
    let (ax, ay, aw, ah) = area;
    let col = ws.columns[ci];
    let off = xs[ci] - vp;
    if col.is_maximized {
        tile_rects(col.tiles, seq![(0i64, ah)], sat(ax + off), ay, aw)
    } else {
        tile_rects(
            col.tiles,
            tile_heights_of(col.tiles, p.gaps, inner_size(ah, p.edge_padding)),
            sat(ax + p.edge_padding + off),
            sat(ay + p.edge_padding),
            widths[ci],
        )
    }
}

/// The rectangles of columns `0..k`.
pub open spec fn columns_rects(
    ws: WorkspaceModel,
    p: LayoutParams,
    area: (i64, i64, i64, i64),
    widths: Seq<i64>,
    xs: Seq<i64>,
    vp: i64,
    k: int,
) -> Seq<TileRect>
    decreases k,
{
    if k <= 0 {
        Seq::empty()
    } else {
        columns_rects(ws, p, area, widths, xs, vp, k - 1) + column_rects(
            ws,
            p,
            area,
            widths,
            xs,
            vp,
            k - 1,
        )
    }
}

/// The scale of the overview: the whole strip fits the view with a 4%
/// margin, never scaled up (millionths).
pub open spec fn overview_scale(view_width: i64, total: i64) -> i64 {
    let s = mul_div(view_width as int, 960_000, max_i64(total, ONE) as int);
    if s > ONE {
        ONE
    } else {
        s
    }
}

/// The strip width in the overview: every column and the gaps between.
pub open spec fn strip_width(widths: Seq<i64>, gaps: i64, k: int) -> i64
    decreases k,
{
    if k <= 0 {
        0
    } else if k == 1 {
        widths[0]
    } else {
        sat(strip_width(widths, gaps, k - 1) + gaps + widths[k - 1])
    }
}

/// `(y, h)` pairs scaled by `scale` millionths.
pub open spec fn scaled_heights(hs: Seq<(i64, i64)>, scale: i64) -> Seq<(i64, i64)> {
    hs.map_values(
        |yh: (i64, i64)| (mul_div(yh.0 as int, scale as int, ONE as int), mul_div(yh.1 as int, scale as int, ONE as int)),
    )
}

/// The overview rectangles of columns `ci..`, the first starting at `x`:
/// each column scaled, then a scaled gap.
pub open spec fn overview_from(
    ws: WorkspaceModel,
    p: LayoutParams,
    widths: Seq<i64>,
    view_height: i64,
    scale: i64,
    base_y: i64,
    ci: int,
    x: i64,
) -> Seq<TileRect>
    decreases ws.columns.len() - ci,
{
    if ci < 0 || ci >= ws.columns.len() {
        Seq::empty()
    } else {
        let col = ws.columns[ci];
        let w = mul_div(widths[ci] as int, scale as int, ONE as int);
        tile_rects(
            col.tiles,
            scaled_heights(tile_heights_of(col.tiles, p.gaps, view_height), scale),
            x,
            base_y,
            w,
        ) + overview_from(
            ws,
            p,
            widths,
            view_height,
            scale,
            base_y,
            ci + 1,
            sat(x + w + mul_div(p.gaps as int, scale as int, ONE as int)),
        )
    }
}

/// The overview geometry: every column scaled by one factor so that the
/// strip fits the view, centered in the work area.
pub open spec fn overview_rects(ws: WorkspaceModel, p: LayoutParams, area: (i64, i64, i64, i64)) -> Seq<
    TileRect,
> {
    let (ax, ay, aw, ah) = area;
    let vw = inner_size(aw, p.edge_padding);
    let vh = inner_size(ah, p.edge_padding);
    let widths = widths_of(ws.columns, p, vw);
    let total = strip_width(widths, p.gaps, widths.len() as int);
    let scale = overview_scale(vw, total);
    let scaled_total = mul_div(total as int, scale as int, ONE as int);
    let left = sat(ax + div_trunc(aw - scaled_total, 2));
    let base_y = sat(ay + div_trunc(ah - mul_div(vh as int, scale as int, ONE as int), 2));
    overview_from(ws, p, widths, vh, scale, base_y, 0, left)
}

/// The on-screen rectangles of a workspace's windows, in absolute screen
/// coordinates, for the work area `area` (left, top, width, height).
pub open spec fn workspace_rects(ws: WorkspaceModel, p: LayoutParams, area: (i64, i64, i64, i64)) -> Seq<
    TileRect,
> {
    if ws.is_overview && ws.columns.len() > 0 {
        overview_rects(ws, p, area)
    } else {
        let vw = inner_size(area.2, p.edge_padding);
        let widths = widths_of(ws.columns, p, vw);
        let xs = xs_of(widths, p.gaps);
        let vp = clamped_view_pos(view_pos_of(ws, xs), xs, widths, vw);
        columns_rects(ws, p, area, widths, xs, vp, ws.columns.len() as int)
    }
}

/// `len - 2 * pad`, at least one pixel.
pub(crate) fn inner_size_of(len: Micros, pad: Micros) -> (r: Micros)
    ensures
        r == inner_size(len, pad),
{
    let v = sat_i128((len as i128) - 2 * (pad as i128));
    if v >= ONE {
        v
    } else {
        ONE
    }
}

/// Compute the full on-screen geometry of a workspace (see
/// [`workspace_rects`]); `area` is the monitor work area (left, top,
/// width, height).
pub fn compute_workspace_geometry(
    ws: &Workspace,
    params: &LayoutParams,
    area: (Micros, Micros, Micros, Micros),
) -> (r: Vec<TileRect>)
    ensures
        r@ == workspace_rects(ws@, *params, area),
{
    if ws.is_overview && ws.columns.len() > 0 {
        return overview_geometry(ws, params, area);
    }
    let (ax, ay, aw, ah) = area;
    let view_width = inner_size_of(aw, params.edge_padding);
    let view_height = inner_size_of(ah, params.edge_padding);
    let widths = column_widths(ws, params, view_width);
    let xs = column_xs(widths.as_slice(), params.gaps);
    let vp = clamp_view_pos(view_pos(ws, xs.as_slice()), xs.as_slice(), widths.as_slice(), view_width);
    let mut out: Vec<TileRect> = Vec::new();
    let mut ci: usize = 0;
    while ci < ws.columns.len()
        invariant
            0 <= ci <= ws.columns.len(),
            widths@ == widths_of(ws@.columns, *params, view_width),
            xs@ == xs_of(widths@, params.gaps),
            view_width == inner_size(aw, params.edge_padding),
            view_height == inner_size(ah, params.edge_padding),
            area == (ax, ay, aw, ah),
            vp == clamped_view_pos(view_pos_of(ws@, xs@), xs@, widths@, view_width),
            out@ == columns_rects(ws@, *params, area, widths@, xs@, vp, ci as int),
        decreases ws.columns.len() - ci,
    {
        let col = &ws.columns[ci];
        let off: i128 = (xs[ci] as i128) - (vp as i128);
        if col.is_maximized {
            let heights: Vec<(Micros, Micros)> = vec![(0, ah)];
            assert(heights@ =~= seq![(0i64, ah)]);
            push_tile_rects(&mut out, col.tiles.as_slice(), heights.as_slice(), sat_i128((ax as i128) + off), ay, aw);
        } else {
            let heights = tile_heights(ws, ci, params, view_height);
            push_tile_rects(
                &mut out,
                col.tiles.as_slice(),
                heights.as_slice(),
                sat_i128((ax as i128) + (params.edge_padding as i128) + off),
                sat_add3(ay, params.edge_padding, 0),
                widths[ci],
            );
        }
        ci += 1;
    }
    out
}

/// Overview geometry (see [`overview_rects`]).
fn overview_geometry(ws: &Workspace, params: &LayoutParams, area: (Micros, Micros, Micros, Micros)) -> (r:
    Vec<TileRect>)
    requires
        ws.columns.len() > 0,
    ensures
        r@ == overview_rects(ws@, *params, area),
{
    let (ax, ay, aw, ah) = area;
    let view_width = inner_size_of(aw, params.edge_padding);
    let view_height = inner_size_of(ah, params.edge_padding);
    let widths = column_widths(ws, params, view_width);
    let n = widths.len();
    let mut total: i64 = widths[0];
    let mut k: usize = 1;
    while k < n
        invariant
            n == widths@.len(),
            1 <= k <= n,
            total == strip_width(widths@, params.gaps, k as int),
        decreases n - k,
    {
        total = sat_add3(total, params.gaps, widths[k]);
        k += 1;
    }
    let denom = if total >= ONE {
        total
    } else {
        ONE
    };
    let s0 = mul_div_i64(view_width, 960_000, denom);
    let scale = if s0 > ONE {
        ONE
    } else {
        s0
    };
    let scaled_total = mul_div_i64(total, scale, ONE);
    let left = sat_i128((ax as i128) + div_half((aw as i128) - (scaled_total as i128)));
    let scaled_h = mul_div_i64(view_height, scale, ONE);
    let base_y = sat_i128((ay as i128) + div_half((ah as i128) - (scaled_h as i128)));
    let scaled_gap = mul_div_i64(params.gaps, scale, ONE);
    let ghost all = overview_from(ws@, *params, widths@, view_height, scale, base_y, 0, left);
    let mut out: Vec<TileRect> = Vec::new();
    let mut x: i64 = left;
    let mut ci: usize = 0;
    while ci < ws.columns.len()
        invariant
            0 <= ci <= ws.columns.len(),
            widths@.len() == ws.columns.len(),
            scaled_gap == mul_div(params.gaps as int, scale as int, ONE as int),
            all == out@ + overview_from(ws@, *params, widths@, view_height, scale, base_y, ci as int, x),
        decreases ws.columns.len() - ci,
    {
        let col = &ws.columns[ci];
        let w = mul_div_i64(widths[ci], scale, ONE);
        let hs = tile_heights(ws, ci, params, view_height);
        let mut scaled: Vec<(Micros, Micros)> = Vec::new();
        let mut t: usize = 0;
        while t < hs.len()
            invariant
                0 <= t <= hs.len(),
                scaled@ =~= scaled_heights(hs@, scale).take(t as int),
            decreases hs.len() - t,
        {
            let (y, h) = hs[t];
            scaled.push((mul_div_i64(y, scale, ONE), mul_div_i64(h, scale, ONE)));
            t += 1;
            assert(scaled@ =~= scaled_heights(hs@, scale).take(t as int));
        }
        assert(scaled_heights(hs@, scale).take(hs.len() as int) =~= scaled_heights(hs@, scale));
        let ghost rest = overview_from(ws@, *params, widths@, view_height, scale, base_y, ci as int, x);
        let x0 = x;
        push_tile_rects(&mut out, col.tiles.as_slice(), scaled.as_slice(), x, base_y, w);
        x = sat_add3(x, w, scaled_gap);
        proof {
            assert(ws@.columns[ci as int] == col@);
            assert(rest == tile_rects(col@.tiles, scaled@, x0, base_y, w) + overview_from(
                ws@,
                *params,
                widths@,
                view_height,
                scale,
                base_y,
                ci + 1,
                x,
            ));
        }
        ci += 1;
    }
    assert(overview_from(ws@, *params, widths@, view_height, scale, base_y, ci as int, x) =~= Seq::<
        TileRect,
    >::empty());
    out
}

/// `v / 2` rounded toward zero.
fn div_half(v: i128) -> (r: i128)
    requires
        -0x4000_0000_0000_0000_0000_0000_0000_0000 <= v <= 0x4000_0000_0000_0000_0000_0000_0000_0000,
    ensures
        r == div_trunc(v as int, 2),
{
    if v >= 0 {
        v / 2
    } else {
        -((-v) / 2)
    }
}

} // verus!

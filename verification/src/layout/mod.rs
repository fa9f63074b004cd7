//! The layout data model: how windows are organized into monitors,
//! workspaces, columns and tiles, and the focus indices within them.
//!
//! ```text
//! Layout
//!  └─ MonitorLayout  (per output)
//!      └─ Workspace  (per monitor, one active at a time)
//!          └─ Column (horizontal scroll axis)
//!              └─ Tile (vertical stack inside a column)
//! ```
//!
//! Real quantities (view offsets, widths, height weights) are held as
//! [`Micros`]: integers counting millionths of a pixel or of a whole.
pub mod geometry;
pub mod workspace;
pub mod monitor;
pub mod size;
pub mod laws;

pub use monitor::{Layout, MonitorLayout};

use vstd::prelude::*;

verus! {

/// Identity of a tracked window (the native window handle's value).
pub type WindowId = isize;

/// A real quantity counted in millionths (pixels, proportions, weights).
pub type Micros = i64;

/// One whole unit in [`Micros`].
pub const ONE: i64 = 1_000_000;

/// A single window inside a column.
#[derive(Clone, Copy, Debug, PartialEq, Eq, Structural)]
pub struct Tile {
    pub id: WindowId,
    /// Proportional weight for auto height distribution; `ONE` is an equal share.
    pub height_weight: Micros,
}

impl Tile {
    pub open spec fn spec_new(id: WindowId) -> Tile {
        Tile { id, height_weight: ONE }
    }

    pub fn new(id: WindowId) -> (t: Tile)
        ensures
            t == Tile::spec_new(id),
    {
        Tile { id, height_weight: ONE }
    }
}

/// How wide a column wants to be.
#[derive(Clone, Copy, Debug, PartialEq, Eq, Structural)]
pub enum ColumnWidth {
    /// Proportion of the view width, in millionths (500_000 = half the view).
    Proportion(Micros),
    /// Fixed width in millionths of a logical pixel.
    Fixed(Micros),
}

/// A vertical stack of tiles; one element of the horizontal scroll axis.
#[derive(Clone, Debug)]
pub struct Column {
    pub tiles: Vec<Tile>,
    /// Index of the focused tile in this column.
    pub active_tile_idx: usize,
    /// Desired width; `None` = config default.
    pub width: Option<ColumnWidth>,
    /// Whether the column is full-width (stretched to view edges).
    pub is_full_width: bool,
    /// Whether the column is maximized (covers the whole monitor).
    pub is_maximized: bool,
}

/// The mathematical value of a [`Column`].
#[verifier::ext_equal]
pub struct ColumnModel {
    pub tiles: Seq<Tile>,
    pub active_tile_idx: int,
    pub width: Option<ColumnWidth>,
    pub is_full_width: bool,
    pub is_maximized: bool,
}

impl View for Column {
    type V = ColumnModel;

    open spec fn view(&self) -> ColumnModel {
        ColumnModel {
            tiles: self.tiles@,
            active_tile_idx: self.active_tile_idx as int,
            width: self.width,
            is_full_width: self.is_full_width,
            is_maximized: self.is_maximized,
        }
    }
}

impl ColumnModel {
    /// A column holds at least one tile and focuses one of them.
    pub open spec fn wf(self) -> bool {
        &&& self.tiles.len() > 0
        &&& 0 <= self.active_tile_idx < self.tiles.len()
    }

    /// A fresh column holding one window.
    pub open spec fn single(id: WindowId) -> ColumnModel {
        ColumnModel {
            tiles: seq![Tile::spec_new(id)],
            active_tile_idx: 0,
            width: None,
            is_full_width: false,
            is_maximized: false,
        }
    }

    /// The focused window of the column, if its focus index is in range.
    pub open spec fn focused_id(self) -> Option<WindowId> {
        if 0 <= self.active_tile_idx < self.tiles.len() {
            Some(self.tiles[self.active_tile_idx].id)
        } else {
            None
        }
    }

    /// The window ids of the column, top to bottom.
    pub open spec fn ids(self) -> Seq<WindowId> {
        self.tiles.map_values(|t: Tile| t.id)
    }

    pub open spec fn contains(self, id: WindowId) -> bool {
        exists|t: int| 0 <= t < self.tiles.len() && self.tiles[t].id == id
    }
}

impl Column {
    pub fn new(id: WindowId) -> (c: Column)
        ensures
            c@ == ColumnModel::single(id),
    {
        let c = Column {
            tiles: vec![Tile::new(id)],
            active_tile_idx: 0,
            width: None,
            is_full_width: false,
            is_maximized: false,
        };
        assert(c@.tiles =~= seq![Tile::spec_new(id)]);
        c
    }

    /// The focused tile, if the focus index is in range.
    pub fn active_tile(&self) -> (t: Option<&Tile>)
        ensures
            t == (if self.active_tile_idx < self.tiles.len() {
                Some(&self.tiles@[self.active_tile_idx as int])
            } else {
                None
            }),
    {
        if self.active_tile_idx < self.tiles.len() {
            Some(&self.tiles[self.active_tile_idx])
        } else {
            None
        }
    }

    /// The window ids of this column, top to bottom.
    pub fn window_ids(&self) -> (r: Vec<WindowId>)
        ensures
            r@ == self@.ids(),
    {
        let mut out: Vec<WindowId> = Vec::new();
        let mut t: usize = 0;
        while t < self.tiles.len()
            invariant
                0 <= t <= self.tiles.len(),
                out@ =~= self@.ids().take(t as int),
            decreases self.tiles.len() - t,
        {
            out.push(self.tiles[t].id);
            t += 1;
            assert(out@ =~= self@.ids().take(t as int));
        }
        assert(self@.ids().take(self.tiles.len() as int) =~= self@.ids());
        out
    }

    /// The focused window of this column.
    pub fn focused_id(&self) -> (r: Option<WindowId>)
        ensures
            r == self@.focused_id(),
    {
        match self.active_tile() {
            Some(t) => Some(t.id),
            None => None,
        }
    }
}

/// The mathematical value of a [`Workspace`].
#[verifier::ext_equal]
pub struct WorkspaceModel {
    pub columns: Seq<ColumnModel>,
    pub active_column_idx: int,
    pub view_offset: Micros,
    pub fullscreen_id: Option<WindowId>,
    pub is_overview: bool,
    /// Column (and view offset) to return to when a freshly created column
    /// is removed before any focus change.
    pub prev_active: Option<(int, Micros)>,
}

/// One workspace: a horizontally scrolling sequence of columns.
#[derive(Clone, Debug)]
pub struct Workspace {
    pub columns: Vec<Column>,
    /// Index of the focused column.
    pub active_column_idx: usize,
    /// Horizontal view offset (millionths of a pixel), relative to the
    /// active column. Positive = view scrolled right.
    pub view_offset: Micros,
    /// The windowed-fullscreen window, covering the whole monitor.
    pub fullscreen_id: Option<WindowId>,
    /// Overview mode: all columns scaled down to fit at once.
    pub is_overview: bool,
    /// If the active column is removed without any intermediate focus
    /// change, focus (and view offset) return to this column.
    pub activate_prev_column_on_removal: Option<(usize, Micros)>,
}

impl View for Workspace {
    type V = WorkspaceModel;

    open spec fn view(&self) -> WorkspaceModel {
        WorkspaceModel {
            columns: self.columns@.map_values(|c: Column| c@),
            active_column_idx: self.active_column_idx as int,
            view_offset: self.view_offset,
            fullscreen_id: self.fullscreen_id,
            is_overview: self.is_overview,
            prev_active: match self.activate_prev_column_on_removal {
                Some((i, o)) => Some((i as int, o)),
                None => None,
            },
        }
    }
}

/// Horizontal direction.
#[derive(Clone, Copy, Debug, PartialEq, Eq, Structural)]
pub enum DirH {
    Left,
    Right,
}

/// Vertical direction.
#[derive(Clone, Copy, Debug, PartialEq, Eq, Structural)]
pub enum DirV {
    Up,
    Down,
}

/// Horizontal edge for focus-column-first/last.
#[derive(Clone, Copy, Debug, PartialEq, Eq, Structural)]
pub enum Edge {
    First,
    Last,
}

/// A parsed size-change argument of set-column-width / set-window-height.
#[derive(Clone, Copy, Debug, PartialEq, Eq, Structural)]
pub enum SizeChange {
    /// "+100" / "-100": adjust by a delta (millionths of a pixel).
    Delta(Micros),
    /// "1000": set a fixed size (millionths of a pixel).
    Fixed(Micros),
    /// "50%": scale by a proportion (millionths; 500_000 = 50%).
    Proportion(Micros),
}

/// `a + b`, clamped to the range of `i64`.
pub open spec fn sat_add_spec(a: int, b: int) -> i64 {
    if a + b > i64::MAX {
        i64::MAX
    } else if a + b < i64::MIN {
        i64::MIN
    } else {
        (a + b) as i64
    }
}

pub fn sat_add(a: i64, b: i64) -> (r: i64)
    ensures
        r == sat_add_spec(a as int, b as int),
{
    match a.checked_add(b) {
        Some(s) => s,
        None => if b > 0 { i64::MAX } else { i64::MIN },
    }
}

/// Integer quotient rounded toward zero (Rust's `/` on signed integers).
pub open spec fn div_trunc(a: int, b: int) -> int
    recommends
        b > 0,
{
    if a >= 0 {
        a / b
    } else {
        -((-a) / b)
    }
}

pub fn div_trunc_i64(a: i64, b: i64) -> (r: i64)
    requires
        b > 0,
    ensures
        r == div_trunc(a as int, b as int),
{
    if a >= 0 {
        a / b
    } else {
        let na: i128 = -(a as i128);
        let q: i128 = na / (b as i128);
        assert(0 <= (na as int) / (b as int) <= na as int) by (nonlinear_arith)
            requires na as int > 0, b as int > 0;
        (-q) as i64
    }
}

} // verus!

//! Structural operations on one workspace: adding and removing windows,
//! moving focus, reordering columns and tiles, and sizing.
use vstd::prelude::*;

use super::{
    div_trunc, div_trunc_i64, sat_add, sat_add_spec, Column, ColumnModel, ColumnWidth, DirH,
    DirV, Edge, Micros, SizeChange, Tile, WindowId, Workspace, WorkspaceModel, ONE,
};

verus! {

/// `a - b`, or 0 when that would be negative.
pub open spec fn sat_sub(a: int, b: int) -> int {
    if a >= b {
        a - b
    } else {
        0
    }
}

pub open spec fn min(a: int, b: int) -> int {
    if a <= b {
        a
    } else {
        b
    }
}

pub open spec fn max_i64(a: i64, b: i64) -> i64 {
    if a >= b {
        a
    } else {
        b
    }
}

/// Smallest pixel width a column can be set to (100 px).
pub const MIN_COLUMN_WIDTH: i64 = 100_000_000;

/// Smallest height weight a delta leaves a tile with (0.1).
pub const MIN_WEIGHT_AFTER_DELTA: i64 = 100_000;

/// Smallest height weight a fixed or proportional height gives (0.05).
pub const MIN_WEIGHT: i64 = 50_000;

/// Smallest column proportion (1%).
pub const MIN_PROPORTION: i64 = 10_000;

impl WorkspaceModel {
    /// Every column is well formed and the focus index is in range
    /// (0 for an empty workspace).
    pub open spec fn wf(self) -> bool {
        &&& forall|i: int| 0 <= i < self.columns.len() ==> #[trigger] self.columns[i].wf()
        &&& if self.columns.len() == 0 {
            self.active_column_idx == 0
        } else {
            0 <= self.active_column_idx < self.columns.len()
        }
    }

    /// The window this workspace focuses.
    pub open spec fn focused_id(self) -> Option<WindowId> {
        if 0 <= self.active_column_idx < self.columns.len() {
            self.columns[self.active_column_idx].focused_id()
        } else {
            None
        }
    }

    /// Window `id` sits at tile `ti` of column `ci`, and nowhere before that
    /// in layout order.
    pub open spec fn is_first(self, id: WindowId, ci: int, ti: int) -> bool {
        &&& 0 <= ci < self.columns.len()
        &&& 0 <= ti < self.columns[ci].tiles.len()
        &&& self.columns[ci].tiles[ti].id == id
        &&& forall|c: int| 0 <= c < ci ==> !(#[trigger] self.columns[c]).contains(id)
        &&& forall|t: int| 0 <= t < ti ==> (#[trigger] self.columns[ci].tiles[t]).id != id
    }

    /// Does the workspace hold window `id` anywhere?
    pub open spec fn contains(self, id: WindowId) -> bool {
        exists|c: int| 0 <= c < self.columns.len() && (#[trigger] self.columns[c]).contains(id)
    }

    /// Location (column, tile) of the first occurrence of window `id`.
    pub open spec fn find(self, id: WindowId) -> Option<(int, int)> {
        if exists|p: (int, int)| self.is_first(id, p.0, p.1) {
            Some(choose|p: (int, int)| self.is_first(id, p.0, p.1))
        } else {
            None
        }
    }

    /// The window ids in layout order (columns left to right, tiles top
    /// to bottom).
    pub open spec fn ids(self) -> Seq<WindowId> {
        self.columns.map_values(|c: ColumnModel| c.ids()).flatten()
    }

    /// The state with `col` appended as the new, focused column.
    pub open spec fn push_column(self, col: ColumnModel) -> WorkspaceModel {
        WorkspaceModel {
            columns: self.columns.push(col),
            active_column_idx: self.columns.len() as int,
            view_offset: 0,
            prev_active: if self.columns.len() == 0 {
                None
            } else {
                Some((self.active_column_idx, self.view_offset))
            },
            ..self
        }
    }

    /// Add a window as a new column at the end and focus it.
    pub open spec fn add_window(self, id: WindowId) -> WorkspaceModel {
        self.push_column(ColumnModel::single(id))
    }

    /// Add several windows as one new, focused column (top to bottom).
    pub open spec fn add_column(self, ids: Seq<WindowId>) -> WorkspaceModel {
        if ids.len() == 0 {
            self
        } else {
            self.push_column(
                ColumnModel {
                    tiles: ids.map_values(|id: WindowId| Tile::spec_new(id)),
                    ..ColumnModel::single(ids[0])
                },
            )
        }
    }

    /// Insert a window as a new column at `idx` (clamped to the end) and
    /// focus it.
    pub open spec fn insert_column_at(self, idx: int, id: WindowId) -> WorkspaceModel {
        let i = min(idx, self.columns.len() as int);
        WorkspaceModel {
            columns: self.columns.insert(i, ColumnModel::single(id)),
            active_column_idx: i,
            view_offset: 0,
            prev_active: None,
            ..self
        }
    }

    /// Add a window into column `column_idx` at tile slot `tile_idx`
    /// (clamped), focusing it; a new column when there is no such column.
    pub open spec fn add_window_to_column(
        self,
        id: WindowId,
        column_idx: int,
        tile_idx: int,
    ) -> WorkspaceModel {
        if column_idx >= self.columns.len() {
            self.add_window(id)
        } else {
            let col = self.columns[column_idx];
            let t = min(tile_idx, col.tiles.len() as int);
            WorkspaceModel {
                columns: self.columns.update(
                    column_idx,
                    ColumnModel {
                        tiles: col.tiles.insert(t, Tile::spec_new(id)),
                        active_tile_idx: t,
                        ..col
                    },
                ),
                active_column_idx: column_idx,
                ..self
            }
        }
    }

    /// Toggle windowed fullscreen for the focused window.
    pub open spec fn toggle_fullscreen(self) -> (WorkspaceModel, bool) {
        match self.focused_id() {
            None => (self, false),
            Some(id) => (
                WorkspaceModel {
                    fullscreen_id: if self.fullscreen_id == Some(id) {
                        None
                    } else {
                        Some(id)
                    },
                    ..self
                },
                true,
            ),
        }
    }

    /// Toggle overview mode.
    pub open spec fn toggle_overview(self) -> (WorkspaceModel, bool) {
        (WorkspaceModel { is_overview: !self.is_overview, ..self }, true)
    }

    /// Remove the tile at (`ci`, `ti`), which holds window `id`, and fix up
    /// focus: when the focused column empties it disappears and focus goes
    /// to the remembered previous column or else the left neighbor; when
    /// another column empties it disappears and the focused column keeps
    /// focus (its index shifted); otherwise the column keeps its tile focus,
    /// clamped, and the focused column stays focused.
    pub open spec fn remove_at(self, id: WindowId, ci: int, ti: int) -> WorkspaceModel {
        let fs = if self.fullscreen_id == Some(id) {
            None
        } else {
            self.fullscreen_id
        };
        let col = self.columns[ci];
        let tiles = col.tiles.remove(ti);
        if tiles.len() == 0 {
            let cols = self.columns.remove(ci);
            if ci == self.active_column_idx {
                let target = match self.prev_active {
                    Some(p) => (min(p.0, sat_sub(cols.len() as int, 1)), p.1),
                    None => (sat_sub(ci, 1), 0i64),
                };
                WorkspaceModel {
                    columns: cols,
                    active_column_idx: if cols.len() == 0 {
                        0
                    } else {
                        target.0
                    },
                    view_offset: target.1,
                    fullscreen_id: fs,
                    prev_active: None,
                    ..self
                }
            } else {
                WorkspaceModel {
                    columns: cols,
                    active_column_idx: if ci < self.active_column_idx {
                        self.active_column_idx - 1
                    } else {
                        self.active_column_idx
                    },
                    fullscreen_id: fs,
                    prev_active: None,
                    ..self
                }
            }
        } else {
            WorkspaceModel {
                columns: self.columns.update(
                    ci,
                    ColumnModel {
                        tiles,
                        active_tile_idx: min(col.active_tile_idx, tiles.len() - 1),
                        ..col
                    },
                ),
                fullscreen_id: fs,
                ..self
            }
        }
    }

    /// Remove window `id` (its first occurrence); false when absent.
    pub open spec fn remove_window(self, id: WindowId) -> (WorkspaceModel, bool) {
        match self.find(id) {
            None => (self, false),
            Some(p) => (self.remove_at(id, p.0, p.1), true),
        }
    }

    /// Focus window `id`: its column and tile become active.
    pub open spec fn focus_window(self, id: WindowId) -> (WorkspaceModel, bool) {
        match self.find(id) {
            None => (self, false),
            Some(p) => (
                WorkspaceModel {
                    columns: self.columns.update(
                        p.0,
                        ColumnModel { active_tile_idx: p.1, ..self.columns[p.0] },
                    ),
                    active_column_idx: p.0,
                    prev_active: None,
                    ..self
                },
                true,
            ),
        }
    }

    /// Focus column `idx`, resetting the view offset and the remembered
    /// previous column.
    pub open spec fn jump_to_column(self, idx: int) -> WorkspaceModel {
        WorkspaceModel { active_column_idx: idx, view_offset: 0, prev_active: None, ..self }
    }

    /// Index of the column one step in `dir`, if it exists.
    pub open spec fn neighbor(self, ci: int, dir: DirH) -> Option<int> {
        match dir {
            DirH::Left => if ci >= 1 {
                Some(ci - 1)
            } else {
                None
            },
            DirH::Right => if ci + 1 < self.columns.len() {
                Some(ci + 1)
            } else {
                None
            },
        }
    }

    /// Move column focus one step; no wraparound.
    pub open spec fn focus_column(self, dir: DirH) -> (WorkspaceModel, bool) {
        match self.neighbor(self.active_column_idx, dir) {
            Some(i) => (self.jump_to_column(i), true),
            None => (self, false),
        }
    }

    /// Index of the tile one step in `dir` within `col`, if it exists.
    pub open spec fn tile_neighbor(col: ColumnModel, dir: DirV) -> Option<int> {
        match dir {
            DirV::Up => if col.active_tile_idx >= 1 {
                Some(col.active_tile_idx - 1)
            } else {
                None
            },
            DirV::Down => if col.active_tile_idx + 1 < col.tiles.len() {
                Some(col.active_tile_idx + 1)
            } else {
                None
            },
        }
    }

    /// Move tile focus one step within the focused column.
    pub open spec fn focus_tile(self, dir: DirV) -> (WorkspaceModel, bool) {
        if 0 <= self.active_column_idx < self.columns.len() {
            let col = self.columns[self.active_column_idx];
            match Self::tile_neighbor(col, dir) {
                Some(t) => (
                    WorkspaceModel {
                        columns: self.columns.update(
                            self.active_column_idx,
                            ColumnModel { active_tile_idx: t, ..col },
                        ),
                        ..self
                    },
                    true,
                ),
                None => (self, false),
            }
        } else {
            (self, false)
        }
    }

    /// `s` with the elements at `i` and `j` exchanged.
    pub open spec fn swap<A>(s: Seq<A>, i: int, j: int) -> Seq<A> {
        s.update(i, s[j]).update(j, s[i])
    }

    /// Swap the focused column with its neighbor in `dir`.
    pub open spec fn move_column(self, dir: DirH) -> (WorkspaceModel, bool) {
        if self.columns.len() < 2 {
            (self, false)
        } else {
            match self.neighbor(self.active_column_idx, dir) {
                Some(j) => (
                    WorkspaceModel {
                        columns: Self::swap(self.columns, self.active_column_idx, j),
                        active_column_idx: j,
                        ..self
                    },
                    true,
                ),
                None => (self, false),
            }
        }
    }

    /// Swap the focused tile with its neighbor in `dir` inside its column.
    pub open spec fn move_tile(self, dir: DirV) -> (WorkspaceModel, bool) {
        if 0 <= self.active_column_idx < self.columns.len() {
            let col = self.columns[self.active_column_idx];
            if col.tiles.len() < 2 {
                (self, false)
            } else {
                match Self::tile_neighbor(col, dir) {
                    Some(j) => (
                        WorkspaceModel {
                            columns: self.columns.update(
                                self.active_column_idx,
                                ColumnModel {
                                    tiles: Self::swap(col.tiles, col.active_tile_idx, j),
                                    active_tile_idx: j,
                                    ..col
                                },
                            ),
                            ..self
                        },
                        true,
                    ),
                    None => (self, false),
                }
            }
        } else {
            (self, false)
        }
    }

    /// The (column, tile) focus position, when a column is focused.
    pub open spec fn find_focused(self) -> Option<(int, int)> {
        if 0 <= self.active_column_idx < self.columns.len() {
            Some((self.active_column_idx, self.columns[self.active_column_idx].active_tile_idx))
        } else {
            None
        }
    }

    /// Move the focused tile into the neighboring column in `dir`: appended
    /// at the bottom going left, at the top going right. When the tile was
    /// alone its column disappears, and the neighbor on the right then sits
    /// at the tile's old index.
    pub open spec fn move_tile_across(self, dir: DirH) -> (WorkspaceModel, bool) {
        match self.find_focused() {
            None => (self, false),
            Some(p) => {
                let ci = p.0;
                let ti = p.1;
                match self.neighbor(ci, dir) {
                    None => (self, false),
                    Some(ni) => {
                        let col = self.columns[ci];
                        let tile = col.tiles[ti];
                        let rest = col.tiles.remove(ti);
                        let cols = if rest.len() == 0 {
                            self.columns.remove(ci)
                        } else {
                            self.columns.update(
                                ci,
                                ColumnModel {
                                    tiles: rest,
                                    active_tile_idx: min(col.active_tile_idx, rest.len() - 1),
                                    ..col
                                },
                            )
                        };
                        let tgt = if rest.len() == 0 && ni > ci {
                            ni - 1
                        } else {
                            ni
                        };
                        let target = cols[tgt];
                        let at = match dir {
                            DirH::Left => target.tiles.len() as int,
                            DirH::Right => 0,
                        };
                        (
                            WorkspaceModel {
                                columns: cols.update(
                                    tgt,
                                    ColumnModel {
                                        tiles: target.tiles.insert(at, tile),
                                        active_tile_idx: at,
                                        ..target
                                    },
                                ),
                                active_column_idx: tgt,
                                ..self
                            },
                            true,
                        )
                    },
                }
            },
        }
    }

    /// Consume the focused window into the neighboring column when it is
    /// alone in its column (appended at the bottom, the target keeping its
    /// width or inheriting the consumed one); otherwise expel it into a new
    /// column next to its own, in `dir`.
    pub open spec fn consume_or_expel(self, dir: DirH) -> (WorkspaceModel, bool) {
        match self.find_focused() {
            None => (self, false),
            Some(p) => {
                let ci = p.0;
                let ti = p.1;
                let col = self.columns[ci];
                if col.tiles.len() == 1 {
                    match self.neighbor(ci, dir) {
                        None => (self, false),
                        Some(n) => {
                            let cols = self.columns.remove(ci);
                            let t = match dir {
                                DirH::Left => ci - 1,
                                DirH::Right => ci,
                            };
                            let target = cols[t];
                            let tiles = target.tiles.push(col.tiles[0]);
                            (
                                WorkspaceModel {
                                    columns: cols.update(
                                        t,
                                        ColumnModel {
                                            tiles,
                                            active_tile_idx: tiles.len() - 1,
                                            width: if target.width is None {
                                                col.width
                                            } else {
                                                target.width
                                            },
                                            ..target
                                        },
                                    ),
                                    active_column_idx: t,
                                    view_offset: 0,
                                    prev_active: None,
                                    ..self
                                },
                                true,
                            )
                        },
                    }
                } else {
                    let rest = col.tiles.remove(ti);
                    let kept = ColumnModel {
                        tiles: rest,
                        active_tile_idx: min(col.active_tile_idx, rest.len() - 1),
                        ..col
                    };
                    let fresh = ColumnModel {
                        tiles: seq![col.tiles[ti]],
                        active_tile_idx: 0,
                        width: col.width,
                        is_full_width: false,
                        is_maximized: false,
                    };
                    let at = match dir {
                        DirH::Left => ci,
                        DirH::Right => ci + 1,
                    };
                    (
                        WorkspaceModel {
                            columns: self.columns.update(ci, kept).insert(at, fresh),
                            active_column_idx: at,
                            view_offset: 0,
                            prev_active: None,
                            ..self
                        },
                        true,
                    )
                }
            },
        }
    }

    /// The width a size change gives a column whose width was `w`.
    pub open spec fn changed_width(w: Option<ColumnWidth>, change: SizeChange) -> ColumnWidth {
        match change {
            SizeChange::Delta(px) => {
                let new_w = match w {
                    Some(ColumnWidth::Fixed(f)) => sat_add_spec(f as int, px as int),
                    _ => px,
                };
                ColumnWidth::Fixed(max_i64(new_w, MIN_COLUMN_WIDTH))
            },
            SizeChange::Fixed(px) => ColumnWidth::Fixed(max_i64(px, MIN_COLUMN_WIDTH)),
            SizeChange::Proportion(p) => ColumnWidth::Proportion(
                if p < MIN_PROPORTION {
                    MIN_PROPORTION
                } else if p > ONE {
                    ONE
                } else {
                    p
                },
            ),
        }
    }

    /// Apply a size change to the focused column's width (clearing
    /// full-width).
    pub open spec fn set_column_width(self, change: SizeChange) -> WorkspaceModel {
        let ci = self.active_column_idx;
        let col = self.columns[ci];
        WorkspaceModel {
            columns: self.columns.update(
                ci,
                ColumnModel {
                    width: Some(Self::changed_width(col.width, change)),
                    is_full_width: false,
                    ..col
                },
            ),
            ..self
        }
    }

    /// First index of `w` in `presets`, if present.
    pub open spec fn preset_index(presets: Seq<ColumnWidth>, w: ColumnWidth) -> Option<int> {
        if exists|i: int| 0 <= i < presets.len() && presets[i] == w {
            Some(
                choose|i: int|
                    0 <= i < presets.len() && presets[i] == w && forall|j: int|
                        0 <= j < i ==> presets[j] != w,
            )
        } else {
            None
        }
    }

    /// The preset following the column's current width (the first preset
    /// for a default or unlisted width).
    pub open spec fn next_preset(presets: Seq<ColumnWidth>, w: Option<ColumnWidth>) -> ColumnWidth {
        match w {
            None => presets[0],
            Some(w) => match Self::preset_index(presets, w) {
                Some(i) => presets[(i + 1) % (presets.len() as int)],
                None => presets[0],
            },
        }
    }

    /// Cycle the focused column through the preset widths.
    pub open spec fn cycle_column_width(self, presets: Seq<ColumnWidth>) -> (
        WorkspaceModel,
        bool,
    ) {
        if presets.len() == 0 || !(0 <= self.active_column_idx < self.columns.len()) {
            (self, false)
        } else {
            let col = self.columns[self.active_column_idx];
            (
                WorkspaceModel {
                    columns: self.columns.update(
                        self.active_column_idx,
                        ColumnModel {
                            width: Some(Self::next_preset(presets, col.width)),
                            is_full_width: false,
                            ..col
                        },
                    ),
                    ..self
                },
                true,
            )
        }
    }

    /// The state with the focused column replaced by `f(column)`.
    pub open spec fn toggle_column_flags(self, full: bool, maximized: bool) -> WorkspaceModel {
        let col = self.columns[self.active_column_idx];
        WorkspaceModel {
            columns: self.columns.update(
                self.active_column_idx,
                ColumnModel { is_full_width: full, is_maximized: maximized, ..col },
            ),
            ..self
        }
    }

    /// Toggle the focused column's full-width flag.
    pub open spec fn toggle_full_width(self) -> (WorkspaceModel, bool) {
        if 0 <= self.active_column_idx < self.columns.len() {
            let col = self.columns[self.active_column_idx];
            (self.toggle_column_flags(!col.is_full_width, col.is_maximized), true)
        } else {
            (self, false)
        }
    }

    /// Toggle the focused column's maximized flag; full-width follows it.
    pub open spec fn toggle_maximized(self) -> (WorkspaceModel, bool) {
        if 0 <= self.active_column_idx < self.columns.len() {
            let col = self.columns[self.active_column_idx];
            (self.toggle_column_flags(!col.is_maximized, !col.is_maximized), true)
        } else {
            (self, false)
        }
    }

    /// The height weight a size change gives a tile whose weight was `w`.
    pub open spec fn changed_weight(w: Micros, change: SizeChange) -> Micros {
        match change {
            SizeChange::Delta(d) => max_i64(
                sat_add_spec(w as int, div_trunc(d as int, 100)),
                MIN_WEIGHT_AFTER_DELTA,
            ),
            SizeChange::Fixed(px) => max_i64(div_trunc(px as int, 400) as i64, MIN_WEIGHT),
            SizeChange::Proportion(p) => max_i64(p, MIN_WEIGHT),
        }
    }

    /// Apply a size change to the focused tile's height weight.
    pub open spec fn set_window_height(self, change: SizeChange) -> (WorkspaceModel, bool) {
        if 0 <= self.active_column_idx < self.columns.len() {
            let col = self.columns[self.active_column_idx];
            let ti = min(col.active_tile_idx, sat_sub(col.tiles.len() as int, 1));
            if 0 <= ti < col.tiles.len() {
                let tile = col.tiles[ti];
                (
                    WorkspaceModel {
                        columns: self.columns.update(
                            self.active_column_idx,
                            ColumnModel {
                                tiles: col.tiles.update(
                                    ti,
                                    Tile {
                                        height_weight: Self::changed_weight(
                                            tile.height_weight,
                                            change,
                                        ),
                                        ..tile
                                    },
                                ),
                                ..col
                            },
                        ),
                        ..self
                    },
                    true,
                )
            } else {
                (self, false)
            }
        } else {
            (self, false)
        }
    }

    /// Focus column `idx` unless it is already focused.
    pub open spec fn focus_column_at(self, idx: int) -> (WorkspaceModel, bool) {
        if idx != self.active_column_idx {
            (self.jump_to_column(idx), true)
        } else {
            (self, false)
        }
    }

    /// Focus the first or last column.
    pub open spec fn focus_column_edge(self, edge: Edge) -> (WorkspaceModel, bool) {
        if self.columns.len() == 0 {
            (self, false)
        } else {
            self.focus_column_at(
                match edge {
                    Edge::First => 0,
                    Edge::Last => self.columns.len() - 1,
                },
            )
        }
    }

    /// Focus column `index`, clamped to the last column.
    pub open spec fn focus_column_index(self, index: int) -> (WorkspaceModel, bool) {
        if self.columns.len() == 0 {
            (self, false)
        } else {
            self.focus_column_at(min(index, self.columns.len() - 1))
        }
    }

    /// Focus tile `index` of the focused column, if it exists.
    pub open spec fn focus_window_in_column(self, index: int) -> (WorkspaceModel, bool) {
        if 0 <= self.active_column_idx < self.columns.len() && 0 <= index
            < self.columns[self.active_column_idx].tiles.len() {
            let col = self.columns[self.active_column_idx];
            (
                WorkspaceModel {
                    columns: self.columns.update(
                        self.active_column_idx,
                        ColumnModel { active_tile_idx: index, ..col },
                    ),
                    ..self
                },
                true,
            )
        } else {
            (self, false)
        }
    }
}

/// A window has at most one first occurrence.
pub proof fn lemma_first_unique(ws: WorkspaceModel, id: WindowId, a: int, b: int, c: int, d: int)
    requires
        ws.is_first(id, a, b),
        ws.is_first(id, c, d),
    ensures
        a == c && b == d,
{
    if a < c {
        assert(ws.columns[a].contains(id)) by { assert(ws.columns[a].tiles[b].id == id); }
    } else if c < a {
        assert(ws.columns[c].contains(id)) by { assert(ws.columns[c].tiles[d].id == id); }
    } else if b < d {
        assert(ws.columns[c].tiles[b].id == id);
    } else if d < b {
        assert(ws.columns[a].tiles[d].id == id);
    }
}

/// A first occurrence is what `find` reports.
pub proof fn lemma_find_first(ws: WorkspaceModel, id: WindowId, ci: int, ti: int)
    requires
        ws.is_first(id, ci, ti),
    ensures
        ws.find(id) == Some((ci, ti)),
{
    let p = (ci, ti);
    assert(ws.is_first(id, p.0, p.1));
    let q = choose|q: (int, int)| ws.is_first(id, q.0, q.1);
    lemma_first_unique(ws, id, ci, ti, q.0, q.1);
}

/// A window that occurs nowhere has no first occurrence.
pub proof fn lemma_find_absent(ws: WorkspaceModel, id: WindowId)
    requires
        forall|c: int| 0 <= c < ws.columns.len() ==> !(#[trigger] ws.columns[c]).contains(id),
    ensures
        ws.find(id) is None,
{
    if exists|p: (int, int)| ws.is_first(id, p.0, p.1) {
        let p = choose|p: (int, int)| ws.is_first(id, p.0, p.1);
        assert(ws.columns[p.0].contains(id)) by { assert(ws.columns[p.0].tiles[p.1].id == id); }
    }
}

impl Workspace {
    pub fn new() -> (ws: Workspace)
        ensures
            ws@ == (WorkspaceModel {
                columns: Seq::empty(),
                active_column_idx: 0,
                view_offset: 0,
                fullscreen_id: None,
                is_overview: false,
                prev_active: None,
            }),
            ws@.wf(),
    {
        Workspace {
            columns: Vec::new(),
            active_column_idx: 0,
            view_offset: 0,
            fullscreen_id: None,
            is_overview: false,
            activate_prev_column_on_removal: None,
        }
    }

    pub fn is_empty(&self) -> (r: bool)
        ensures
            r == (self@.columns.len() == 0),
    {
        self.columns.len() == 0
    }

    /// The window this workspace currently focuses.
    pub fn focused_id(&self) -> (r: Option<WindowId>)
        ensures
            r == self@.focused_id(),
    {
        if self.active_column_idx < self.columns.len() {
            self.columns[self.active_column_idx].focused_id()
        } else {
            None
        }
    }

    /// Location (column, tile) of a window, if present.
    pub fn find(&self, id: WindowId) -> (r: Option<(usize, usize)>)
        ensures
            r matches Some(p) ==> self@.find(id) == Some((p.0 as int, p.1 as int)),
            r is None ==> self@.find(id) is None,
            r is None ==> !self@.contains(id),
    {
        let mut ci: usize = 0;
        while ci < self.columns.len()
            invariant
                0 <= ci <= self.columns.len(),
                forall|c: int| 0 <= c < ci ==> !(#[trigger] self@.columns[c]).contains(id),
            decreases self.columns.len() - ci,
        {
            let col = &self.columns[ci];
            let mut ti: usize = 0;
            while ti < col.tiles.len()
                invariant
                    0 <= ci < self.columns.len(),
                    col == self.columns@[ci as int],
                    0 <= ti <= col.tiles.len(),
                    forall|c: int| 0 <= c < ci ==> !(#[trigger] self@.columns[c]).contains(id),
                    forall|t: int| 0 <= t < ti ==> (#[trigger] col.tiles@[t]).id != id,
                decreases col.tiles.len() - ti,
            {
                if col.tiles[ti].id == id {
                    proof {
                        assert(self@.is_first(id, ci as int, ti as int));
                        lemma_find_first(self@, id, ci as int, ti as int);
                    }
                    return Some((ci, ti));
                }
                ti += 1;
            }
            assert(!self@.columns[ci as int].contains(id));
            ci += 1;
        }
        proof {
            lemma_find_absent(self@, id);
        }
        None
    }

    /// The (active column, view offset) pair remembered when a new column
    /// is pushed.
    fn prev_for_push(&self) -> (r: Option<(usize, Micros)>)
        ensures
            (match r {
                Some((i, o)) => Some((i as int, o)),
                None => None,
            }) == (if self@.columns.len() == 0 {
                None
            } else {
                Some((self@.active_column_idx, self@.view_offset))
            }),
    {
        if self.columns.len() == 0 {
            None
        } else {
            Some((self.active_column_idx, self.view_offset))
        }
    }

    /// Add a window as a new column at the end (niri's default placement)
    /// and focus it.
    pub fn add_window(&mut self, id: WindowId)
        ensures
            final(self)@ == old(self)@.add_window(id),
            old(self)@.wf() ==> final(self)@.wf(),
    {
        let prev_active = self.prev_for_push();
        self.columns.push(Column::new(id));
        self.active_column_idx = self.columns.len() - 1;
        self.view_offset = 0;
        self.activate_prev_column_on_removal = prev_active;
        assert(self@.columns =~= old(self)@.columns.push(ColumnModel::single(id)));
    }

    /// Add several windows as one new column (top to bottom), focused.
    pub fn add_column(&mut self, ids: &[WindowId])
        ensures
            final(self)@ == old(self)@.add_column(ids@),
            old(self)@.wf() ==> final(self)@.wf(),
    {
        if ids.len() == 0 {
            return;
        }
        let prev_active = self.prev_for_push();
        let mut col = Column::new(ids[0]);
        let mut k: usize = 1;
        while k < ids.len()
            invariant
                1 <= k <= ids@.len(),
                col@.tiles =~= ids@.take(k as int).map_values(|id: WindowId| Tile::spec_new(id)),
                col@.active_tile_idx == 0,
                col.width is None,
                !col.is_full_width,
                !col.is_maximized,
            decreases ids.len() - k,
        {
            col.tiles.push(Tile::new(ids[k]));
            k += 1;
            assert(col@.tiles =~= ids@.take(k as int).map_values(|id: WindowId| Tile::spec_new(id)));
        }
        assert(ids@.take(ids@.len() as int) =~= ids@);
        self.columns.push(col);
        self.active_column_idx = self.columns.len() - 1;
        self.view_offset = 0;
        self.activate_prev_column_on_removal = prev_active;
        assert(self@.columns =~= old(self)@.columns.push(col@));
    }

    /// All window ids in layout order.
    pub fn window_ids(&self) -> (r: Vec<WindowId>)
        ensures
            r@ == self@.ids(),
    {
        let mut out: Vec<WindowId> = Vec::new();
        let mut ci: usize = 0;
        while ci < self.columns.len()
            invariant
                0 <= ci <= self.columns.len(),
                out@ =~= self@.columns.take(ci as int).map_values(|c: ColumnModel| c.ids()).flatten(),
            decreases self.columns.len() - ci,
        {
            let col = &self.columns[ci];
            let ghost before = out@;
            let mut ti: usize = 0;
            while ti < col.tiles.len()
                invariant
                    0 <= ci < self.columns.len(),
                    col == self.columns@[ci as int],
                    0 <= ti <= col.tiles.len(),
                    out@ =~= before + col@.ids().take(ti as int),
                decreases col.tiles.len() - ti,
            {
                out.push(col.tiles[ti].id);
                ti += 1;
                assert(out@ =~= before + col@.ids().take(ti as int));
            }
            proof {
                let cs = self@.columns.take(ci as int + 1);
                let f = |c: ColumnModel| c.ids();
                assert(cs.map_values(f) =~= self@.columns.take(ci as int).map_values(f).push(
                    col@.ids(),
                ));
                assert(col@.ids().take(col@.ids().len() as int) =~= col@.ids());
                self@.columns.take(ci as int).map_values(f).lemma_flatten_push(col@.ids());
            }
            ci += 1;
        }
        assert(self@.columns.take(self@.columns.len() as int) =~= self@.columns);
        out
    }

    /// Insert a window as a new column at `idx` (clamped to the valid
    /// range) and focus it.
    pub fn insert_column_at(&mut self, idx: usize, id: WindowId)
        ensures
            final(self)@ == old(self)@.insert_column_at(idx as int, id),
            old(self)@.wf() ==> final(self)@.wf(),
    {
        let idx = if idx < self.columns.len() {
            idx
        } else {
            self.columns.len()
        };
        self.columns.insert(idx, Column::new(id));
        self.active_column_idx = idx;
        self.view_offset = 0;
        self.activate_prev_column_on_removal = None;
        assert(self@.columns =~= old(self)@.columns.insert(idx as int, ColumnModel::single(id)));
    }

    /// Add a window into the existing column `column_idx` at tile slot
    /// `tile_idx` (clamped); a new column at the end when there is no such
    /// column.
    pub fn add_window_to_column(&mut self, id: WindowId, column_idx: usize, tile_idx: usize)
        ensures
            final(self)@ == old(self)@.add_window_to_column(id, column_idx as int, tile_idx as int),
            old(self)@.wf() ==> final(self)@.wf(),
    {
        if column_idx >= self.columns.len() {
            self.add_window(id);
            return;
        }
        let ghost old_col = self.columns@[column_idx as int]@;
        let col = &mut self.columns[column_idx];
        let tile_idx = if tile_idx < col.tiles.len() {
            tile_idx
        } else {
            col.tiles.len()
        };
        col.tiles.insert(tile_idx, Tile::new(id));
        col.active_tile_idx = tile_idx;
        self.active_column_idx = column_idx;
        proof {
            let new_col = ColumnModel {
                tiles: old_col.tiles.insert(tile_idx as int, Tile::spec_new(id)),
                active_tile_idx: tile_idx as int,
                ..old_col
            };
            assert(self@.columns =~= old(self)@.columns.update(column_idx as int, new_col));
            if old(self)@.wf() {
                assert forall|i: int| 0 <= i < self@.columns.len() implies #[trigger] self@.columns[i].wf() by {
                    if i != column_idx {
                        assert(old(self)@.columns[i].wf());
                    }
                }
            }
        }
    }

    /// Toggle windowed fullscreen for the focused window (the layout
    /// structure underneath stays intact).
    pub fn toggle_fullscreen(&mut self) -> (r: bool)
        ensures
            (final(self)@, r) == old(self)@.toggle_fullscreen(),
    {
        let id = match self.focused_id() {
            Some(id) => id,
            None => return false,
        };
        if self.fullscreen_id == Some(id) {
            self.fullscreen_id = None;
        } else {
            self.fullscreen_id = Some(id);
        }
        true
    }

    /// Toggle overview mode.
    pub fn toggle_overview(&mut self) -> (r: bool)
        ensures
            (final(self)@, r) == old(self)@.toggle_overview(),
    {
        self.is_overview = !self.is_overview;
        true
    }

    /// Remove a window. Fixes up focus following niri's rules: removing
    /// the focused column moves focus to the left neighbor (or back to the
    /// previously active column for a freshly created one); removing any
    /// other column or tile keeps the focused window focused; a column that
    /// loses a tile keeps its tile focus in place (clamped).
    pub fn remove_window(&mut self, id: WindowId) -> (r: bool)
        ensures
            (final(self)@, r) == old(self)@.remove_window(id),
            old(self)@.wf() ==> final(self)@.wf(),
    {
        let (ci, ti) = match self.find(id) {
            Some(p) => p,
            None => return false,
        };
        if self.fullscreen_id == Some(id) {
            self.fullscreen_id = None;
        }
        let ghost old_col = old(self)@.columns[ci as int];
        let ghost fs = self.fullscreen_id;
        self.columns[ci].tiles.remove(ti);
        assert(self.columns@[ci as int]@.tiles =~= old_col.tiles.remove(ti as int));
        if self.columns[ci].tiles.len() == 0 {
            self.columns.remove(ci);
            if ci == self.active_column_idx {
                let (new_idx, new_offset) = match self.activate_prev_column_on_removal {
                    Some((prev_idx, prev_offset)) => {
                        let last = if self.columns.len() > 0 {
                            self.columns.len() - 1
                        } else {
                            0
                        };
                        (if prev_idx <= last {
                            prev_idx
                        } else {
                            last
                        }, prev_offset)
                    },
                    None => (if ci > 0 {
                        ci - 1
                    } else {
                        0
                    }, 0),
                };
                self.active_column_idx = if self.columns.len() == 0 {
                    0
                } else {
                    new_idx
                };
                self.view_offset = new_offset;
            } else if ci < self.active_column_idx {
                self.active_column_idx = self.active_column_idx - 1;
            }
            self.activate_prev_column_on_removal = None;
            proof {
                assert(self@.columns =~= old(self)@.columns.remove(ci as int));
                if old(self)@.wf() {
                    assert forall|i: int| 0 <= i < self@.columns.len() implies #[trigger] self@.columns[i].wf() by {
                        if i < ci {
                            assert(old(self)@.columns[i].wf());
                        } else {
                            assert(old(self)@.columns[i + 1].wf());
                        }
                    }
                }
            }
        } else {
            let col = &mut self.columns[ci];
            let last = col.tiles.len() - 1;
            if col.active_tile_idx > last {
                col.active_tile_idx = last;
            }
            proof {
                let new_col = ColumnModel {
                    tiles: old_col.tiles.remove(ti as int),
                    active_tile_idx: min(old_col.active_tile_idx, old_col.tiles.len() - 2),
                    ..old_col
                };
                assert(self@.columns =~= old(self)@.columns.update(ci as int, new_col));
                if old(self)@.wf() {
                    assert forall|i: int| 0 <= i < self@.columns.len() implies #[trigger] self@.columns[i].wf() by {
                        if i != ci {
                            assert(old(self)@.columns[i].wf());
                        }
                    }
                }
            }
        }
        true
    }

    /// Focus the window: sets active column and tile indices.
    pub fn focus_window(&mut self, id: WindowId) -> (r: bool)
        ensures
            (final(self)@, r) == old(self)@.focus_window(id),
            old(self)@.wf() ==> final(self)@.wf(),
    {
        let (ci, ti) = match self.find(id) {
            Some(p) => p,
            None => return false,
        };
        self.active_column_idx = ci;
        self.columns[ci].active_tile_idx = ti;
        self.activate_prev_column_on_removal = None;
        proof {
            let new_col = ColumnModel { active_tile_idx: ti as int, ..old(self)@.columns[ci as int] };
            assert(self@.columns =~= old(self)@.columns.update(ci as int, new_col));
            if old(self)@.wf() {
                assert forall|i: int| 0 <= i < self@.columns.len() implies #[trigger] self@.columns[i].wf() by {
                    if i != ci {
                        assert(old(self)@.columns[i].wf());
                    }
                }
            }
        }
        true
    }

    fn neighbor(&self, ci: usize, dir: DirH) -> (r: Option<usize>)
        requires
            ci < self.columns.len(),
        ensures
            (match r {
                Some(i) => Some(i as int),
                None => None,
            }) == self@.neighbor(ci as int, dir),
    {
        match dir {
            DirH::Left => if ci >= 1 {
                Some(ci - 1)
            } else {
                None
            },
            DirH::Right => if ci + 1 < self.columns.len() {
                Some(ci + 1)
            } else {
                None
            },
        }
    }

    /// Move focus one column left/right. No wraparound.
    pub fn focus_column(&mut self, dir: DirH) -> (r: bool)
        requires
            old(self)@.wf(),
        ensures
            (final(self)@, r) == old(self)@.focus_column(dir),
            final(self)@.wf(),
    {
        if self.columns.len() == 0 {
            return false;
        }
        match self.neighbor(self.active_column_idx, dir) {
            Some(i) => {
                self.active_column_idx = i;
                self.view_offset = 0;
                self.activate_prev_column_on_removal = None;
                true
            },
            None => false,
        }
    }

    /// Move focus one tile up/down within the focused column.
    pub fn focus_tile(&mut self, dir: DirV) -> (r: bool)
        requires
            old(self)@.wf(),
        ensures
            (final(self)@, r) == old(self)@.focus_tile(dir),
            final(self)@.wf(),
    {
        let ci = self.active_column_idx;
        if ci >= self.columns.len() {
            return false;
        }
        let ghost old_col = old(self)@.columns[ci as int];
        assert(old_col.wf());
        let t = self.columns[ci].active_tile_idx;
        let n = self.columns[ci].tiles.len();
        let next = match dir {
            DirV::Up => if t >= 1 {
                Some(t - 1)
            } else {
                None
            },
            DirV::Down => if t + 1 < n {
                Some(t + 1)
            } else {
                None
            },
        };
        match next {
            Some(i) => {
                self.columns[ci].active_tile_idx = i;
                proof {
                    let new_col = ColumnModel { active_tile_idx: i as int, ..old_col };
                    assert(self@.columns =~= old(self)@.columns.update(ci as int, new_col));
                    assert forall|k: int| 0 <= k < self@.columns.len() implies #[trigger] self@.columns[k].wf() by {
                        if k != ci {
                            assert(old(self)@.columns[k].wf());
                        }
                    }
                }
                true
            },
            None => false,
        }
    }

    /// Swap the focused column with its neighbor.
    pub fn move_column(&mut self, dir: DirH) -> (r: bool)
        requires
            old(self)@.wf(),
        ensures
            (final(self)@, r) == old(self)@.move_column(dir),
            final(self)@.wf(),
    {
        if self.columns.len() < 2 {
            return false;
        }
        let i = self.active_column_idx;
        let j = match self.neighbor(i, dir) {
            Some(j) => j,
            None => return false,
        };
        let (lo, hi) = if i < j {
            (i, j)
        } else {
            (j, i)
        };
        let moved = self.columns.remove(hi);
        self.columns.insert(lo, moved);
        self.active_column_idx = j;
        proof {
            assert(self@.columns =~= WorkspaceModel::swap(old(self)@.columns, i as int, j as int));
            assert forall|k: int| 0 <= k < self@.columns.len() implies #[trigger] self@.columns[k].wf() by {
                if k == i {
                    assert(old(self)@.columns[j as int].wf());
                } else if k == j {
                    assert(old(self)@.columns[i as int].wf());
                } else {
                    assert(old(self)@.columns[k].wf());
                }
            }
        }
        true
    }

    /// Move the focused tile up/down inside its column; at the edges the
    /// tile stays.
    pub fn move_tile(&mut self, dir: DirV) -> (r: bool)
        requires
            old(self)@.wf(),
        ensures
            (final(self)@, r) == old(self)@.move_tile(dir),
            final(self)@.wf(),
    {
        let ci = self.active_column_idx;
        if ci >= self.columns.len() {
            return false;
        }
        let ghost old_col = old(self)@.columns[ci as int];
        assert(old_col.wf());
        let n = self.columns[ci].tiles.len();
        if n < 2 {
            return false;
        }
        let i = self.columns[ci].active_tile_idx;
        let j = match dir {
            DirV::Up => if i >= 1 {
                i - 1
            } else {
                return false;
            },
            DirV::Down => if i + 1 < n {
                i + 1
            } else {
                return false;
            },
        };
        let col = &mut self.columns[ci];
        let a = col.tiles[i];
        let b = col.tiles[j];
        col.tiles.set(i, b);
        col.tiles.set(j, a);
        col.active_tile_idx = j;
        proof {
            let new_col = ColumnModel {
                tiles: WorkspaceModel::swap(old_col.tiles, i as int, j as int),
                active_tile_idx: j as int,
                ..old_col
            };
            assert(self@.columns[ci as int].tiles =~= new_col.tiles);
            assert(self@.columns =~= old(self)@.columns.update(ci as int, new_col));
            assert forall|k: int| 0 <= k < self@.columns.len() implies #[trigger] self@.columns[k].wf() by {
                if k != ci {
                    assert(old(self)@.columns[k].wf());
                }
            }
        }
        true
    }

    fn find_focused(&self) -> (r: Option<(usize, usize)>)
        ensures
            (match r {
                Some(p) => Some((p.0 as int, p.1 as int)),
                None => None,
            }) == self@.find_focused(),
    {
        let ci = self.active_column_idx;
        if ci < self.columns.len() {
            Some((ci, self.columns[ci].active_tile_idx))
        } else {
            None
        }
    }

    /// Move the focused tile to the neighboring column (niri's
    /// move-window-to-column-left/right): appended at the bottom going left,
    /// inserted at the top going right. A tile alone in its column takes
    /// the column away with it.
    pub fn move_tile_across(&mut self, dir: DirH) -> (r: bool)
        requires
            old(self)@.wf(),
        ensures
            (final(self)@, r) == old(self)@.move_tile_across(dir),
            final(self)@.wf(),
    {
        let (ci, ti) = match self.find_focused() {
            Some(p) => p,
            None => return false,
        };
        let ni = match self.neighbor(ci, dir) {
            Some(ni) => ni,
            None => return false,
        };
        let ghost old_cols = old(self)@.columns;
        let ghost old_col = old_cols[ci as int];
        assert(old_col.wf());
        let tile = self.columns[ci].tiles.remove(ti);
        let ghost rest = old_col.tiles.remove(ti as int);
        assert(self.columns@[ci as int]@.tiles =~= rest);
        let emptied = self.columns[ci].tiles.len() == 0;
        if emptied {
            self.columns.remove(ci);
            assert(self@.columns =~= old_cols.remove(ci as int));
        } else {
            let col = &mut self.columns[ci];
            let last = col.tiles.len() - 1;
            if col.active_tile_idx > last {
                col.active_tile_idx = last;
            }
            proof {
                let kept = ColumnModel {
                    tiles: rest,
                    active_tile_idx: min(old_col.active_tile_idx, rest.len() - 1),
                    ..old_col
                };
                assert(self@.columns =~= old_cols.update(ci as int, kept));
            }
        }
        let tgt = if emptied && ni > ci {
            ni - 1
        } else {
            ni
        };
        let ghost mid = self@.columns;
        assert(mid[tgt as int].wf()) by {
            if rest.len() == 0 {
                if ni < ci {
                    assert(old_cols[ni as int].wf());
                } else {
                    assert(old_cols[ni as int].wf());
                }
            } else if ni != ci {
                assert(old_cols[ni as int].wf());
            }
        }
        let at = match dir {
            DirH::Left => self.columns[tgt].tiles.len(),
            DirH::Right => 0,
        };
        let target = &mut self.columns[tgt];
        target.tiles.insert(at, tile);
        target.active_tile_idx = at;
        proof {
            let t = mid[tgt as int];
            let new_t = ColumnModel {
                tiles: t.tiles.insert(at as int, tile),
                active_tile_idx: at as int,
                ..t
            };
            assert(self@.columns =~= mid.update(tgt as int, new_t));
        }
        self.active_column_idx = tgt;
        proof {
            assert forall|k: int| 0 <= k < self@.columns.len() implies #[trigger] self@.columns[k].wf() by {
                if k != tgt {
                    if rest.len() == 0 {
                        if k < ci {
                            assert(old_cols[k].wf());
                        } else {
                            assert(old_cols[k + 1].wf());
                        }
                    } else if k != ci {
                        assert(old_cols[k].wf());
                    }
                }
            }
        }
        true
    }

    /// Consume or expel the focused window one slot in `dir`: a window
    /// alone in its column is consumed into the adjacent column (appended
    /// at the bottom, becoming its active tile); a window sharing its column
    /// is expelled into a new standalone column next to the current one.
    /// False if there is no adjacent column to consume into.
    pub fn consume_or_expel(&mut self, dir: DirH) -> (r: bool)
        requires
            old(self)@.wf(),
        ensures
            (final(self)@, r) == old(self)@.consume_or_expel(dir),
            final(self)@.wf(),
    {
        let (ci, ti) = match self.find_focused() {
            Some(p) => p,
            None => return false,
        };
        assert(ci < self.columns.len());
        let ghost old_cols = old(self)@.columns;
        let ghost old_col = old_cols[ci as int];
        assert(old_col.wf());
        if self.columns[ci].tiles.len() == 1 {
            let has_neighbor = match dir {
                DirH::Left => ci > 0,
                DirH::Right => ci + 1 < self.columns.len(),
            };
            if !has_neighbor {
                return false;
            }
            let width = self.columns[ci].width;
            let col = self.columns.remove(ci);
            let tile = col.tiles[0];
            let t = match dir {
                DirH::Left => ci - 1,
                DirH::Right => ci,
            };
            assert(self@.columns =~= old_cols.remove(ci as int));
            let ghost mid = self@.columns;
            let target = &mut self.columns[t];
            target.tiles.push(tile);
            target.active_tile_idx = target.tiles.len() - 1;
            if target.width.is_none() {
                target.width = width;
            }
            self.active_column_idx = t;
            self.view_offset = 0;
            self.activate_prev_column_on_removal = None;
            proof {
                let tc = mid[t as int];
                let tiles = tc.tiles.push(old_col.tiles[0]);
                let new_t = ColumnModel {
                    tiles,
                    active_tile_idx: tiles.len() - 1,
                    width: if tc.width is None {
                        old_col.width
                    } else {
                        tc.width
                    },
                    ..tc
                };
                assert(self@.columns =~= mid.update(t as int, new_t));
                assert forall|k: int| 0 <= k < self@.columns.len() implies #[trigger] self@.columns[k].wf() by {
                    if k < ci {
                        assert(old_cols[k].wf());
                    } else {
                        assert(old_cols[k + 1].wf());
                    }
                }
            }
        } else {
            let tile = self.columns[ci].tiles.remove(ti);
            let ghost rest = old_col.tiles.remove(ti as int);
            assert(self.columns@[ci as int]@.tiles =~= rest);
            let col = &mut self.columns[ci];
            let last = col.tiles.len() - 1;
            if col.active_tile_idx > last {
                col.active_tile_idx = last;
            }
            let fresh = Column {
                tiles: vec![tile],
                active_tile_idx: 0,
                width: self.columns[ci].width,
                is_full_width: false,
                is_maximized: false,
            };
            let at = match dir {
                DirH::Left => ci,
                DirH::Right => ci + 1,
            };
            let ghost kept = ColumnModel {
                tiles: rest,
                active_tile_idx: min(old_col.active_tile_idx, rest.len() - 1),
                ..old_col
            };
            assert(self@.columns =~= old_cols.update(ci as int, kept));
            let ghost mid = self@.columns;
            self.columns.insert(at, fresh);
            self.active_column_idx = at;
            self.view_offset = 0;
            self.activate_prev_column_on_removal = None;
            proof {
                assert(fresh@.tiles =~= seq![old_col.tiles[ti as int]]);
                assert(self@.columns =~= mid.insert(at as int, fresh@));
                assert forall|k: int| 0 <= k < self@.columns.len() implies #[trigger] self@.columns[k].wf() by {
                    if k < at {
                        if k != ci {
                            assert(old_cols[k].wf());
                        }
                    } else if k > at {
                        if k - 1 != ci {
                            assert(old_cols[k - 1].wf());
                        }
                    }
                }
            }
        }
        true
    }

    /// Niri's set-column-width on the focused column: a delta ("+100" /
    /// "-100", at least 100 px after the change), a fixed width ("1000",
    /// at least 100 px) or a proportion ("50%", clamped to 1%..100%). An
    /// explicit width clears full-width.
    pub fn set_column_width(&mut self, spec: &SizeChange) -> (r: bool)
        requires
            old(self)@.wf(),
            old(self)@.columns.len() > 0,
        ensures
            final(self)@ == old(self)@.set_column_width(*spec),
            r,
            final(self)@.wf(),
    {
        let ci = self.active_column_idx;
        let ghost old_col = old(self)@.columns[ci as int];
        let col = &mut self.columns[ci];
        let w = match *spec {
            SizeChange::Delta(px) => {
                let new_w = match col.width {
                    Some(ColumnWidth::Fixed(f)) => sat_add(f, px),
                    _ => px,
                };
                ColumnWidth::Fixed(if new_w >= MIN_COLUMN_WIDTH {
                    new_w
                } else {
                    MIN_COLUMN_WIDTH
                })
            },
            SizeChange::Fixed(px) => ColumnWidth::Fixed(if px >= MIN_COLUMN_WIDTH {
                px
            } else {
                MIN_COLUMN_WIDTH
            }),
            SizeChange::Proportion(p) => ColumnWidth::Proportion(
                if p < MIN_PROPORTION {
                    MIN_PROPORTION
                } else if p > ONE {
                    ONE
                } else {
                    p
                },
            ),
        };
        col.width = Some(w);
        col.is_full_width = false;
        proof {
            let new_col = ColumnModel {
                width: Some(WorkspaceModel::changed_width(old_col.width, *spec)),
                is_full_width: false,
                ..old_col
            };
            assert(self@.columns =~= old(self)@.columns.update(ci as int, new_col));
            assert forall|k: int| 0 <= k < self@.columns.len() implies #[trigger] self@.columns[k].wf() by {
                assert(old(self)@.columns[k].wf());
            }
        }
        true
    }

    /// Niri's preset-column-widths: a bare set-column-width cycles the
    /// focused column through the presets. The next preset is the one
    /// after the current width's first position (a default or unlisted
    /// width counts as "before the first preset").
    pub fn cycle_column_width(&mut self, presets: &[ColumnWidth]) -> (r: bool)
        requires
            old(self)@.wf(),
        ensures
            (final(self)@, r) == old(self)@.cycle_column_width(presets@),
            final(self)@.wf(),
    {
        if presets.len() == 0 {
            return false;
        }
        let ci = self.active_column_idx;
        if ci >= self.columns.len() {
            return false;
        }
        let ghost old_col = old(self)@.columns[ci as int];
        let next = match self.columns[ci].width {
            None => presets[0],
            Some(w) => {
                let mut k: usize = 0;
                let mut found: Option<usize> = None;
                while k < presets.len()
                    invariant_except_break
                        found is None,
                    invariant
                        0 <= k <= presets.len(),
                        forall|j: int| 0 <= j < k ==> presets@[j] != w,
                    ensures
                        found matches Some(i) ==> i < presets.len() && presets@[i as int] == w
                            && forall|j: int| 0 <= j < i ==> presets@[j] != w,
                        found is None ==> k == presets.len(),
                    decreases presets.len() - k,
                {
                    if presets[k] == w {
                        found = Some(k);
                        break;
                    }
                    k += 1;
                }
                proof {
                    match found {
                        Some(i) => {
                            let q = choose|q: int|
                                0 <= q < presets@.len() && presets@[q] == w && forall|j: int|
                                    0 <= j < q ==> presets@[j] != w;
                            assert(presets@[i as int] == w);
                            if q < i {
                                assert(presets@[q] != w);
                            } else if i < q {
                                assert(presets@[i as int] != w);
                            }
                            assert(WorkspaceModel::preset_index(presets@, w) == Some(i as int));
                        },
                        None => {
                            assert(WorkspaceModel::preset_index(presets@, w) is None);
                        },
                    }
                }
                match found {
                    Some(i) => presets[(i + 1) % presets.len()],
                    None => presets[0],
                }
            },
        };
        let col = &mut self.columns[ci];
        col.width = Some(next);
        col.is_full_width = false;
        proof {
            let new_col = ColumnModel {
                width: Some(WorkspaceModel::next_preset(presets@, old_col.width)),
                is_full_width: false,
                ..old_col
            };
            assert(self@.columns =~= old(self)@.columns.update(ci as int, new_col));
            assert forall|k: int| 0 <= k < self@.columns.len() implies #[trigger] self@.columns[k].wf() by {
                assert(old(self)@.columns[k].wf());
            }
        }
        true
    }

    /// Toggle the focused column between full width and its own width.
    pub fn toggle_full_width(&mut self) -> (r: bool)
        requires
            old(self)@.wf(),
        ensures
            (final(self)@, r) == old(self)@.toggle_full_width(),
            final(self)@.wf(),
    {
        let ci = self.active_column_idx;
        if ci >= self.columns.len() {
            return false;
        }
        let col = &mut self.columns[ci];
        col.is_full_width = !col.is_full_width;
        proof {
            let oc = old(self)@.columns[ci as int];
            let new_col = ColumnModel { is_full_width: !oc.is_full_width, ..oc };
            assert(self@.columns =~= old(self)@.columns.update(ci as int, new_col));
            assert forall|k: int| 0 <= k < self@.columns.len() implies #[trigger] self@.columns[k].wf() by {
                assert(old(self)@.columns[k].wf());
            }
        }
        true
    }

    /// Toggle the focused column between maximized (covers the whole
    /// monitor) and normal; full-width follows the maximized flag.
    pub fn toggle_maximized(&mut self) -> (r: bool)
        requires
            old(self)@.wf(),
        ensures
            (final(self)@, r) == old(self)@.toggle_maximized(),
            final(self)@.wf(),
    {
        let ci = self.active_column_idx;
        if ci >= self.columns.len() {
            return false;
        }
        let col = &mut self.columns[ci];
        col.is_maximized = !col.is_maximized;
        col.is_full_width = col.is_maximized;
        proof {
            let oc = old(self)@.columns[ci as int];
            let new_col = ColumnModel {
                is_full_width: !oc.is_maximized,
                is_maximized: !oc.is_maximized,
                ..oc
            };
            assert(self@.columns =~= old(self)@.columns.update(ci as int, new_col));
            assert forall|k: int| 0 <= k < self@.columns.len() implies #[trigger] self@.columns[k].wf() by {
                assert(old(self)@.columns[k].wf());
            }
        }
        true
    }

    /// Niri's set-window-height on the focused tile: a delta moves the
    /// height weight by delta/100 (at least 0.1 after), a fixed height
    /// becomes weight px/400 (at least 0.05), a proportion becomes the
    /// weight itself (at least 0.05).
    pub fn set_window_height(&mut self, spec: &SizeChange) -> (r: bool)
        requires
            old(self)@.wf(),
        ensures
            (final(self)@, r) == old(self)@.set_window_height(*spec),
            final(self)@.wf(),
    {
        let ci = self.active_column_idx;
        if ci >= self.columns.len() {
            return false;
        }
        let ghost old_col = old(self)@.columns[ci as int];
        let col = &mut self.columns[ci];
        let last = if col.tiles.len() > 0 {
            col.tiles.len() - 1
        } else {
            0
        };
        let ti = if col.active_tile_idx <= last {
            col.active_tile_idx
        } else {
            last
        };
        if ti >= col.tiles.len() {
            return false;
        }
        let tile = col.tiles[ti];
        let w = match *spec {
            SizeChange::Delta(d) => {
                let v = sat_add(tile.height_weight, div_trunc_i64(d, 100));
                if v >= MIN_WEIGHT_AFTER_DELTA {
                    v
                } else {
                    MIN_WEIGHT_AFTER_DELTA
                }
            },
            SizeChange::Fixed(px) => {
                let v = div_trunc_i64(px, 400);
                if v >= MIN_WEIGHT {
                    v
                } else {
                    MIN_WEIGHT
                }
            },
            SizeChange::Proportion(p) => if p >= MIN_WEIGHT {
                p
            } else {
                MIN_WEIGHT
            },
        };
        col.tiles.set(ti, Tile { id: tile.id, height_weight: w });
        proof {
            let new_col = ColumnModel {
                tiles: old_col.tiles.update(
                    ti as int,
                    Tile {
                        height_weight: WorkspaceModel::changed_weight(tile.height_weight, *spec),
                        ..tile
                    },
                ),
                ..old_col
            };
            assert(self@.columns[ci as int].tiles =~= new_col.tiles);
            assert(self@.columns =~= old(self)@.columns.update(ci as int, new_col));
            assert forall|k: int| 0 <= k < self@.columns.len() implies #[trigger] self@.columns[k].wf() by {
                assert(old(self)@.columns[k].wf());
            }
        }
        true
    }

    /// Focus the first or last column (niri's focus-column-first/last).
    pub fn focus_column_edge(&mut self, edge: Edge) -> (r: bool)
        requires
            old(self)@.wf(),
        ensures
            (final(self)@, r) == old(self)@.focus_column_edge(edge),
            final(self)@.wf(),
    {
        if self.columns.len() == 0 {
            return false;
        }
        let idx = match edge {
            Edge::First => 0,
            Edge::Last => self.columns.len() - 1,
        };
        self.focus_column_at(idx)
    }

    /// Focus the column at `index` (0-based, clamped to the last column),
    /// the `focus-column-index` action.
    pub fn focus_column_index(&mut self, index: usize) -> (r: bool)
        requires
            old(self)@.wf(),
        ensures
            (final(self)@, r) == old(self)@.focus_column_index(index as int),
            final(self)@.wf(),
    {
        if self.columns.len() == 0 {
            return false;
        }
        let last = self.columns.len() - 1;
        self.focus_column_at(if index <= last {
            index
        } else {
            last
        })
    }

    /// Focus the column at `idx`, resetting the view offset like any
    /// horizontal focus jump; false when it is already focused.
    fn focus_column_at(&mut self, idx: usize) -> (r: bool)
        requires
            old(self)@.wf(),
            idx < old(self).columns.len(),
        ensures
            (final(self)@, r) == old(self)@.focus_column_at(idx as int),
            final(self)@.wf(),
    {
        if idx != self.active_column_idx {
            self.active_column_idx = idx;
            self.view_offset = 0;
            self.activate_prev_column_on_removal = None;
            true
        } else {
            false
        }
    }

    /// Focus the window at `index` in the focused column.
    pub fn focus_window_in_column(&mut self, index: usize) -> (r: bool)
        requires
            old(self)@.wf(),
        ensures
            (final(self)@, r) == old(self)@.focus_window_in_column(index as int),
            final(self)@.wf(),
    {
        let ci = self.active_column_idx;
        if ci >= self.columns.len() {
            return false;
        }
        if index < self.columns[ci].tiles.len() {
            self.columns[ci].active_tile_idx = index;
            proof {
                let oc = old(self)@.columns[ci as int];
                let new_col = ColumnModel { active_tile_idx: index as int, ..oc };
                assert(self@.columns =~= old(self)@.columns.update(ci as int, new_col));
                assert forall|k: int| 0 <= k < self@.columns.len() implies #[trigger] self@.columns[k].wf() by {
                    assert(old(self)@.columns[k].wf());
                }
            }
            true
        } else {
            false
        }
    }
}

} // verus!

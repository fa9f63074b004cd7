//! Per-monitor layouts (a stack of workspaces, one active) and the whole
//! layout (one entry per monitor).
use std::collections::HashMap;
use vstd::prelude::*;

use super::{WindowId, Workspace, WorkspaceModel};

verus! {

broadcast use vstd::std_specs::hash::group_hash_axioms;

/// Per-monitor layout: a stack of workspaces, one active.
#[derive(Clone, Debug)]
pub struct MonitorLayout {
    /// Device name of the output (stable across handle changes).
    pub device: String,
    pub workspaces: Vec<Workspace>,
    pub active_workspace_idx: usize,
    /// Fast lookup: window -> owning workspace index.
    pub window_map: HashMap<WindowId, usize>,
}

/// The mathematical value of a [`MonitorLayout`].
#[verifier::ext_equal]
pub struct MonitorModel {
    pub device: Seq<char>,
    pub workspaces: Seq<WorkspaceModel>,
    pub active_workspace_idx: int,
    pub window_map: Map<WindowId, usize>,
}

impl View for MonitorLayout {
    type V = MonitorModel;

    open spec fn view(&self) -> MonitorModel {
        MonitorModel {
            device: self.device@,
            workspaces: self.workspaces@.map_values(|w: Workspace| w@),
            active_workspace_idx: self.active_workspace_idx as int,
            window_map: self.window_map@,
        }
    }
}

impl MonitorModel {
    /// At least one workspace, the active one in range, every workspace
    /// well formed, and every recorded owner a real workspace.
    pub open spec fn wf(self) -> bool {
        &&& self.workspaces.len() > 0
        &&& 0 <= self.active_workspace_idx < self.workspaces.len()
        &&& forall|i: int| 0 <= i < self.workspaces.len() ==> #[trigger] self.workspaces[i].wf()
        &&& forall|id: WindowId| #[trigger]
            self.window_map.contains_key(id) ==> self.window_map[id] < self.workspaces.len()
    }

    pub open spec fn active_workspace(self) -> WorkspaceModel {
        self.workspaces[self.active_workspace_idx]
    }

    /// The workspace list grown with empty workspaces to at least `count`.
    pub open spec fn grown(self, count: int) -> Seq<WorkspaceModel> {
        if self.workspaces.len() >= count {
            self.workspaces
        } else {
            self.workspaces + Seq::new(
                (count - self.workspaces.len()) as nat,
                |i: int| WorkspaceModel::empty(),
            )
        }
    }

    /// Add a window to the active workspace.
    pub open spec fn add_window(self, id: WindowId) -> MonitorModel {
        MonitorModel {
            workspaces: self.workspaces.update(
                self.active_workspace_idx,
                self.active_workspace().add_window(id),
            ),
            window_map: self.window_map.insert(id, self.active_workspace_idx as usize),
            ..self
        }
    }

    /// Add a window to workspace `idx` (grown on demand), which becomes
    /// active.
    pub open spec fn add_window_to_workspace(self, id: WindowId, idx: int) -> MonitorModel {
        let ws = self.grown(idx + 1);
        MonitorModel {
            workspaces: ws.update(idx, ws[idx].add_window(id)),
            active_workspace_idx: idx,
            window_map: self.window_map.insert(id, idx as usize),
            ..self
        }
    }

    /// Forget window `id` and remove it from the workspace recorded as its
    /// owner.
    pub open spec fn remove_window(self, id: WindowId) -> (MonitorModel, bool) {
        if self.window_map.contains_key(id) {
            let w = self.window_map[id] as int;
            let (ws, r) = self.workspaces[w].remove_window(id);
            (
                MonitorModel {
                    workspaces: self.workspaces.update(w, ws),
                    window_map: self.window_map.remove(id),
                    ..self
                },
                r,
            )
        } else {
            (self, false)
        }
    }

    /// Make workspace `idx` active (grown on demand); false if already
    /// active.
    pub open spec fn switch_workspace(self, idx: int) -> (MonitorModel, bool) {
        if idx == self.active_workspace_idx {
            (self, false)
        } else {
            (
                MonitorModel {
                    workspaces: self.grown(idx + 1),
                    active_workspace_idx: idx,
                    ..self
                },
                true,
            )
        }
    }

    /// Move the focused window of the active workspace to workspace `idx`
    /// (grown on demand); with `focus`, `idx` becomes active.
    pub open spec fn move_focused_window_to_workspace(self, idx: int, focus: bool) -> (
        MonitorModel,
        Option<WindowId>,
    ) {
        match self.active_workspace().focused_id() {
            None => (self, None),
            Some(id) => if idx == self.active_workspace_idx {
                (self, None)
            } else {
                let ws = self.grown(idx + 1);
                let a = self.active_workspace_idx;
                let ws2 = ws.update(a, ws[a].remove_window(id).0);
                (
                    MonitorModel {
                        workspaces: ws2.update(idx, ws2[idx].add_window(id)),
                        active_workspace_idx: if focus {
                            idx
                        } else {
                            a
                        },
                        window_map: self.window_map.insert(id, idx as usize),
                        ..self
                    },
                    Some(id),
                )
            },
        }
    }

    /// The ids of the focused column of the active workspace.
    pub open spec fn focused_column_ids(self) -> Option<Seq<WindowId>> {
        let w = self.active_workspace();
        if 0 <= w.active_column_idx < w.columns.len() {
            Some(w.columns[w.active_column_idx].ids())
        } else {
            None
        }
    }

    /// Move the whole focused column of the active workspace, as one
    /// column, to workspace `idx` (grown on demand); with `focus`, `idx`
    /// becomes active.
    pub open spec fn move_focused_column_to_workspace(self, idx: int, focus: bool) -> (
        MonitorModel,
        Option<Seq<WindowId>>,
    ) {
        if idx == self.active_workspace_idx {
            (self, None)
        } else {
            match self.focused_column_ids() {
                None => (self, None),
                Some(ids) => if ids.len() == 0 {
                    (self, None)
                } else {
                    let ws = self.grown(idx + 1);
                    let a = self.active_workspace_idx;
                    let ws2 = ws.update(a, remove_all(ws[a], ids));
                    (
                        MonitorModel {
                            workspaces: ws2.update(idx, ws2[idx].add_column(ids)),
                            active_workspace_idx: if focus {
                                idx
                            } else {
                                a
                            },
                            window_map: assign_all(self.window_map, ids, idx as usize),
                            ..self
                        },
                        Some(ids),
                    )
                },
            }
        }
    }
}

impl WorkspaceModel {
    /// The value of a fresh, empty workspace.
    pub open spec fn empty() -> WorkspaceModel {
        WorkspaceModel {
            columns: Seq::empty(),
            active_column_idx: 0,
            view_offset: 0,
            fullscreen_id: None,
            is_overview: false,
            prev_active: None,
        }
    }
}

/// Remove the windows `ids` one after the other.
pub open spec fn remove_all(ws: WorkspaceModel, ids: Seq<WindowId>) -> WorkspaceModel
    decreases ids.len(),
{
    if ids.len() == 0 {
        ws
    } else {
        remove_all(ws, ids.drop_last()).remove_window(ids.last()).0
    }
}

/// `map` with every id of `ids` recorded as owned by workspace `idx`.
pub open spec fn assign_all(map: Map<WindowId, usize>, ids: Seq<WindowId>, idx: usize) -> Map<
    WindowId,
    usize,
> {
    map.union_prefer_right(Map::new(|k: WindowId| ids.contains(k), |k: WindowId| idx))
}


impl MonitorLayout {
    pub fn new(device: String) -> (m: MonitorLayout)
        ensures
            m@ == (MonitorModel {
                device: device@,
                workspaces: seq![WorkspaceModel::empty()],
                active_workspace_idx: 0,
                window_map: Map::empty(),
            }),
            m@.wf(),
    {
        let m = MonitorLayout {
            device,
            workspaces: vec![Workspace::new()],
            active_workspace_idx: 0,
            window_map: HashMap::new(),
        };
        assert(m@.workspaces =~= seq![WorkspaceModel::empty()]);
        m
    }

    pub fn active_workspace(&self) -> (w: &Workspace)
        requires
            self@.wf(),
        ensures
            w@ == self@.active_workspace(),
    {
        &self.workspaces[self.active_workspace_idx]
    }

    pub fn active_workspace_mut(&mut self) -> (w: &mut Workspace)
        requires
            old(self)@.wf(),
        ensures
            w@ == old(self)@.active_workspace(),
            final(self)@ == (MonitorModel {
                workspaces: old(self)@.workspaces.update(
                    old(self)@.active_workspace_idx,
                    final(w)@,
                ),
                ..old(self)@
            }),
    {
        let a = self.active_workspace_idx;
        &mut self.workspaces[a]
    }

    /// Add a window to the active workspace.
    pub fn add_window(&mut self, id: WindowId)
        requires
            old(self)@.wf(),
        ensures
            final(self)@ == old(self)@.add_window(id),
            final(self)@.wf(),
    {
        let ws = self.active_workspace_idx;
        self.workspaces[ws].add_window(id);
        self.window_map.insert(id, ws);
        proof {
            assert(self@.workspaces =~= old(self)@.workspaces.update(
                ws as int,
                old(self)@.active_workspace().add_window(id),
            ));
            assert(old(self)@.workspaces[ws as int].wf());
            assert forall|i: int| 0 <= i < self@.workspaces.len() implies #[trigger] self@.workspaces[i].wf() by {
                assert(old(self)@.workspaces[i].wf());
            }
            assert forall|k: WindowId| #[trigger] self@.window_map.contains_key(k) implies self@.window_map[k]
                < self@.workspaces.len() by {
                if k != id {
                    assert(old(self)@.window_map.contains_key(k));
                }
            }
        }
    }

    /// Grow the workspace list on demand (workspaces come into existence
    /// when first referenced).
    pub fn ensure_workspaces(&mut self, count: usize)
        ensures
            final(self)@ == (MonitorModel { workspaces: old(self)@.grown(count as int), ..old(self)@ }),
            old(self)@.wf() ==> final(self)@.wf(),
    {
        while self.workspaces.len() < count
            invariant
                self.device == old(self).device,
                self.active_workspace_idx == old(self).active_workspace_idx,
                self.window_map@ == old(self).window_map@,
                self@.workspaces =~= old(self)@.grown(self.workspaces.len() as int),
                self.workspaces.len() >= old(self).workspaces.len(),
                self.workspaces.len() <= count || self.workspaces.len() == old(self).workspaces.len(),
            decreases count - self.workspaces.len(),
        {
            let ghost before = self@.workspaces;
            let ghost n = self.workspaces.len() as int;
            self.workspaces.push(Workspace::new());
            proof {
                let o = old(self)@.workspaces;
                assert(self@.workspaces =~= before.push(WorkspaceModel::empty()));
                assert(old(self)@.grown(n + 1) =~= o + Seq::new(
                    (n + 1 - o.len()) as nat,
                    |i: int| WorkspaceModel::empty(),
                ));
                assert(self@.workspaces =~= old(self)@.grown(n + 1));
            }
        }
        proof {
            if old(self)@.wf() {
                assert forall|i: int| 0 <= i < self@.workspaces.len() implies #[trigger] self@.workspaces[i].wf() by {
                    if i < old(self)@.workspaces.len() {
                        assert(old(self)@.workspaces[i].wf());
                    }
                }
            }
        }
    }

    /// Add a window to workspace `idx`, growing the list on demand, and
    /// make that workspace active so focus follows the new window.
    pub fn add_window_to_workspace(&mut self, id: WindowId, idx: usize)
        requires
            old(self)@.wf(),
            idx < usize::MAX,
        ensures
            final(self)@ == old(self)@.add_window_to_workspace(id, idx as int),
            final(self)@.wf(),
    {
        self.ensure_workspaces(idx + 1);
        let ghost mid = self@;
        assert(mid.workspaces[idx as int].wf());
        self.workspaces[idx].add_window(id);
        self.window_map.insert(id, idx);
        self.active_workspace_idx = idx;
        proof {
            assert(self@.workspaces =~= mid.workspaces.update(
                idx as int,
                mid.workspaces[idx as int].add_window(id),
            ));
            assert forall|i: int| 0 <= i < self@.workspaces.len() implies #[trigger] self@.workspaces[i].wf() by {
                assert(mid.workspaces[i].wf());
            }
        }
    }

    /// Forget a window and remove it from its workspace.
    pub fn remove_window(&mut self, id: WindowId) -> (r: bool)
        requires
            old(self)@.wf(),
        ensures
            (final(self)@, r) == old(self)@.remove_window(id),
            final(self)@.wf(),
    {
        let ws = match self.window_map.remove(&id) {
            Some(ws) => ws,
            None => return false,
        };
        assert(old(self)@.workspaces[ws as int].wf());
        let r = self.workspaces[ws].remove_window(id);
        proof {
            assert(self@.workspaces =~= old(self)@.workspaces.update(
                ws as int,
                old(self)@.workspaces[ws as int].remove_window(id).0,
            ));
            assert forall|i: int| 0 <= i < self@.workspaces.len() implies #[trigger] self@.workspaces[i].wf() by {
                assert(old(self)@.workspaces[i].wf());
            }
        }
        r
    }

    /// Which workspace holds this window?
    pub fn workspace_of(&self, id: WindowId) -> (r: Option<usize>)
        ensures
            r == (if self@.window_map.contains_key(id) {
                Some(self@.window_map[id])
            } else {
                None
            }),
    {
        match self.window_map.get(&id) {
            Some(w) => Some(*w),
            None => None,
        }
    }

    /// Switch the active workspace, growing the list on demand. False if
    /// already active.
    pub fn switch_workspace(&mut self, idx: usize) -> (r: bool)
        requires
            old(self)@.wf(),
            idx < usize::MAX,
        ensures
            (final(self)@, r) == old(self)@.switch_workspace(idx as int),
            final(self)@.wf(),
    {
        if idx == self.active_workspace_idx {
            return false;
        }
        self.ensure_workspaces(idx + 1);
        self.active_workspace_idx = idx;
        true
    }

    /// Move the focused window to workspace `idx` (niri's
    /// move-window-to-workspace). With `focus`, the target workspace
    /// becomes active (the window follows).
    pub fn move_focused_window_to_workspace(&mut self, idx: usize, focus: bool) -> (r: Option<
        WindowId,
    >)
        requires
            old(self)@.wf(),
            idx < usize::MAX,
        ensures
            (final(self)@, r) == old(self)@.move_focused_window_to_workspace(idx as int, focus),
            final(self)@.wf(),
    {
        let id = match self.active_workspace().focused_id() {
            Some(id) => id,
            None => return None,
        };
        if idx == self.active_workspace_idx {
            return None;
        }
        self.ensure_workspaces(idx + 1);
        let ghost g = self@;
        let a = self.active_workspace_idx;
        assert(g.workspaces[a as int].wf());
        self.workspaces[a].remove_window(id);
        let ghost g2 = self@;
        assert(g2.workspaces =~= g.workspaces.update(a as int, g.workspaces[a as int].remove_window(id).0));
        assert(g2.workspaces[idx as int].wf()) by {
            assert(g.workspaces[idx as int].wf());
        }
        self.workspaces[idx].add_window(id);
        self.window_map.insert(id, idx);
        if focus {
            self.active_workspace_idx = idx;
        }
        proof {
            assert(self@.workspaces =~= g2.workspaces.update(
                idx as int,
                g2.workspaces[idx as int].add_window(id),
            ));
            assert forall|i: int| 0 <= i < self@.workspaces.len() implies #[trigger] self@.workspaces[i].wf() by {
                assert(g.workspaces[i].wf());
            }
            assert forall|k: WindowId| #[trigger] self@.window_map.contains_key(k) implies self@.window_map[k]
                < self@.workspaces.len() by {
                if k != id {
                    assert(g.window_map.contains_key(k));
                }
            }
        }
        Some(id)
    }

    /// Move the whole focused column, as a single column, to workspace
    /// `idx` (niri's move-column-to-workspace). Returns the moved ids.
    pub fn move_focused_column_to_workspace(&mut self, idx: usize, focus: bool) -> (r: Option<
        Vec<WindowId>,
    >)
        requires
            old(self)@.wf(),
            idx < usize::MAX,
        ensures
            (final(self)@, (match r {
                Some(v) => Some(v@),
                None => None,
            })) == old(self)@.move_focused_column_to_workspace(idx as int, focus),
            final(self)@.wf(),
    {
        if idx == self.active_workspace_idx {
            return None;
        }
        let a = self.active_workspace_idx;
        let ac = self.workspaces[a].active_column_idx;
        if ac >= self.workspaces[a].columns.len() {
            return None;
        }
        let ids = self.workspaces[a].columns[ac].window_ids();
        if ids.len() == 0 {
            return None;
        }
        self.ensure_workspaces(idx + 1);
        let ghost g = self@;
        assert(g.workspaces[a as int].wf());
        assert(remove_all(g.workspaces[a as int], ids@.take(0)) == g.workspaces[a as int]);
        let mut k: usize = 0;
        while k < ids.len()
            invariant
                0 <= k <= ids.len(),
                a == old(self).active_workspace_idx,
                a != idx,
                a < g.workspaces.len(),
                g.workspaces.len() > idx,
                self@.device == old(self)@.device,
                self.active_workspace_idx == a,
                self@.workspaces.len() == g.workspaces.len(),
                forall|i: int| 0 <= i < g.workspaces.len() ==> #[trigger] g.workspaces[i].wf(),
                forall|i: int| 0 <= i < g.workspaces.len() && i != a ==> #[trigger] self@.workspaces[i] == g.workspaces[i],
                self@.workspaces[a as int] == remove_all(g.workspaces[a as int], ids@.take(k as int)),
                self@.workspaces[a as int].wf(),
                self@.window_map == assign_all(g.window_map, ids@.take(k as int), idx),
            decreases ids.len() - k,
        {
            let id = ids[k];
            let ghost before = self@;
            self.workspaces[a].remove_window(id);
            self.window_map.insert(id, idx);
            k += 1;
            proof {
                let t = ids@.take(k as int);
                assert(t.drop_last() =~= ids@.take(k - 1));
                assert(t.last() == id);
                assert forall|i: int| 0 <= i < g.workspaces.len() && i != a implies #[trigger] self@.workspaces[i] == g.workspaces[i] by {
                    assert(before.workspaces[i] == g.workspaces[i]);
                }
                let prev = ids@.take(k - 1);
                assert forall|q: WindowId| #[trigger] t.contains(q) == (prev.contains(q) || q == id) by {
                    if q == id {
                        assert(t[k - 1] == id);
                    }
                    if prev.contains(q) {
                        let j = choose|j: int| 0 <= j < prev.len() && #[trigger] prev[j] == q;
                        assert(t[j] == q);
                    }
                    if t.contains(q) && q != id {
                        let j = choose|j: int| 0 <= j < t.len() && #[trigger] t[j] == q;
                        assert(prev[j] == q);
                    }
                }
                assert(self@.window_map =~= assign_all(g.window_map, t, idx));
            }
        }
        assert(ids@.take(ids@.len() as int) =~= ids@);
        let ghost g2 = self@;
        assert(g2.workspaces[idx as int].wf()) by {
            assert(g.workspaces[idx as int].wf());
        }
        self.workspaces[idx].add_column(&ids);
        if focus {
            self.active_workspace_idx = idx;
        }
        proof {
            assert(g2.workspaces =~= g.workspaces.update(a as int, remove_all(g.workspaces[a as int], ids@)));
            assert(self@.workspaces =~= g2.workspaces.update(
                idx as int,
                g2.workspaces[idx as int].add_column(ids@),
            ));
            assert forall|i: int| 0 <= i < self@.workspaces.len() implies #[trigger] self@.workspaces[i].wf() by {
                if i != a && i != idx {
                    assert(g.workspaces[i].wf());
                }
            }
            assert forall|q: WindowId| #[trigger] self@.window_map.contains_key(q) implies self@.window_map[q]
                < self@.workspaces.len() by {
                if !ids@.contains(q) {
                    assert(g.window_map.contains_key(q));
                }
            }
        }
        Some(ids)
    }
}


/// The whole layout: one entry per monitor.
#[derive(Clone, Debug)]
pub struct Layout {
    pub monitors: Vec<MonitorLayout>,
}

/// The mathematical value of a [`Layout`].
#[verifier::ext_equal]
pub struct LayoutModel {
    pub monitors: Seq<MonitorModel>,
}

impl View for Layout {
    type V = LayoutModel;

    open spec fn view(&self) -> LayoutModel {
        LayoutModel { monitors: self.monitors@.map_values(|m: MonitorLayout| m@) }
    }
}

impl LayoutModel {
    pub open spec fn wf(self) -> bool {
        forall|i: int| 0 <= i < self.monitors.len() ==> #[trigger] self.monitors[i].wf()
    }

    /// Monitor `i` is the first one named `device`.
    pub open spec fn is_first_monitor(self, device: Seq<char>, i: int) -> bool {
        &&& 0 <= i < self.monitors.len()
        &&& self.monitors[i].device == device
        &&& forall|j: int| 0 <= j < i ==> (#[trigger] self.monitors[j]).device != device
    }

    /// Index of the first monitor named `device`.
    pub open spec fn monitor_index(self, device: Seq<char>) -> Option<int> {
        if exists|i: int| self.is_first_monitor(device, i) {
            Some(choose|i: int| self.is_first_monitor(device, i))
        } else {
            None
        }
    }

    /// Add a monitor (with one empty workspace) unless one of that name
    /// exists.
    pub open spec fn add_monitor(self, device: Seq<char>) -> LayoutModel {
        if self.monitor_index(device) is Some {
            self
        } else {
            LayoutModel {
                monitors: self.monitors.push(
                    MonitorModel {
                        device,
                        workspaces: seq![WorkspaceModel::empty()],
                        active_workspace_idx: 0,
                        window_map: Map::empty(),
                    },
                ),
            }
        }
    }

    /// The window focused on monitor `device`.
    pub open spec fn focused_id(self, device: Seq<char>) -> Option<WindowId> {
        match self.monitor_index(device) {
            Some(i) => self.monitors[i].active_workspace().focused_id(),
            None => None,
        }
    }

    /// Add a window to the active workspace of monitor `device` (added on
    /// demand).
    pub open spec fn add_window(self, device: Seq<char>, id: WindowId) -> LayoutModel {
        let l = self.add_monitor(device);
        let i = l.monitor_index(device).unwrap();
        LayoutModel { monitors: l.monitors.update(i, l.monitors[i].add_window(id)) }
    }

    /// Index of the first monitor whose window map holds `id`.
    pub open spec fn owner_index(self, id: WindowId) -> Option<int> {
        if exists|i: int|
            0 <= i < self.monitors.len() && (#[trigger] self.monitors[i]).window_map.contains_key(
                id,
            ) {
            Some(
                choose|i: int|
                    0 <= i < self.monitors.len() && (#[trigger] self.monitors[i]).window_map.contains_key(id)
                        && forall|j: int|
                        0 <= j < i ==> !(#[trigger] self.monitors[j]).window_map.contains_key(id),
            )
        } else {
            None
        }
    }

    /// Remove a window: each monitor from `k` on forgets it in turn until
    /// one removes it from a workspace; the name of that monitor.
    pub open spec fn remove_window_from(self, id: WindowId, k: int) -> (
        LayoutModel,
        Option<Seq<char>>,
    )
        decreases self.monitors.len() - k,
    {
        if k < 0 || k >= self.monitors.len() {
            (self, None)
        } else {
            let (m, r) = self.monitors[k].remove_window(id);
            let l = LayoutModel { monitors: self.monitors.update(k, m) };
            if r {
                (l, Some(self.monitors[k].device))
            } else {
                l.remove_window_from(id, k + 1)
            }
        }
    }

    /// Remove a window from wherever it lives; the monitor it was found on.
    pub open spec fn remove_window(self, id: WindowId) -> (LayoutModel, Option<Seq<char>>) {
        self.remove_window_from(id, 0)
    }

    /// Focus a window: its workspace, column and tile become active on the
    /// first monitor that records it.
    pub open spec fn focus_window(self, id: WindowId) -> (LayoutModel, bool) {
        match self.owner_index(id) {
            Some(i) => {
                let m = self.monitors[i];
                let w = m.window_map[id] as int;
                (
                    LayoutModel {
                        monitors: self.monitors.update(
                            i,
                            MonitorModel {
                                workspaces: m.workspaces.update(
                                    w,
                                    m.workspaces[w].focus_window(id).0,
                                ),
                                active_workspace_idx: w,
                                ..m
                            },
                        ),
                    },
                    true,
                )
            },
            None => (self, false),
        }
    }
}

/// Index of the first monitor whose window map holds `id`, searched from
/// the front.
pub(crate) proof fn lemma_owner_first(l: LayoutModel, id: WindowId, i: int)
    requires
        0 <= i < l.monitors.len(),
        l.monitors[i].window_map.contains_key(id),
        forall|j: int| 0 <= j < i ==> !(#[trigger] l.monitors[j]).window_map.contains_key(id),
    ensures
        l.owner_index(id) == Some(i),
{
    let q = choose|q: int|
        0 <= q < l.monitors.len() && (#[trigger] l.monitors[q]).window_map.contains_key(id)
            && forall|j: int| 0 <= j < q ==> !(#[trigger] l.monitors[j]).window_map.contains_key(id);
    assert(l.monitors[i].window_map.contains_key(id));
    if q < i {
        assert(!l.monitors[q].window_map.contains_key(id));
    } else if i < q {
        assert(!l.monitors[i].window_map.contains_key(id));
    }
}

/// A monitor of that name exists, so a first one does.
pub(crate) proof fn lemma_monitor_exists_first(l: LayoutModel, device: Seq<char>, j: int)
    requires
        0 <= j < l.monitors.len(),
        l.monitors[j].device == device,
    ensures
        l.monitor_index(device) is Some,
    decreases j,
{
    if exists|k: int| 0 <= k < j && (#[trigger] l.monitors[k]).device == device {
        let k = choose|k: int| 0 <= k < j && (#[trigger] l.monitors[k]).device == device;
        lemma_monitor_exists_first(l, device, k);
    } else {
        assert(l.is_first_monitor(device, j));
    }
}

proof fn lemma_monitor_first(l: LayoutModel, device: Seq<char>, i: int)
    requires
        l.is_first_monitor(device, i),
    ensures
        l.monitor_index(device) == Some(i),
{
    let q = choose|q: int| l.is_first_monitor(device, q);
    if q < i {
        assert(l.monitors[q].device != device);
    } else if i < q {
        assert(l.monitors[i].device != device);
    }
}

impl Layout {
    pub fn new() -> (l: Layout)
        ensures
            l@.monitors.len() == 0,
    {
        Layout { monitors: Vec::new() }
    }

    fn monitor_position(&self, device: &str) -> (r: Option<usize>)
        ensures
            (match r {
                Some(i) => Some(i as int),
                None => None,
            }) == self@.monitor_index(device@),
    {
        let name = String::from_str(device);
        let mut i: usize = 0;
        while i < self.monitors.len()
            invariant
                0 <= i <= self.monitors.len(),
                name@ == device@,
                forall|j: int| 0 <= j < i ==> (#[trigger] self@.monitors[j]).device != device@,
            decreases self.monitors.len() - i,
        {
            if self.monitors[i].device == name {
                proof {
                    lemma_monitor_first(self@, device@, i as int);
                }
                return Some(i);
            }
            i += 1;
        }
        proof {
            if exists|k: int| self@.is_first_monitor(device@, k) {
                let k = choose|k: int| self@.is_first_monitor(device@, k);
                assert(self@.monitors[k].device == device@);
            }
        }
        None
    }

    /// The monitor named `device`, if any.
    pub fn monitor(&self, device: &str) -> (r: Option<&MonitorLayout>)
        ensures
            (match r {
                Some(m) => Some(m@),
                None => None,
            }) == (match self@.monitor_index(device@) {
                Some(i) => Some(self@.monitors[i]),
                None => None,
            }),
    {
        match self.monitor_position(device) {
            Some(i) => Some(&self.monitors[i]),
            None => None,
        }
    }

    /// Add a monitor with a fresh workspace (unless one of that name exists).
    pub fn add_monitor(&mut self, device: &str)
        ensures
            final(self)@ == old(self)@.add_monitor(device@),
            old(self)@.wf() ==> final(self)@.wf(),
    {
        if self.monitor_position(device).is_none() {
            let m = MonitorLayout::new(String::from_str(device));
            self.monitors.push(m);
            assert(self@.monitors =~= old(self)@.monitors.push(m@));
        }
    }

    /// Remove a monitor; its windows need rehoming by the caller.
    pub fn remove_monitor(&mut self, device: &str) -> (r: Option<MonitorLayout>)
        ensures
            (match r {
                Some(m) => Some(m@),
                None => None,
            }) == (match old(self)@.monitor_index(device@) {
                Some(i) => Some(old(self)@.monitors[i]),
                None => None,
            }),
            final(self)@.monitors == (match old(self)@.monitor_index(device@) {
                Some(i) => old(self)@.monitors.remove(i),
                None => old(self)@.monitors,
            }),
            old(self)@.wf() ==> final(self)@.wf(),
    {
        match self.monitor_position(device) {
            Some(i) => {
                let m = self.monitors.remove(i);
                assert(self@.monitors =~= old(self)@.monitors.remove(i as int));
                proof {
                    if old(self)@.wf() {
                        assert forall|k: int| 0 <= k < self@.monitors.len() implies #[trigger] self@.monitors[k].wf() by {
                            if k < i {
                                assert(old(self)@.monitors[k].wf());
                            } else {
                                assert(old(self)@.monitors[k + 1].wf());
                            }
                        }
                    }
                }
                Some(m)
            },
            None => None,
        }
    }

    /// The window focused on a given monitor, if any.
    pub fn focused_id(&self, device: &str) -> (r: Option<WindowId>)
        requires
            self@.wf(),
        ensures
            r == self@.focused_id(device@),
    {
        match self.monitor_position(device) {
            Some(i) => {
                assert(self@.monitors[i as int].wf());
                self.monitors[i].active_workspace().focused_id()
            },
            None => None,
        }
    }

    /// Add a window to the active workspace of a monitor (added on demand).
    pub fn add_window(&mut self, device: &str, id: WindowId)
        requires
            old(self)@.wf(),
        ensures
            final(self)@ == old(self)@.add_window(device@, id),
            final(self)@.wf(),
    {
        self.add_monitor(device);
        let ghost l = self@;
        proof {
            match old(self)@.monitor_index(device@) {
                Some(k) => {
                    assert(l.monitors[k].device == device@);
                    lemma_monitor_exists_first(l, device@, k);
                },
                None => {
                    let n = old(self)@.monitors.len() as int;
                    assert(l.monitors[n].device == device@);
                    lemma_monitor_exists_first(l, device@, n);
                },
            }
        }
        let i = self.monitor_position(device).unwrap();
        assert(l.monitors[i as int].wf());
        self.monitors[i].add_window(id);
        proof {
            assert(self@.monitors =~= l.monitors.update(i as int, l.monitors[i as int].add_window(id)));
            assert forall|k: int| 0 <= k < self@.monitors.len() implies #[trigger] self@.monitors[k].wf() by {
                assert(l.monitors[k].wf());
            }
        }
    }

    /// Remove a window from wherever it lives. Returns the device it was
    /// found on.
    pub fn remove_window(&mut self, id: WindowId) -> (r: Option<String>)
        requires
            old(self)@.wf(),
        ensures
            (final(self)@, (match r {
                Some(d) => Some(d@),
                None => None,
            })) == old(self)@.remove_window(id),
            final(self)@.wf(),
    {
        let mut i: usize = 0;
        while i < self.monitors.len()
            invariant
                0 <= i <= self.monitors.len(),
                self@.wf(),
                old(self)@.remove_window(id) == self@.remove_window_from(id, i as int),
            decreases self.monitors.len() - i,
        {
            let ghost before = self@;
            assert(before.monitors[i as int].wf());
            let removed = self.monitors[i].remove_window(id);
            proof {
                assert(self@.monitors =~= before.monitors.update(
                    i as int,
                    before.monitors[i as int].remove_window(id).0,
                ));
                assert forall|k: int| 0 <= k < self@.monitors.len() implies #[trigger] self@.monitors[k].wf() by {
                    assert(before.monitors[k].wf());
                }
            }
            if removed {
                return Some(self.monitors[i].device.clone());
            }
            i += 1;
        }
        None
    }

    /// Focus a window: activates its workspace, column and tile on the
    /// first monitor that records it.
    pub fn focus_window(&mut self, id: WindowId) -> (r: bool)
        requires
            old(self)@.wf(),
        ensures
            (final(self)@, r) == old(self)@.focus_window(id),
            final(self)@.wf(),
    {
        let mut i: usize = 0;
        while i < self.monitors.len()
            invariant
                0 <= i <= self.monitors.len(),
                self@ == old(self)@,
                self@.wf(),
                forall|j: int| 0 <= j < i ==> !(#[trigger] self@.monitors[j]).window_map.contains_key(id),
            decreases self.monitors.len() - i,
        {
            if let Some(ws) = self.monitors[i].workspace_of(id) {
                proof {
                    lemma_owner_first(self@, id, i as int);
                }
                let ghost m = self@.monitors[i as int];
                assert(m.wf());
                assert(m.workspaces[ws as int].wf());
                let mon = &mut self.monitors[i];
                mon.active_workspace_idx = ws;
                mon.workspaces[ws].focus_window(id);
                proof {
                    let w = ws as int;
                    let nm = MonitorModel {
                        workspaces: m.workspaces.update(w, m.workspaces[w].focus_window(id).0),
                        active_workspace_idx: w,
                        ..m
                    };
                    assert(self@.monitors[i as int].workspaces =~= nm.workspaces);
                    assert(self@.monitors =~= old(self)@.monitors.update(i as int, nm));
                    assert forall|k: int| 0 <= k < nm.workspaces.len() implies #[trigger] nm.workspaces[k].wf() by {
                        assert(m.workspaces[k].wf());
                    }
                    assert forall|k: int| 0 <= k < self@.monitors.len() implies #[trigger] self@.monitors[k].wf() by {
                        assert(old(self)@.monitors[k].wf());
                    }
                }
                return true;
            }
            i += 1;
        }
        proof {
            if exists|k: int|
                0 <= k < self@.monitors.len() && (#[trigger] self@.monitors[k]).window_map.contains_key(
                    id,
                ) {
                let k = choose|k: int|
                    0 <= k < self@.monitors.len() && (#[trigger] self@.monitors[k]).window_map.contains_key(
                        id,
                    );
                assert(!self@.monitors[k].window_map.contains_key(id));
            }
        }
        false
    }

    /// Index of the first monitor that records window `id`.
    pub(crate) fn owner_of(&self, id: WindowId) -> (r: Option<usize>)
        ensures
            match r {
                Some(i) => i < self@.monitors.len() && self@.owner_index(id) == Some(i as int),
                None => self@.owner_index(id) is None,
            },
    {
        let mut i: usize = 0;
        while i < self.monitors.len()
            invariant
                0 <= i <= self.monitors.len(),
                forall|j: int| 0 <= j < i ==> !(#[trigger] self@.monitors[j]).window_map.contains_key(id),
            decreases self.monitors.len() - i,
        {
            if let Some(_) = self.monitors[i].workspace_of(id) {
                proof {
                    lemma_owner_first(self@, id, i as int);
                }
                return Some(i);
            }
            i += 1;
        }
        proof {
            if exists|k: int|
                0 <= k < self@.monitors.len() && (#[trigger] self@.monitors[k]).window_map.contains_key(id) {
                let k = choose|k: int|
                    0 <= k < self@.monitors.len() && (#[trigger] self@.monitors[k]).window_map.contains_key(id);
                assert(!self@.monitors[k].window_map.contains_key(id));
            }
        }
        None
    }

    /// The monitor named `device`, for mutation.
    pub fn monitor_mut(&mut self, device: &str) -> (r: Option<&mut MonitorLayout>)
        ensures
            match r {
                Some(m) => {
                    &&& old(self)@.monitor_index(device@) is Some
                    &&& m@ == old(self)@.monitors[old(self)@.monitor_index(device@).unwrap()]
                    &&& final(self)@.monitors == old(self)@.monitors.update(
                        old(self)@.monitor_index(device@).unwrap(),
                        final(m)@,
                    )
                },
                None => {
                    &&& old(self)@.monitor_index(device@) is None
                    &&& final(self)@ == old(self)@
                },
            },
    {
        match self.monitor_position(device) {
            Some(i) => {
                let m = &mut self.monitors[i];
                Some(m)
            },
            None => None,
        }
    }
}

} // verus!

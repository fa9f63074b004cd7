//! What the layout means on the physical screens: the area each monitor
//! lays windows out in, the rectangles to animate to, which window to
//! raise, and scrolling the view to follow a window.
use vstd::prelude::*;

use crate::app::Session;
use crate::layout::geometry::{
    compute_workspace_geometry, inner_size, inner_size_of, refresh_view_offset, view_refreshed,
    workspace_rects, LayoutParams, TileRect,
};
use crate::layout::monitor::{Layout, LayoutModel, MonitorModel};
use crate::layout::{WindowId, WorkspaceModel, ONE};
use crate::win::monitor::Monitor;

verus! {

/// Do the width and height of the monitor's working area fit in 32 bits?
pub open spec fn screen_fits(m: Monitor) -> bool {
    &&& i32::MIN <= m.work.right - m.work.left <= i32::MAX
    &&& i32::MIN <= m.work.bottom - m.work.top <= i32::MAX
}

/// Does every monitor of the list fit (see [`screen_fits`])?
pub open spec fn screens_fit(screens: Seq<Monitor>) -> bool {
    forall|i: int| 0 <= i < screens.len() ==> #[trigger] screen_fits(screens[i])
}

/// The working area of a monitor in millionths of a pixel: left, top,
/// width and height.
pub open spec fn screen_area(m: Monitor) -> (i64, i64, i64, i64) {
    (
        (m.work.left * ONE) as i64,
        (m.work.top * ONE) as i64,
        ((m.work.right - m.work.left) * ONE) as i64,
        ((m.work.bottom - m.work.top) * ONE) as i64,
    )
}

/// The working area of `m` (see [`screen_area`]).
pub fn work_area(m: &Monitor) -> (r: (i64, i64, i64, i64))
    requires
        screen_fits(*m),
    ensures
        r == screen_area(*m),
{
    let w = m.width() as i64;
    let h = m.height() as i64;
    (m.work.left as i64 * ONE, m.work.top as i64 * ONE, w * ONE, h * ONE)
}

/// The rectangles to move windows to, for the first `n` monitors of
/// `screens`, in order: for each, the active workspace of the layout
/// monitor of that name, laid out in its working area.
pub open spec fn screens_rects(l: LayoutModel, p: LayoutParams, screens: Seq<Monitor>, n: int) -> Seq<
    TileRect,
>
    decreases n,
{
    if n <= 0 {
        Seq::empty()
    } else {
        let before = screens_rects(l, p, screens, n - 1);
        match l.monitor_index(screens[n - 1].device@) {
            Some(i) => before + workspace_rects(
                l.monitors[i].active_workspace(),
                p,
                screen_area(screens[n - 1]),
            ),
            None => before,
        }
    }
}

/// The rectangles to animate the windows to: none while the user drags
/// or resizes a window (tiling pauses), else those of every monitor (see
/// [`screens_rects`]).
pub fn reflow_targets(session: &Session, params: &LayoutParams, screens: &[Monitor]) -> (r: Option<
    Vec<TileRect>,
>)
    requires
        session.layout@.wf(),
        screens_fit(screens@),
    ensures
        match r {
            Some(v) => session.interacting is None && v@ == screens_rects(
                session.layout@,
                *params,
                screens@,
                screens@.len() as int,
            ),
            None => session.interacting is Some,
        },
{
    if session.interacting.is_some() {
        return None;
    }
    let mut out: Vec<TileRect> = Vec::new();
    let mut i: usize = 0;
    while i < screens.len()
        invariant
            i <= screens@.len(),
            session.layout@.wf(),
            screens_fit(screens@),
            out@ == screens_rects(session.layout@, *params, screens@, i as int),
        decreases screens@.len() - i,
    {
        let mon = &screens[i];
        assert(screen_fits(screens@[i as int]));
        match session.layout.monitor(mon.device.as_str()) {
            Some(ml) => {
                let ghost k = session.layout@.monitor_index(mon.device@).unwrap();
                assert(session.layout@.monitors[k].wf());
                let area = work_area(mon);
                let rects = compute_workspace_geometry(ml.active_workspace(), params, area);
                let mut j: usize = 0;
                let ghost start = out@;
                while j < rects.len()
                    invariant
                        j <= rects@.len(),
                        out@ == start + rects@.take(j as int),
                    decreases rects@.len() - j,
                {
                    out.push(rects[j]);
                    j += 1;
                    assert(out@ =~= start + rects@.take(j as int));
                }
                assert(rects@.take(j as int) =~= rects@);
            },
            None => {},
        }
        i += 1;
    }
    Some(out)
}

/// The window to raise after a layout-driven focus change: the one
/// focused on the monitor holding the focused window (the first monitor
/// that records it), else on the monitor under the cursor.
pub open spec fn raise_target(
    l: LayoutModel,
    focused: Option<WindowId>,
    cursor_device: Option<Seq<char>>,
) -> Option<WindowId> {
    let device = match focused {
        Some(id) => match l.owner_index(id) {
            Some(i) => Some(l.monitors[i].device),
            None => cursor_device,
        },
        None => cursor_device,
    };
    match device {
        Some(d) => l.focused_id(d),
        None => None,
    }
}

/// The window to raise (see [`raise_target`]).
pub fn window_to_raise(layout: &Layout, focused: Option<WindowId>, cursor_device: Option<&str>) -> (r:
    Option<WindowId>)
    requires
        layout@.wf(),
    ensures
        r == raise_target(
            layout@,
            focused,
            match cursor_device {
                Some(d) => Some(d@),
                None => None,
            },
        ),
{
    let owner = match focused {
        Some(id) => layout.owner_of(id),
        None => None,
    };
    match owner {
        Some(i) => layout.focused_id(layout.monitors[i].device.as_str()),
        None => match cursor_device {
            Some(d) => layout.focused_id(d),
            None => None,
        },
    }
}

/// Some monitor of `screens` is named `device`.
pub open spec fn has_screen(screens: Seq<Monitor>, device: Seq<char>) -> bool {
    exists|s: int| 0 <= s < screens.len() && (#[trigger] screens[s]).device@ == device
}

/// `s` is the first monitor of `screens` named `device`.
pub open spec fn first_screen(screens: Seq<Monitor>, device: Seq<char>, s: int) -> bool {
    &&& 0 <= s < screens.len()
    &&& screens[s].device@ == device
    &&& forall|j: int| 0 <= j < s ==> (#[trigger] screens[j]).device@ != device
}

/// Layout monitor `k` is the first that records window `id` and has a
/// screen, and screen `s` is the first of that name.
pub open spec fn follow_site(
    l: LayoutModel,
    id: WindowId,
    screens: Seq<Monitor>,
    k: int,
    s: int,
) -> bool {
    &&& 0 <= k < l.monitors.len()
    &&& l.monitors[k].window_map.contains_key(id)
    &&& first_screen(screens, l.monitors[k].device, s)
    &&& forall|j: int|
        0 <= j < k && (#[trigger] l.monitors[j]).window_map.contains_key(id) ==> !has_screen(
            screens,
            l.monitors[j].device,
        )
}

/// The width the view has on monitor `m`: its working area less the edge
/// padding on both sides (at least one pixel).
pub open spec fn view_width_on(m: Monitor, p: LayoutParams) -> i64 {
    inner_size(screen_area(m).2, p.edge_padding)
}

/// The layout after scrolling the workspace that holds window `id` so
/// that its focused column shows: on the first layout monitor that
/// records `id` and has a screen, with the view width of that screen.
pub open spec fn view_followed(
    l: LayoutModel,
    p: LayoutParams,
    id: WindowId,
    screens: Seq<Monitor>,
) -> LayoutModel {
    if exists|k: int, s: int| follow_site(l, id, screens, k, s) {
        let (k, s) = choose|k: int, s: int| follow_site(l, id, screens, k, s);
        let m = l.monitors[k];
        let w = m.window_map[id] as int;
        LayoutModel {
            monitors: l.monitors.update(
                k,
                MonitorModel {
                    workspaces: m.workspaces.update(
                        w,
                        view_refreshed(m.workspaces[w], p, view_width_on(screens[s], p), None),
                    ),
                    ..m
                },
            ),
        }
    } else {
        l
    }
}

/// The first monitor of `screens` named `device`, if any.
fn screen_named(screens: &[Monitor], device: &String) -> (r: Option<usize>)
    ensures
        match r {
            Some(s) => first_screen(screens@, device@, s as int),
            None => !has_screen(screens@, device@),
        },
{
    let mut s: usize = 0;
    while s < screens.len()
        invariant
            s <= screens@.len(),
            forall|j: int| 0 <= j < s ==> (#[trigger] screens@[j]).device@ != device@,
        decreases screens@.len() - s,
    {
        if screens[s].device == *device {
            return Some(s);
        }
        s += 1;
    }
    None
}

/// A follow site is unique: the first monitor that records `id` and has
/// a screen, and the first screen of its name.
proof fn lemma_follow_site_unique(
    l: LayoutModel,
    id: WindowId,
    screens: Seq<Monitor>,
    k: int,
    s: int,
    k2: int,
    s2: int,
)
    requires
        follow_site(l, id, screens, k, s),
        follow_site(l, id, screens, k2, s2),
    ensures
        k == k2 && s == s2,
{
    if k < k2 {
        assert(has_screen(screens, l.monitors[k].device)) by {
            assert(screens[s].device@ == l.monitors[k].device);
        }
        assert(l.monitors[k].window_map.contains_key(id));
    } else if k2 < k {
        assert(has_screen(screens, l.monitors[k2].device)) by {
            assert(screens[s2].device@ == l.monitors[k2].device);
        }
        assert(l.monitors[k2].window_map.contains_key(id));
    }
    if s < s2 {
        assert(screens[s].device@ == l.monitors[k].device);
    } else if s2 < s {
        assert(screens[s2].device@ == l.monitors[k].device);
    }
}

/// Scroll the workspace that holds window `id` so that its focused
/// column shows (see [`view_followed`]).
pub fn follow_focus(layout: &mut Layout, params: &LayoutParams, id: WindowId, screens: &[Monitor])
    requires
        old(layout)@.wf(),
        screens_fit(screens@),
    ensures
        final(layout)@ == view_followed(old(layout)@, *params, id, screens@),
        final(layout)@.wf(),
{
    let ghost l0 = layout@;
    let mut k: usize = 0;
    while k < layout.monitors.len()
        invariant
            layout@ == l0,
            old(layout)@ == l0,
            l0.wf(),
            screens_fit(screens@),
            k <= l0.monitors.len(),
            forall|j: int|
                0 <= j < k && (#[trigger] l0.monitors[j]).window_map.contains_key(id) ==> !has_screen(
                    screens@,
                    l0.monitors[j].device,
                ),
        decreases l0.monitors.len() - k,
    {
        match layout.monitors[k].workspace_of(id) {
            Some(w) => {
                match screen_named(screens, &layout.monitors[k].device) {
                    Some(s) => {
                        proof {
                            assert(follow_site(l0, id, screens@, k as int, s as int));
                            let (k2, s2) = choose|k2: int, s2: int|
                                follow_site(l0, id, screens@, k2, s2);
                            lemma_follow_site_unique(l0, id, screens@, k as int, s as int, k2, s2);
                            assert(l0.monitors[k as int].wf());
                            assert(screen_fits(screens@[s as int]));
                            let m = l0.monitors[k as int];
                            assert(m.window_map.contains_key(id));
                            assert(m.workspaces[w as int].wf());
                        }
                        let area = work_area(&screens[s]);
                        let vw = inner_size_of(area.2, params.edge_padding);
                        let ghost m0 = l0.monitors[k as int];
                        let ws = &mut layout.monitors[k].workspaces[w];
                        refresh_view_offset(ws, params, vw, None);
                        proof {
                            let wi = w as int;
                            let ki = k as int;
                            let nw = view_refreshed(m0.workspaces[wi], *params, vw, None);
                            let m1 = layout@.monitors[ki];
                            assert(m1.workspaces[wi] == nw);
                            assert(m1.workspaces =~= m0.workspaces.update(wi, nw));
                            assert(m1 == MonitorModel { workspaces: m0.workspaces.update(wi, nw), ..m0 });
                            assert(layout@.monitors =~= l0.monitors.update(ki, m1));
                            assert(vw == view_width_on(screens@[s as int], *params));
                            assert(layout@.monitors =~= view_followed(l0, *params, id, screens@).monitors);
                            assert(layout@ == view_followed(l0, *params, id, screens@));
                            assert forall|i: int| 0 <= i < layout@.monitors.len() implies #[trigger] layout@.monitors[i].wf() by {
                                assert(l0.monitors[i].wf());
                                if i == k {
                                    assert forall|x: int| 0 <= x < layout@.monitors[i].workspaces.len() implies #[trigger] layout@.monitors[i].workspaces[x].wf() by {
                                        assert(m0.workspaces[x].wf());
                                    }
                                }
                            }
                        }
                        return;
                    },
                    None => {},
                }
            },
            None => {},
        }
        k += 1;
    }
    proof {
        if exists|k2: int, s2: int| follow_site(l0, id, screens@, k2, s2) {
            let (k2, s2) = choose|k2: int, s2: int| follow_site(l0, id, screens@, k2, s2);
            assert(has_screen(screens@, l0.monitors[k2].device)) by {
                assert(screens@[s2].device@ == l0.monitors[k2].device);
            }
            assert(l0.monitors[k2].window_map.contains_key(id));
        }
    }
}

/// The windows of the first `n` workspaces of `wss` other than the
/// active one, workspace by workspace.
pub open spec fn inactive_ids(wss: Seq<WorkspaceModel>, active: int, n: int) -> Seq<WindowId>
    decreases n,
{
    if n <= 0 {
        Seq::empty()
    } else {
        inactive_ids(wss, active, n - 1) + if n - 1 == active {
            Seq::empty()
        } else {
            wss[n - 1].ids()
        }
    }
}

/// The windows of the first `n` monitors that sit on workspaces the
/// monitors do not show, monitor by monitor.
pub open spec fn parked_ids(l: LayoutModel, n: int) -> Seq<WindowId>
    decreases n,
{
    if n <= 0 {
        Seq::empty()
    } else {
        let m = l.monitors[n - 1];
        parked_ids(l, n - 1) + inactive_ids(m.workspaces, m.active_workspace_idx, m.workspaces.len() as int)
    }
}

/// The windows the shell keeps off screen: those on workspaces that their
/// monitor does not show (see [`parked_ids`]).
pub fn parked_windows(layout: &Layout) -> (r: Vec<WindowId>)
    ensures
        r@ == parked_ids(layout@, layout@.monitors.len() as int),
{
    let mut out: Vec<WindowId> = Vec::new();
    let mut i: usize = 0;
    while i < layout.monitors.len()
        invariant
            i <= layout@.monitors.len(),
            out@ == parked_ids(layout@, i as int),
        decreases layout@.monitors.len() - i,
    {
        let m = &layout.monitors[i];
        let ghost mm = layout@.monitors[i as int];
        let ghost start = out@;
        let mut w: usize = 0;
        while w < m.workspaces.len()
            invariant
                m@ == mm,
                w <= mm.workspaces.len(),
                out@ == start + inactive_ids(mm.workspaces, mm.active_workspace_idx, w as int),
            decreases mm.workspaces.len() - w,
        {
            let ghost before = out@;
            if w != m.active_workspace_idx {
                let ids = m.workspaces[w].window_ids();
                let mut j: usize = 0;
                while j < ids.len()
                    invariant
                        j <= ids@.len(),
                        out@ == before + ids@.take(j as int),
                    decreases ids@.len() - j,
                {
                    out.push(ids[j]);
                    j += 1;
                    assert(out@ =~= before + ids@.take(j as int));
                }
                assert(ids@.take(j as int) =~= ids@);
                assert(out@ =~= start + inactive_ids(mm.workspaces, mm.active_workspace_idx, w + 1));
            } else {
                assert(out@ =~= start + inactive_ids(mm.workspaces, mm.active_workspace_idx, w + 1));
            }
            w += 1;
        }
        i += 1;
    }
    out
}

} // verus!

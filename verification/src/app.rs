//! The window manager's decisions about bound actions: which window an
//! action targets, what it does to that window's workspace, and what the
//! shell has to do afterwards (re-tile, or ask a window to close).
use vstd::prelude::*;

use crate::config::Action;
use crate::layout::laws::{
    faithful, indices_fit, law_consume_or_expel_keeps_windows, law_move_column_keeps_windows,
    law_move_column_keeps_map, law_move_tile_across_keeps_windows, law_move_tile_keeps_windows,
    law_move_window_keeps_map, law_move_window_to_workspace_keeps_windows,
    law_switch_workspace_keeps_map, layout_count, lemma_add_tracked, lemma_cols_update,
    lemma_focus_tracked, lemma_layout_count_parts, lemma_layout_update, lemma_remove_tracked,
    lemma_tiles_update, lemma_workspaces_update, map_faithful, window_count, workspaces_count,
};
use crate::layout::monitor::{Layout, LayoutModel, MonitorLayout, MonitorModel};
use crate::layout::size::parse_size_change;
use crate::layout::workspace::{min, sat_sub};
use crate::layout::WorkspaceModel;
use crate::layout::{ColumnWidth, DirH, DirV, Edge, SizeChange, WindowId, Workspace};
use crate::text::chars_of;

verus! {

/// Fatal, top-level error.
#[derive(Debug)]
pub struct AppError(String);

impl AppError {
    /// The error's message.
    pub closed spec fn text(self) -> Seq<char> {
        self.0@
    }

    /// The error's message (what displaying the error prints).
    pub fn message(&self) -> (r: &str)
        ensures
            r@ == self.text(),
    {
        self.0.as_str()
    }
}

impl From<String> for AppError {
    fn from(s: String) -> (r: AppError) {
        AppError(s)
    }
}

impl vstd::std_specs::convert::FromSpecImpl<String> for AppError {
    open spec fn obeys_from_spec() -> bool {
        true
    }

    closed spec fn from_spec(v: String) -> AppError {
        AppError(v)
    }
}

/// What the shell has to do after an action was applied.
#[derive(Clone, Debug, PartialEq, Eq)]
pub enum Effect {
    /// Nothing changed.
    Nothing,
    /// The layout changed around this window: scroll its view to it,
    /// re-tile, and raise the focused window.
    Relayout(WindowId),
    /// Ask this window to close.
    Close(WindowId),
    /// As `Relayout` around the first window, and the windowed-fullscreen
    /// window of its workspace changed from the second to the third: the
    /// old one gets its decorations back, the new one loses them.
    Fullscreen(WindowId, Option<WindowId>, Option<WindowId>),
    /// As `Relayout` around the window, and its monitor now shows
    /// workspace N (counted from one): show the workspace indicator.
    WorkspaceShown(WindowId, u8),
    /// Exit, giving every window back.
    Quit,
    /// Run this command line.
    Spawn(String),
    /// Cover the screen for a moment while management pauses.
    ScreenTransition,
}

/// The window an action targets: the focused window, else the window
/// focused on the monitor under the cursor.
pub open spec fn action_target(
    l: LayoutModel,
    focused: Option<WindowId>,
    cursor_device: Option<Seq<char>>,
) -> Option<WindowId> {
    match focused {
        Some(id) => Some(id),
        None => match cursor_device {
            Some(d) => l.focused_id(d),
            None => None,
        },
    }
}

/// The monitor an action on window `id` works on: the first monitor named
/// like the first monitor that records `id`.
pub open spec fn action_monitor(l: LayoutModel, id: WindowId) -> Option<int> {
    match l.owner_index(id) {
        Some(i) => l.monitor_index(l.monitors[i].device),
        None => None,
    }
}

/// The index of the Nth workspace or column, counted from one (0 is
/// taken as 1).
pub open spec fn nth_index(n: u8) -> int {
    if n == 0 {
        0
    } else {
        n - 1
    }
}

/// The index of the Nth workspace or column (see [`nth_index`]).
fn nth_index_of(n: u8) -> (r: usize)
    ensures
        r == nth_index(n),
{
    if n == 0 {
        0
    } else {
        (n - 1) as usize
    }
}

/// The number N of the Nth workspace (0 is taken as 1).
pub open spec fn nth_number(n: u8) -> u8 {
    if n == 0 {
        1
    } else {
        n
    }
}

/// What a bound action does to a workspace, and whether it changed it.
/// A bare `set-column-width` (no width given) cycles the preset widths.
/// Actions that are not about the focused workspace change nothing here.
pub open spec fn action_on(ws: WorkspaceModel, a: Action, presets: Seq<ColumnWidth>) -> (
    WorkspaceModel,
    bool,
) {
    match a {
        Action::FocusColumnLeft => ws.focus_column(DirH::Left),
        Action::FocusColumnRight => ws.focus_column(DirH::Right),
        Action::FocusWindowDown => ws.focus_tile(DirV::Down),
        Action::FocusWindowUp => ws.focus_tile(DirV::Up),
        Action::MoveColumnLeft => ws.move_column(DirH::Left),
        Action::MoveColumnRight => ws.move_column(DirH::Right),
        Action::MoveWindowDown => ws.move_tile(DirV::Down),
        Action::MoveWindowUp => ws.move_tile(DirV::Up),
        Action::MoveWindowToColumnLeft => ws.move_tile_across(DirH::Left),
        Action::MoveWindowToColumnRight => ws.move_tile_across(DirH::Right),
        Action::ConsumeOrExpelWindowLeft => ws.consume_or_expel(DirH::Left),
        Action::ConsumeOrExpelWindowRight => ws.consume_or_expel(DirH::Right),
        Action::FocusColumnFirst => ws.focus_column_edge(Edge::First),
        Action::FocusColumnLast => ws.focus_column_edge(Edge::Last),
        Action::FocusColumnIndex(n) => ws.focus_column_index(nth_index(n)),
        Action::SetColumnWidth(s) => if s@.len() == 0 {
            ws.cycle_column_width(presets)
        } else {
            match parse_size_change(s@) {
                Some(c) => (ws.set_column_width(c), true),
                None => (ws, false),
            }
        },
        Action::SetWindowHeight(s) => match parse_size_change(s@) {
            Some(c) => ws.set_window_height(c),
            None => (ws, false),
        },
        Action::ToggleFullWidth => ws.toggle_full_width(),
        Action::MaximizeColumn => ws.toggle_maximized(),
        Action::ToggleWindowedFullscreen => ws.toggle_fullscreen(),
        Action::ToggleOverview => ws.toggle_overview(),
        _ => (ws, false),
    }
}

/// The inputs on which applying `a` to `ws` is defined: a width change
/// needs a column.
pub open spec fn action_defined(ws: WorkspaceModel, a: Action) -> bool {
    match a {
        Action::SetColumnWidth(s) => s@.len() > 0 && parse_size_change(s@) is Some
            ==> ws.columns.len() > 0,
        _ => true,
    }
}

/// The inputs on which dispatching `a` is defined: the workspace it
/// would act on admits it (see [`action_defined`]).
pub open spec fn dispatch_defined(
    l: LayoutModel,
    focused: Option<WindowId>,
    cursor_device: Option<Seq<char>>,
    a: Action,
) -> bool {
    match action_target(l, focused, cursor_device) {
        Some(id) => match action_monitor(l, id) {
            Some(k) => action_defined(l.monitors[k].active_workspace(), a),
            None => true,
        },
        None => true,
    }
}

/// Does `ws` admit `action` (see [`action_defined`])?
fn action_defined_on(ws: &Workspace, action: &Action) -> (r: bool)
    ensures
        r == action_defined(ws@, *action),
{
    match action {
        Action::SetColumnWidth(spec) => {
            if chars_of(spec.as_str()).len() == 0 {
                true
            } else {
                match SizeChange::parse(spec.as_str()) {
                    Some(_) => ws.columns.len() > 0,
                    None => true,
                }
            }
        },
        _ => true,
    }
}

/// Is dispatching `action` defined here (see [`dispatch_defined`])?  The
/// shell checks this before [`dispatch`].
pub fn dispatch_is_defined(
    layout: &Layout,
    focused: Option<WindowId>,
    cursor_device: Option<&str>,
    action: &Action,
) -> (r: bool)
    requires
        layout@.wf(),
    ensures
        r == dispatch_defined(
            layout@,
            focused,
            match cursor_device {
                Some(d) => Some(d@),
                None => None,
            },
            *action,
        ),
{
    let target = match focused {
        Some(id) => Some(id),
        None => match cursor_device {
            Some(d) => layout.focused_id(d),
            None => None,
        },
    };
    let id = match target {
        Some(id) => id,
        None => {
            return true;
        },
    };
    let k = match layout.owner_of(id) {
        Some(i) => i,
        None => {
            return true;
        },
    };
    let device = layout.monitors[k].device.clone();
    proof {
        assert(layout@.monitors[k as int].device == device@);
        crate::layout::monitor::lemma_monitor_exists_first(layout@, device@, k as int);
    }
    match layout.monitor(device.as_str()) {
        Some(m) => {
            proof {
                let j = layout@.monitor_index(device@).unwrap();
                assert(layout@.monitors[j].wf());
            }
            action_defined_on(m.active_workspace(), action)
        },
        None => true,
    }
}

/// What an action does to the monitor that holds window `id`, and what
/// the shell has to do: the workspace actions switch the monitor's
/// workspace or send the focused window or column there (and follow it);
/// the others apply to its active workspace; closing asks `id` to close.
pub open spec fn monitor_step(m: MonitorModel, id: WindowId, a: Action, presets: Seq<ColumnWidth>) -> (
    MonitorModel,
    Effect,
) {
    match a {
        Action::FocusWorkspace(n) => shown(m.switch_workspace(nth_index(n)), id, n),
        Action::WorkspaceSwitch(n) => shown(m.switch_workspace(nth_index(n)), id, n),
        Action::MoveWindowToWorkspace(n) => {
            let (m2, r) = m.move_focused_window_to_workspace(nth_index(n), true);
            shown((m2, r is Some), id, n)
        },
        Action::MoveColumnToWorkspace(n) => {
            let (m2, r) = m.move_focused_column_to_workspace(nth_index(n), true);
            shown((m2, r is Some), id, n)
        },
        _ => {
            let ws0 = m.active_workspace();
            let (ws, changed) = action_on(ws0, a, presets);
            (
                MonitorModel { workspaces: m.workspaces.update(m.active_workspace_idx, ws), ..m },
                if a is CloseWindow {
                    Effect::Close(id)
                } else if !changed {
                    Effect::Nothing
                } else if a is ToggleWindowedFullscreen {
                    Effect::Fullscreen(id, ws0.fullscreen_id, ws.fullscreen_id)
                } else {
                    Effect::Relayout(id)
                },
            )
        },
    }
}

/// A workspace step and its effect: the indicator for workspace `n` when
/// the monitor changed.
pub open spec fn shown(step: (MonitorModel, bool), id: WindowId, n: u8) -> (MonitorModel, Effect) {
    (
        step.0,
        if step.1 {
            Effect::WorkspaceShown(id, nth_number(n))
        } else {
            Effect::Nothing
        },
    )
}

/// The layout after the action `a` on window `id`, and what the shell has
/// to do: the action applies to the monitor that holds `id` (see
/// [`monitor_step`]).
pub open spec fn apply_action(l: LayoutModel, id: WindowId, a: Action, presets: Seq<ColumnWidth>) -> (
    LayoutModel,
    Effect,
) {
    match action_monitor(l, id) {
        Some(k) => {
            let (m, e) = monitor_step(l.monitors[k], id, a, presets);
            (LayoutModel { monitors: l.monitors.update(k, m) }, e)
        },
        None => (l, Effect::Nothing),
    }
}

/// The layout after dispatching `a`, and what the shell has to do:
/// quitting, spawning and the screen transition concern the shell alone;
/// every other action applies around the window it targets (see
/// [`action_target`], [`apply_action`]), and without one nothing happens.
pub open spec fn dispatched(
    l: LayoutModel,
    focused: Option<WindowId>,
    cursor_device: Option<Seq<char>>,
    a: Action,
    presets: Seq<ColumnWidth>,
) -> (LayoutModel, Effect) {
    match a {
        Action::Quit => (l, Effect::Quit),
        Action::Spawn(c) => (l, Effect::Spawn(c)),
        Action::DoScreenTransition => (l, Effect::ScreenTransition),
        _ => match action_target(l, focused, cursor_device) {
            Some(id) => apply_action(l, id, a, presets),
            None => (l, Effect::Nothing),
        },
    }
}

/// Apply `action` to `ws` through the workspace's own operations.
fn act_on_workspace(ws: &mut Workspace, action: &Action, presets: &[ColumnWidth]) -> (changed: bool)
    requires
        old(ws)@.wf(),
        action_defined(old(ws)@, *action),
    ensures
        (final(ws)@, changed) == action_on(old(ws)@, *action, presets@),
        final(ws)@.wf(),
{
    match action {
        Action::FocusColumnLeft => ws.focus_column(DirH::Left),
        Action::FocusColumnRight => ws.focus_column(DirH::Right),
        Action::FocusWindowDown => ws.focus_tile(DirV::Down),
        Action::FocusWindowUp => ws.focus_tile(DirV::Up),
        Action::MoveColumnLeft => ws.move_column(DirH::Left),
        Action::MoveColumnRight => ws.move_column(DirH::Right),
        Action::MoveWindowDown => ws.move_tile(DirV::Down),
        Action::MoveWindowUp => ws.move_tile(DirV::Up),
        Action::MoveWindowToColumnLeft => ws.move_tile_across(DirH::Left),
        Action::MoveWindowToColumnRight => ws.move_tile_across(DirH::Right),
        Action::ConsumeOrExpelWindowLeft => ws.consume_or_expel(DirH::Left),
        Action::ConsumeOrExpelWindowRight => ws.consume_or_expel(DirH::Right),
        Action::FocusColumnFirst => ws.focus_column_edge(Edge::First),
        Action::FocusColumnLast => ws.focus_column_edge(Edge::Last),
        Action::FocusColumnIndex(n) => ws.focus_column_index(nth_index_of(*n)),
        Action::SetColumnWidth(spec) => {
            if chars_of(spec.as_str()).len() == 0 {
                ws.cycle_column_width(presets)
            } else {
                match SizeChange::parse(spec.as_str()) {
                    Some(change) => ws.set_column_width(&change),
                    None => false,
                }
            }
        },
        Action::SetWindowHeight(spec) => match SizeChange::parse(spec.as_str()) {
            Some(change) => ws.set_window_height(&change),
            None => false,
        },
        Action::ToggleFullWidth => ws.toggle_full_width(),
        Action::MaximizeColumn => ws.toggle_maximized(),
        Action::ToggleWindowedFullscreen => ws.toggle_fullscreen(),
        Action::ToggleOverview => ws.toggle_overview(),
        _ => false,
    }
}

/// Apply `action` around window `id` to the monitor `m` that holds it
/// (see [`monitor_step`]).
fn act_on_monitor(m: &mut MonitorLayout, id: WindowId, action: &Action, presets: &[ColumnWidth]) -> (e:
    Effect)
    requires
        old(m)@.wf(),
        action_defined(old(m)@.active_workspace(), *action),
    ensures
        (final(m)@, e) == monitor_step(old(m)@, id, *action, presets@),
        final(m)@.wf(),
{
    match action {
        Action::FocusWorkspace(n) => {
            let changed = m.switch_workspace(nth_index_of(*n));
            if changed {
                Effect::WorkspaceShown(id, if *n == 0 { 1 } else { *n })
            } else {
                Effect::Nothing
            }
        },
        Action::WorkspaceSwitch(n) => {
            let changed = m.switch_workspace(nth_index_of(*n));
            if changed {
                Effect::WorkspaceShown(id, if *n == 0 { 1 } else { *n })
            } else {
                Effect::Nothing
            }
        },
        Action::MoveWindowToWorkspace(n) => {
            let moved = m.move_focused_window_to_workspace(nth_index_of(*n), true);
            if moved.is_some() {
                Effect::WorkspaceShown(id, if *n == 0 { 1 } else { *n })
            } else {
                Effect::Nothing
            }
        },
        Action::MoveColumnToWorkspace(n) => {
            let moved = m.move_focused_column_to_workspace(nth_index_of(*n), true);
            if moved.is_some() {
                Effect::WorkspaceShown(id, if *n == 0 { 1 } else { *n })
            } else {
                Effect::Nothing
            }
        },
        _ => {
            let ghost m0 = m@;
            let before = m.active_workspace().fullscreen_id;
            let a = m.active_workspace_idx;
            let changed = act_on_workspace(&mut m.workspaces[a], action, presets);
            let after = m.workspaces[a].fullscreen_id;
            proof {
                assert(m@.workspaces =~= m0.workspaces.update(a as int, m@.workspaces[a as int]));
                assert forall|i: int| 0 <= i < m@.workspaces.len() implies #[trigger] m@.workspaces[i].wf() by {
                    if i != a {
                        assert(m0.workspaces[i].wf());
                    }
                }
            }
            if let Action::CloseWindow = action {
                Effect::Close(id)
            } else if !changed {
                Effect::Nothing
            } else if let Action::ToggleWindowedFullscreen = action {
                Effect::Fullscreen(id, before, after)
            } else {
                Effect::Relayout(id)
            }
        },
    }
}

/// Execute a bound action: quitting, spawning and the screen transition go
/// to the shell; every other action applies around the focused window (or,
/// with no focused window, the window focused on the monitor under the
/// cursor).  The result tells the shell what to do.
pub fn dispatch(
    layout: &mut Layout,
    focused: Option<WindowId>,
    cursor_device: Option<&str>,
    action: Action,
    presets: &[ColumnWidth],
) -> (e: Effect)
    requires
        old(layout)@.wf(),
        dispatch_defined(
            old(layout)@,
            focused,
            match cursor_device {
                Some(d) => Some(d@),
                None => None,
            },
            action,
        ),
    ensures
        final(layout)@.wf(),
        (final(layout)@, e) == dispatched(
            old(layout)@,
            focused,
            match cursor_device {
                Some(d) => Some(d@),
                None => None,
            },
            action,
            presets@,
        ),
{
    let action = match action {
        Action::Quit => {
            return Effect::Quit;
        },
        Action::Spawn(c) => {
            return Effect::Spawn(c);
        },
        Action::DoScreenTransition => {
            return Effect::ScreenTransition;
        },
        other => other,
    };
    let target = match focused {
        Some(id) => Some(id),
        None => match cursor_device {
            Some(d) => layout.focused_id(d),
            None => None,
        },
    };
    let id = match target {
        Some(id) => id,
        None => {
            return Effect::Nothing;
        },
    };
    let owner = layout.owner_of(id);
    let k = match owner {
        Some(i) => i,
        None => {
            return Effect::Nothing;
        },
    };
    let device = layout.monitors[k].device.clone();
    let ghost l0 = layout@;
    let e = match layout.monitor_mut(device.as_str()) {
        Some(m) => {
            proof {
                assert(l0.monitors[k as int].device == device@);
                let j = l0.monitor_index(device@).unwrap();
                assert(l0.monitors[j].wf());
            }
            act_on_monitor(m, id, &action, presets)
        },
        None => {
            proof {
                crate::layout::monitor::lemma_monitor_exists_first(l0, device@, k as int);
            }
            Effect::Nothing
        },
    };
    proof {
        let j = l0.monitor_index(device@).unwrap();
        assert(layout@.monitors =~= l0.monitors.update(j, layout@.monitors[j]));
        assert forall|i: int| 0 <= i < layout@.monitors.len() implies #[trigger] layout@.monitors[i].wf() by {
            if i != j {
                assert(l0.monitors[i].wf());
            }
        }
    }
    e
}

/// A change the OS reports about a top-level window.
#[derive(Clone, Copy, Debug, PartialEq, Eq, Structural)]
pub enum WindowEvent {
    /// Shown, uncloaked, or restored from minimized.
    Shown(WindowId),
    /// Hidden, cloaked, or minimized.
    Hidden(WindowId),
    Destroyed(WindowId),
    /// The user started dragging or resizing the window.
    MoveSizeStart(WindowId),
    MoveSizeEnd(WindowId),
    /// The window became the foreground window.
    Foreground(WindowId),
}

/// The window manager's state that window events change: the layout, the
/// window the OS has in the foreground, and the window the user is
/// dragging or resizing (tiling pauses meanwhile).
pub struct Session {
    pub layout: Layout,
    pub focused: Option<WindowId>,
    pub interacting: Option<WindowId>,
}

/// The mathematical value of a [`Session`].
pub struct SessionModel {
    pub layout: LayoutModel,
    pub focused: Option<WindowId>,
    pub interacting: Option<WindowId>,
}

impl View for Session {
    type V = SessionModel;

    open spec fn view(&self) -> SessionModel {
        SessionModel { layout: self.layout@, focused: self.focused, interacting: self.interacting }
    }
}

/// What the shell has to do after a window event.
#[derive(Clone, Copy, Debug, PartialEq, Eq, Structural)]
pub struct Reaction {
    /// Start tracking the window (it was placed in the layout).
    pub track: bool,
    /// Stop tracking the window (it left the layout) and drop its
    /// animation.
    pub untrack: bool,
    /// Scroll the view of this window's workspace to it.
    pub focus_view: Option<WindowId>,
    /// Re-tile every monitor's active workspace.
    pub reflow: bool,
}

/// Nothing to do.
pub open spec fn no_reaction() -> Reaction {
    Reaction { track: false, untrack: false, focus_view: None, reflow: false }
}

/// The session after `event` and the shell's part: `known` says whether
/// the window is known already, `manageable` whether it is a window to
/// tile, and `device` the monitor it lives on.  Re-tiling is skipped while
/// the user drags or resizes a window.
pub open spec fn react(
    s: SessionModel,
    event: WindowEvent,
    known: bool,
    manageable: bool,
    device: Seq<char>,
) -> (SessionModel, Reaction) {
    let idle = s.interacting is None;
    match event {
        WindowEvent::Shown(id) => if !known && manageable {
            (
                SessionModel { layout: s.layout.add_window(device, id), ..s },
                Reaction { track: true, reflow: idle, ..no_reaction() },
            )
        } else {
            (s, no_reaction())
        },
        WindowEvent::Hidden(id) | WindowEvent::Destroyed(id) => if known {
            (
                SessionModel { layout: s.layout.remove_window(id).0, ..s },
                Reaction { untrack: true, reflow: idle, ..no_reaction() },
            )
        } else {
            (s, no_reaction())
        },
        WindowEvent::MoveSizeStart(id) => if known {
            (SessionModel { interacting: Some(id), ..s }, no_reaction())
        } else {
            (s, no_reaction())
        },
        WindowEvent::MoveSizeEnd(id) => if s.interacting == Some(id) {
            (
                SessionModel { interacting: None, ..s },
                Reaction { reflow: true, ..no_reaction() },
            )
        } else {
            (s, no_reaction())
        },
        WindowEvent::Foreground(id) => if s.focused != Some(id) {
            let (l, found) = s.layout.focus_window(id);
            (
                SessionModel { layout: l, focused: Some(id), ..s },
                if found {
                    Reaction { focus_view: Some(id), reflow: idle, ..no_reaction() }
                } else {
                    no_reaction()
                },
            )
        } else {
            (s, no_reaction())
        },
    }
}

/// React to a window event: keep the layout in step with the windows the
/// OS shows, hides and focuses.
pub fn handle_event(
    session: &mut Session,
    event: WindowEvent,
    known: bool,
    manageable: bool,
    device: &str,
) -> (r: Reaction)
    requires
        old(session).layout@.wf(),
    ensures
        (final(session)@, r) == react(old(session)@, event, known, manageable, device@),
        final(session).layout@.wf(),
{
    let idle = session.interacting.is_none();
    let none = Reaction { track: false, untrack: false, focus_view: None, reflow: false };
    match event {
        WindowEvent::Shown(id) => {
            if !known && manageable {
                session.layout.add_window(device, id);
                Reaction { track: true, reflow: idle, ..none }
            } else {
                none
            }
        },
        WindowEvent::Hidden(id) | WindowEvent::Destroyed(id) => {
            if known {
                session.layout.remove_window(id);
                Reaction { untrack: true, reflow: idle, ..none }
            } else {
                none
            }
        },
        WindowEvent::MoveSizeStart(id) => {
            if known {
                session.interacting = Some(id);
            }
            none
        },
        WindowEvent::MoveSizeEnd(id) => {
            if session.interacting == Some(id) {
                session.interacting = None;
                Reaction { reflow: true, ..none }
            } else {
                none
            }
        },
        WindowEvent::Foreground(id) => {
            if session.focused != Some(id) {
                session.focused = Some(id);
                if session.layout.focus_window(id) {
                    Reaction { focus_view: Some(id), reflow: idle, ..none }
                } else {
                    none
                }
            } else {
                none
            }
        },
    }
}

/// Actions that the layout does not know (floating windows have no place
/// in it, and unknown names do nothing) leave the layout as it is and ask
/// the shell for nothing.
pub proof fn law_other_actions_keep_layout(
    l: LayoutModel,
    focused: Option<WindowId>,
    cursor_device: Option<Seq<char>>,
    a: Action,
    presets: Seq<ColumnWidth>,
)
    requires
        l.wf(),
        a is ToggleWindowFloating || a is Unknown,
    ensures
        dispatched(l, focused, cursor_device, a, presets) == (l, Effect::Nothing),
{
    if let Some(id) = action_target(l, focused, cursor_device) {
        if let Some(k) = action_monitor(l, id) {
            let i = l.owner_index(id).unwrap();
            let d = l.monitors[i].device;
            assert(l.is_first_monitor(d, k));
            let m = l.monitors[k];
            assert(m.wf());
            assert(m.workspaces.update(m.active_workspace_idx, m.active_workspace()) =~= m.workspaces);
            assert(l.monitors.update(k, m) =~= l.monitors);
        }
    }
}

/// While the user drags or resizes a window, no event re-tiles except the
/// end of that interaction.
pub proof fn law_interaction_pauses_tiling(
    s: SessionModel,
    event: WindowEvent,
    known: bool,
    manageable: bool,
    device: Seq<char>,
)
    requires
        s.interacting is Some,
        !(event is MoveSizeEnd),
    ensures
        !react(s, event, known, manageable, device).1.reflow,
{
}

/// Ending the interaction that is under way resumes tiling at once.
pub proof fn law_interaction_end_retiles(
    s: SessionModel,
    id: WindowId,
    known: bool,
    manageable: bool,
    device: Seq<char>,
)
    requires
        s.interacting == Some(id),
    ensures
        react(s, WindowEvent::MoveSizeEnd(id), known, manageable, device).0.interacting is None,
        react(s, WindowEvent::MoveSizeEnd(id), known, manageable, device).1.reflow,
{
}

/// The window an event is about.
pub open spec fn event_window(e: WindowEvent) -> WindowId {
    match e {
        WindowEvent::Shown(id) => id,
        WindowEvent::Hidden(id) => id,
        WindowEvent::Destroyed(id) => id,
        WindowEvent::MoveSizeStart(id) => id,
        WindowEvent::MoveSizeEnd(id) => id,
        WindowEvent::Foreground(id) => id,
    }
}

/// The windows tracked once the shell carried out reaction `r` to an
/// event about window `id`.
pub open spec fn kept_after(t: Set<WindowId>, id: WindowId, r: Reaction) -> Set<WindowId> {
    if r.track {
        t.insert(id)
    } else if r.untrack {
        t.remove(id)
    } else {
        t
    }
}

/// Window events keep the tracked windows and the layout's windows the
/// same: when the layout holds each tracked window exactly once and no
/// other (its monitors' maps naming where), then after any event, with
/// `known` telling whether the window is tracked, the layout holds each
/// window tracked afterwards exactly once and no other. A shown window
/// that is new and manageable joins both; a hidden or destroyed tracked
/// window leaves both; the other events change neither.
pub proof fn law_events_keep_tracking(
    s: SessionModel,
    watched: Set<WindowId>,
    event: WindowEvent,
    manageable: bool,
    device: Seq<char>,
)
    requires
        s.layout.wf(),
        indices_fit(s.layout),
        faithful(s.layout),
        forall|x: WindowId| #[trigger] layout_count(s.layout, x) == (if watched.contains(x) {
            1int
        } else {
            0int
        }),
    ensures
        ({
            let id = event_window(event);
            let (s2, r) = react(s, event, watched.contains(id), manageable, device);
            let t2 = kept_after(watched, id, r);
            &&& faithful(s2.layout)
            &&& forall|x: WindowId| #[trigger] layout_count(s2.layout, x) == (if t2.contains(x) {
                1int
            } else {
                0int
            })
        }),
{
    let id = event_window(event);
    let known = watched.contains(id);
    let l = s.layout;
    match event {
        WindowEvent::Shown(_) => {
            if !known && manageable {
                assert(layout_count(l, id) == 0);
                lemma_add_tracked(l, device, id);
            }
        },
        WindowEvent::Hidden(_) => {
            if known {
                assert(layout_count(l, id) == 1);
                lemma_remove_tracked(l, id);
            }
        },
        WindowEvent::Destroyed(_) => {
            if known {
                assert(layout_count(l, id) == 1);
                lemma_remove_tracked(l, id);
            }
        },
        WindowEvent::Foreground(_) => {
            if s.focused != Some(id) {
                lemma_focus_tracked(l, id);
            }
        },
        _ => {},
    }
}


/// A bound action moves windows about within the workspace at most: each
/// window is held by as many tiles as before.
#[verifier::rlimit(40)]
proof fn lemma_action_keeps_windows(ws: WorkspaceModel, a: Action, presets: Seq<ColumnWidth>, x: WindowId)
    requires
        ws.wf(),
        action_defined(ws, a),
    ensures
        window_count(action_on(ws, a, presets).0.columns, x) == window_count(ws.columns, x),
{
    let r = action_on(ws, a, presets).0;
    let ac = ws.active_column_idx;
    match a {
        Action::MoveColumnLeft => law_move_column_keeps_windows(ws, DirH::Left, x),
        Action::MoveColumnRight => law_move_column_keeps_windows(ws, DirH::Right, x),
        Action::MoveWindowDown => law_move_tile_keeps_windows(ws, DirV::Down, x),
        Action::MoveWindowUp => law_move_tile_keeps_windows(ws, DirV::Up, x),
        Action::MoveWindowToColumnLeft => law_move_tile_across_keeps_windows(ws, DirH::Left, x),
        Action::MoveWindowToColumnRight => law_move_tile_across_keeps_windows(ws, DirH::Right, x),
        Action::ConsumeOrExpelWindowLeft => law_consume_or_expel_keeps_windows(ws, DirH::Left, x),
        Action::ConsumeOrExpelWindowRight => law_consume_or_expel_keeps_windows(ws, DirH::Right, x),
        Action::SetWindowHeight(t) => {
            if let Some(c) = parse_size_change(t@) {
                if ws.set_window_height(c).1 {
                    let col = ws.columns[ac];
                    let ti2 = min(col.active_tile_idx, sat_sub(col.tiles.len() as int, 1));
                    let t2 = r.columns[ac].tiles[ti2];
                    lemma_tiles_update(col.tiles, ti2, t2, x);
                    lemma_cols_update(ws.columns, ac, r.columns[ac], x);
                }
            }
        },
        Action::FocusWindowDown => lemma_column_edit(ws, r, x),
        Action::FocusWindowUp => lemma_column_edit(ws, r, x),
        Action::SetColumnWidth(_) => lemma_column_edit(ws, r, x),
        Action::ToggleFullWidth => lemma_column_edit(ws, r, x),
        Action::MaximizeColumn => lemma_column_edit(ws, r, x),
        _ => {
            assert(r.columns == ws.columns);
        },
    }
}

/// Changing at most the focused column's settings, not its tiles, keeps
/// every window.
proof fn lemma_column_edit(ws: WorkspaceModel, r: WorkspaceModel, x: WindowId)
    requires
        r.columns == ws.columns || (0 <= ws.active_column_idx < ws.columns.len() && r.columns
            == ws.columns.update(ws.active_column_idx, r.columns[ws.active_column_idx])
            && r.columns[ws.active_column_idx].tiles == ws.columns[ws.active_column_idx].tiles),
    ensures
        window_count(r.columns, x) == window_count(ws.columns, x),
{
    if r.columns != ws.columns {
        lemma_cols_update(ws.columns, ws.active_column_idx, r.columns[ws.active_column_idx], x);
    }
}

/// An action on a monitor neither adds nor removes windows, and keeps the
/// monitor's map faithful when it holds each window at most once.
proof fn lemma_step_keeps_map(
    m: MonitorModel,
    id: WindowId,
    a: Action,
    presets: Seq<ColumnWidth>,
    x: WindowId,
)
    requires
        m.wf(),
        m.active_workspace_idx <= usize::MAX,
        action_defined(m.active_workspace(), a),
        forall|y: WindowId| #[trigger] map_faithful(m, y),
        forall|y: WindowId| #[trigger] workspaces_count(m.workspaces, y) <= 1,
    ensures
        workspaces_count(monitor_step(m, id, a, presets).0.workspaces, x) == workspaces_count(
            m.workspaces,
            x,
        ),
        map_faithful(monitor_step(m, id, a, presets).0, x),
        monitor_step(m, id, a, presets).0.active_workspace_idx <= usize::MAX,
{
    assert(map_faithful(m, x));
    assert(m.wf());
    match a {
        Action::FocusWorkspace(n) => law_switch_workspace_keeps_map(m, nth_index(n), x),
        Action::WorkspaceSwitch(n) => law_switch_workspace_keeps_map(m, nth_index(n), x),
        Action::MoveWindowToWorkspace(n) => {
            law_move_window_to_workspace_keeps_windows(m, nth_index(n), true, x);
            law_move_window_keeps_map(m, nth_index(n), true, x);
        },
        Action::MoveColumnToWorkspace(n) => law_move_column_keeps_map(m, nth_index(n), true, x),
        _ => {
            let k = m.active_workspace_idx;
            let ws0 = m.active_workspace();
            let ws = action_on(ws0, a, presets).0;
            lemma_action_keeps_windows(ws0, a, presets, x);
            lemma_workspaces_update(m.workspaces, k, ws, x);
            let m2 = monitor_step(m, id, a, presets).0;
            assert(m2.workspaces == m.workspaces.update(k, ws));
            if m.window_map.contains_key(x) {
                let j = m.window_map[x] as int;
                assert(window_count(m2.workspaces[j].columns, x) == window_count(m.workspaces[j].columns, x));
            }
        },
    }
}

/// Dispatching an action neither adds nor removes windows and keeps every
/// monitor's map faithful: when the layout holds each tracked window
/// exactly once and no other (its monitors' maps naming where), it still
/// does after any action it admits. Together with the window events (see
/// [`law_events_keep_tracking`]), the tracked windows and the layout's
/// windows stay the same through every step of a session.
pub proof fn law_dispatch_keeps_tracking(
    l: LayoutModel,
    focused: Option<WindowId>,
    cursor_device: Option<Seq<char>>,
    a: Action,
    presets: Seq<ColumnWidth>,
    watched: Set<WindowId>,
)
    requires
        l.wf(),
        indices_fit(l),
        faithful(l),
        forall|x: WindowId| #[trigger] layout_count(l, x) == (if watched.contains(x) {
            1int
        } else {
            0int
        }),
        dispatch_defined(l, focused, cursor_device, a),
    ensures
        ({
            let l2 = dispatched(l, focused, cursor_device, a, presets).0;
            &&& indices_fit(l2)
            &&& faithful(l2)
            &&& forall|x: WindowId| #[trigger] layout_count(l2, x) == (if watched.contains(x) {
                1int
            } else {
                0int
            })
        }),
{
    let l2 = dispatched(l, focused, cursor_device, a, presets).0;
    if l2 != l {
        let id = action_target(l, focused, cursor_device).unwrap();
        let k = action_monitor(l, id).unwrap();
        let m = l.monitors[k];
        assert(m.wf());
        assert(m.active_workspace_idx <= usize::MAX);
        assert forall|y: WindowId| #[trigger] map_faithful(m, y) by {
            assert(map_faithful(l.monitors[k], y));
        }
        assert forall|y: WindowId| #[trigger] workspaces_count(m.workspaces, y) <= 1 by {
            lemma_layout_count_parts(l, y);
            assert(layout_count(l, y) <= 1);
        }
        let m2 = monitor_step(m, id, a, presets).0;
        assert(l2.monitors == l.monitors.update(k, m2));
        assert forall|x: WindowId| #[trigger] layout_count(l2, x) == layout_count(l, x) by {
            lemma_step_keeps_map(m, id, a, presets, x);
            lemma_layout_update(l, k, m2, x);
        }
        assert forall|i: int, x: WindowId| 0 <= i < l2.monitors.len() implies #[trigger] map_faithful(
            l2.monitors[i],
            x,
        ) by {
            lemma_step_keeps_map(m, id, a, presets, x);
            if i != k {
                assert(map_faithful(l.monitors[i], x));
            }
        }
        assert forall|i: int| 0 <= i < l2.monitors.len() implies #[trigger] l2.monitors[i].active_workspace_idx
            <= usize::MAX by {
            lemma_step_keeps_map(m, id, a, presets, id);
            if i != k {
                assert(l.monitors[i].active_workspace_idx <= usize::MAX);
            }
        }
    }
}


/// A layout with no monitors holds no window, and its (absent) maps are
/// faithful: a session starts with the tracked windows and the layout's
/// windows the same, both empty.
pub proof fn law_empty_layout_tracks_nothing(l: LayoutModel, x: WindowId)
    requires
        l.monitors.len() == 0,
    ensures
        l.wf(),
        indices_fit(l),
        faithful(l),
        layout_count(l, x) == 0,
{
    assert(l.monitors.map_values(|m: MonitorModel| workspaces_count(m.workspaces, x)) =~= Seq::<int>::empty());
}


/// Moving focus down a column (focus-window-down, `Mod+J` / `Mod+Down`)
/// focuses the next window below the focused one when there is one; it
/// never leaves the focused column nor moves focus up, and reports a
/// change exactly when there was a window below.
pub proof fn law_focus_window_down(ws: WorkspaceModel, presets: Seq<ColumnWidth>)
    requires
        ws.wf(),
        ws.columns.len() > 0,
    ensures
        ({
            let ac = ws.active_column_idx;
            let t = ws.columns[ac].active_tile_idx;
            let n = ws.columns[ac].tiles.len();
            let (down, moved) = action_on(ws, Action::FocusWindowDown, presets);
            &&& down.active_column_idx == ac
            &&& down.columns[ac].tiles == ws.columns[ac].tiles
            &&& moved == (t + 1 < n)
            &&& down.columns[ac].active_tile_idx == (if t + 1 < n { t + 1 } else { t })
        }),
{
    assert(ws.columns[ws.active_column_idx].wf());
}

/// Moving focus up a column (focus-window-up, `Mod+K` / `Mod+Up`) focuses
/// the window above the focused one when there is one; it never leaves the
/// focused column nor moves focus down, and reports a change exactly when
/// there was a window above.
pub proof fn law_focus_window_up(ws: WorkspaceModel, presets: Seq<ColumnWidth>)
    requires
        ws.wf(),
        ws.columns.len() > 0,
    ensures
        ({
            let ac = ws.active_column_idx;
            let t = ws.columns[ac].active_tile_idx;
            let (up, moved) = action_on(ws, Action::FocusWindowUp, presets);
            &&& up.active_column_idx == ac
            &&& up.columns[ac].tiles == ws.columns[ac].tiles
            &&& moved == (t > 0)
            &&& up.columns[ac].active_tile_idx == (if t > 0 { t - 1 } else { t })
        }),
{
    assert(ws.columns[ws.active_column_idx].wf());
}


/// Column focus moves one column left or right (focus-column-left /
/// -right), to the first or the last column, and never changes the columns
/// themselves; each reports a change exactly when the focus moved.
pub proof fn law_focus_column_moves(ws: WorkspaceModel, presets: Seq<ColumnWidth>)
    requires
        ws.wf(),
        ws.columns.len() > 0,
    ensures
        ({
            let ac = ws.active_column_idx;
            let n = ws.columns.len();
            let (left, moved_left) = action_on(ws, Action::FocusColumnLeft, presets);
            let (right, moved_right) = action_on(ws, Action::FocusColumnRight, presets);
            let (first, _) = action_on(ws, Action::FocusColumnFirst, presets);
            let (last, _) = action_on(ws, Action::FocusColumnLast, presets);
            &&& left.columns == ws.columns && right.columns == ws.columns
            &&& first.columns == ws.columns && last.columns == ws.columns
            &&& moved_left == (ac > 0)
            &&& left.active_column_idx == (if ac > 0 { ac - 1 } else { ac })
            &&& moved_right == (ac + 1 < n)
            &&& right.active_column_idx == (if ac + 1 < n { ac + 1 } else { ac })
            &&& first.active_column_idx == 0
            &&& last.active_column_idx == n - 1
        }),
{
}

/// Moving the focused column left (move-column-left) exchanges it with
/// the column on its left, which it then is; at the left edge nothing
/// changes. The other columns stay in place.
pub proof fn law_move_column_left(ws: WorkspaceModel, presets: Seq<ColumnWidth>)
    requires
        ws.wf(),
        ws.columns.len() > 0,
    ensures
        ({
            let ac = ws.active_column_idx;
            let (r, moved) = action_on(ws, Action::MoveColumnLeft, presets);
            &&& moved == (ac > 0)
            &&& moved ==> {
                &&& r.active_column_idx == ac - 1
                &&& r.columns.len() == ws.columns.len()
                &&& r.columns[ac - 1] == ws.columns[ac]
                &&& r.columns[ac] == ws.columns[ac - 1]
                &&& forall|i: int|
                    0 <= i < ws.columns.len() && i != ac && i != ac - 1 ==> r.columns[i] == ws.columns[i]
            }
            &&& !moved ==> r == ws
        }),
{
}

/// Moving the focused column right (move-column-right) exchanges it with
/// the column on its right, which it then is; at the right edge nothing
/// changes. The other columns stay in place.
pub proof fn law_move_column_right(ws: WorkspaceModel, presets: Seq<ColumnWidth>)
    requires
        ws.wf(),
        ws.columns.len() > 0,
    ensures
        ({
            let ac = ws.active_column_idx;
            let (r, moved) = action_on(ws, Action::MoveColumnRight, presets);
            &&& moved == (ac + 1 < ws.columns.len())
            &&& moved ==> {
                &&& r.active_column_idx == ac + 1
                &&& r.columns.len() == ws.columns.len()
                &&& r.columns[ac + 1] == ws.columns[ac]
                &&& r.columns[ac] == ws.columns[ac + 1]
                &&& forall|i: int|
                    0 <= i < ws.columns.len() && i != ac && i != ac + 1 ==> r.columns[i] == ws.columns[i]
            }
            &&& !moved ==> r == ws
        }),
{
}

/// Moving the focused window down its column (move-window-down) exchanges
/// it with the window below, and focus stays on it; at the bottom nothing
/// changes.
pub proof fn law_move_window_down(ws: WorkspaceModel, presets: Seq<ColumnWidth>)
    requires
        ws.wf(),
        ws.columns.len() > 0,
    ensures
        ({
            let ac = ws.active_column_idx;
            let tiles = ws.columns[ac].tiles;
            let t = ws.columns[ac].active_tile_idx;
            let (r, moved) = action_on(ws, Action::MoveWindowDown, presets);
            let after = r.columns[ac].tiles;
            &&& moved == (t + 1 < tiles.len())
            &&& moved ==> {
                &&& r.active_column_idx == ac
                &&& r.columns[ac].active_tile_idx == t + 1
                &&& after.len() == tiles.len()
                &&& after[t + 1] == tiles[t] && after[t] == tiles[t + 1]
                &&& forall|i: int| 0 <= i < tiles.len() && i != t && i != t + 1 ==> after[i] == tiles[i]
            }
            &&& !moved ==> r == ws
        }),
{
    assert(ws.columns[ws.active_column_idx].wf());
}

/// Moving the focused window up its column (move-window-up) exchanges it
/// with the window above, and focus stays on it; at the top nothing
/// changes.
pub proof fn law_move_window_up(ws: WorkspaceModel, presets: Seq<ColumnWidth>)
    requires
        ws.wf(),
        ws.columns.len() > 0,
    ensures
        ({
            let ac = ws.active_column_idx;
            let tiles = ws.columns[ac].tiles;
            let t = ws.columns[ac].active_tile_idx;
            let (r, moved) = action_on(ws, Action::MoveWindowUp, presets);
            let after = r.columns[ac].tiles;
            &&& moved == (t > 0 && tiles.len() >= 2)
            &&& moved ==> {
                &&& r.active_column_idx == ac
                &&& r.columns[ac].active_tile_idx == t - 1
                &&& after.len() == tiles.len()
                &&& after[t - 1] == tiles[t] && after[t] == tiles[t - 1]
                &&& forall|i: int| 0 <= i < tiles.len() && i != t && i != t - 1 ==> after[i] == tiles[i]
            }
            &&& !moved ==> r == ws
        }),
{
    assert(ws.columns[ws.active_column_idx].wf());
}

} // verus!

//! Decoding of the WinEvent notifications about window lifecycle changes
//! that the shell subscribes to.
use vstd::prelude::*;

use crate::app::WindowEvent;

verus! {

/// `EVENT_SYSTEM_FOREGROUND`: the foreground window changed.
pub const EVENT_SYSTEM_FOREGROUND: u32 = 0x0003;

/// `EVENT_SYSTEM_MOVESIZESTART`: a window is being moved or resized.
pub const EVENT_SYSTEM_MOVESIZESTART: u32 = 0x000A;

/// `EVENT_SYSTEM_MOVESIZEEND`: moving or resizing a window has finished.
pub const EVENT_SYSTEM_MOVESIZEEND: u32 = 0x000B;

/// `EVENT_SYSTEM_MINIMIZESTART`: a window is being minimized.
pub const EVENT_SYSTEM_MINIMIZESTART: u32 = 0x0016;

/// `EVENT_SYSTEM_MINIMIZEEND`: a window was restored from minimized.
pub const EVENT_SYSTEM_MINIMIZEEND: u32 = 0x0017;

/// `EVENT_OBJECT_DESTROY`: an object was destroyed.
pub const EVENT_OBJECT_DESTROY: u32 = 0x8001;

/// `EVENT_OBJECT_SHOW`: a hidden object is shown.
pub const EVENT_OBJECT_SHOW: u32 = 0x8002;

/// `EVENT_OBJECT_HIDE`: an object is hidden.
pub const EVENT_OBJECT_HIDE: u32 = 0x8003;

/// `EVENT_OBJECT_CLOAKED`: a window was cloaked.
pub const EVENT_OBJECT_CLOAKED: u32 = 0x8017;

/// `EVENT_OBJECT_UNCLOAKED`: a window was uncloaked.
pub const EVENT_OBJECT_UNCLOAKED: u32 = 0x8018;

/// `OBJID_WINDOW`: the object is the window itself.
pub const OBJID_WINDOW: i32 = 0;

/// A decoded lifecycle event for one window, by its handle's value.
#[derive(Clone, Copy, Debug, PartialEq, Eq, Structural)]
pub enum WinEvent {
    /// A window appeared or became visible.
    Shown(isize),
    /// A window disappeared or lost visibility.
    Hidden(isize),
    /// The window handle was destroyed.
    Destroyed(isize),
    /// A window was cloaked (suspended or moved off the desktop).
    Cloaked(isize),
    /// A previously cloaked window became visible again.
    Uncloaked(isize),
    /// A window was minimized.
    MinimizeStarted(isize),
    /// A window was restored from minimized.
    MinimizeEnded(isize),
    /// The foreground (focus) switched to this window.
    Foreground(isize),
    /// The user started dragging or resizing this window.
    MoveSizeStart(isize),
    /// The user finished dragging or resizing this window.
    MoveSizeEnd(isize),
}

/// The event that a notification with code `event` about window `hwnd`
/// stands for, if it is one of those subscribed to.
pub open spec fn decoded(event: u32, hwnd: isize) -> Option<WinEvent> {
    if event == EVENT_OBJECT_SHOW {
        Some(WinEvent::Shown(hwnd))
    } else if event == EVENT_OBJECT_HIDE {
        Some(WinEvent::Hidden(hwnd))
    } else if event == EVENT_OBJECT_DESTROY {
        Some(WinEvent::Destroyed(hwnd))
    } else if event == EVENT_OBJECT_CLOAKED {
        Some(WinEvent::Cloaked(hwnd))
    } else if event == EVENT_OBJECT_UNCLOAKED {
        Some(WinEvent::Uncloaked(hwnd))
    } else if event == EVENT_SYSTEM_MINIMIZESTART {
        Some(WinEvent::MinimizeStarted(hwnd))
    } else if event == EVENT_SYSTEM_MINIMIZEEND {
        Some(WinEvent::MinimizeEnded(hwnd))
    } else if event == EVENT_SYSTEM_FOREGROUND {
        Some(WinEvent::Foreground(hwnd))
    } else if event == EVENT_SYSTEM_MOVESIZESTART {
        Some(WinEvent::MoveSizeStart(hwnd))
    } else if event == EVENT_SYSTEM_MOVESIZEEND {
        Some(WinEvent::MoveSizeEnd(hwnd))
    } else {
        None
    }
}

/// Does a notification concern a whole window (not a scrollbar, menu or
/// other part of one), with a real handle?
pub fn is_whole_window(id_object: i32, hwnd: isize) -> (r: bool)
    ensures
        r == (id_object == OBJID_WINDOW && hwnd != 0),
{
    id_object == OBJID_WINDOW && hwnd != 0
}

/// Decode a notification with code `event` about window `hwnd`.
pub fn decode(event: u32, hwnd: isize) -> (r: Option<WinEvent>)
    ensures
        r == decoded(event, hwnd),
{
    if event == EVENT_OBJECT_SHOW {
        Some(WinEvent::Shown(hwnd))
    } else if event == EVENT_OBJECT_HIDE {
        Some(WinEvent::Hidden(hwnd))
    } else if event == EVENT_OBJECT_DESTROY {
        Some(WinEvent::Destroyed(hwnd))
    } else if event == EVENT_OBJECT_CLOAKED {
        Some(WinEvent::Cloaked(hwnd))
    } else if event == EVENT_OBJECT_UNCLOAKED {
        Some(WinEvent::Uncloaked(hwnd))
    } else if event == EVENT_SYSTEM_MINIMIZESTART {
        Some(WinEvent::MinimizeStarted(hwnd))
    } else if event == EVENT_SYSTEM_MINIMIZEEND {
        Some(WinEvent::MinimizeEnded(hwnd))
    } else if event == EVENT_SYSTEM_FOREGROUND {
        Some(WinEvent::Foreground(hwnd))
    } else if event == EVENT_SYSTEM_MOVESIZESTART {
        Some(WinEvent::MoveSizeStart(hwnd))
    } else if event == EVENT_SYSTEM_MOVESIZEEND {
        Some(WinEvent::MoveSizeEnd(hwnd))
    } else {
        None
    }
}

impl WinEvent {
    /// The window the event is about.
    pub open spec fn window(self) -> isize {
        match self {
            WinEvent::Shown(h) => h,
            WinEvent::Hidden(h) => h,
            WinEvent::Destroyed(h) => h,
            WinEvent::Cloaked(h) => h,
            WinEvent::Uncloaked(h) => h,
            WinEvent::MinimizeStarted(h) => h,
            WinEvent::MinimizeEnded(h) => h,
            WinEvent::Foreground(h) => h,
            WinEvent::MoveSizeStart(h) => h,
            WinEvent::MoveSizeEnd(h) => h,
        }
    }

    /// What the event means to the window manager: showing, uncloaking
    /// and restoring all show a window; hiding, cloaking and minimizing
    /// all hide it.
    pub open spec fn meaning(self) -> WindowEvent {
        match self {
            WinEvent::Shown(h) => WindowEvent::Shown(h),
            WinEvent::Uncloaked(h) => WindowEvent::Shown(h),
            WinEvent::MinimizeEnded(h) => WindowEvent::Shown(h),
            WinEvent::Hidden(h) => WindowEvent::Hidden(h),
            WinEvent::Cloaked(h) => WindowEvent::Hidden(h),
            WinEvent::MinimizeStarted(h) => WindowEvent::Hidden(h),
            WinEvent::Destroyed(h) => WindowEvent::Destroyed(h),
            WinEvent::Foreground(h) => WindowEvent::Foreground(h),
            WinEvent::MoveSizeStart(h) => WindowEvent::MoveSizeStart(h),
            WinEvent::MoveSizeEnd(h) => WindowEvent::MoveSizeEnd(h),
        }
    }

    /// The window the event is about (the value of its handle).
    pub fn hwnd(&self) -> (r: isize)
        ensures
            r == self.window(),
    {
        match *self {
            WinEvent::Shown(h) => h,
            WinEvent::Hidden(h) => h,
            WinEvent::Destroyed(h) => h,
            WinEvent::Cloaked(h) => h,
            WinEvent::Uncloaked(h) => h,
            WinEvent::MinimizeStarted(h) => h,
            WinEvent::MinimizeEnded(h) => h,
            WinEvent::Foreground(h) => h,
            WinEvent::MoveSizeStart(h) => h,
            WinEvent::MoveSizeEnd(h) => h,
        }
    }

    /// The window-manager event this notification stands for (see
    /// [`WinEvent::meaning`]).
    pub fn window_event(&self) -> (r: WindowEvent)
        ensures
            r == self.meaning(),
    {
        match *self {
            WinEvent::Shown(h) => WindowEvent::Shown(h),
            WinEvent::Uncloaked(h) => WindowEvent::Shown(h),
            WinEvent::MinimizeEnded(h) => WindowEvent::Shown(h),
            WinEvent::Hidden(h) => WindowEvent::Hidden(h),
            WinEvent::Cloaked(h) => WindowEvent::Hidden(h),
            WinEvent::MinimizeStarted(h) => WindowEvent::Hidden(h),
            WinEvent::Destroyed(h) => WindowEvent::Destroyed(h),
            WinEvent::Foreground(h) => WindowEvent::Foreground(h),
            WinEvent::MoveSizeStart(h) => WindowEvent::MoveSizeStart(h),
            WinEvent::MoveSizeEnd(h) => WindowEvent::MoveSizeEnd(h),
        }
    }
}

} // verus!

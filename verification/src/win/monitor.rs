//! Monitors as plain values: their handles, their full and working
//! rectangles, and lookups over the list the OS reports.
use vstd::prelude::*;

verus! {

/// A rectangle in virtual-screen pixels, by its four edges.
#[derive(Clone, Copy, Debug, PartialEq, Eq, Structural)]
pub struct ScreenRect {
    pub left: i32,
    pub top: i32,
    pub right: i32,
    pub bottom: i32,
}

/// One physical or virtual output that windows are laid out on.
#[derive(Clone, Debug)]
pub struct Monitor {
    /// The value of the monitor's handle; it can change after a mode
    /// change or a replug.
    pub handle: isize,
    /// The full pixel rectangle (taskbar included).
    pub full: ScreenRect,
    /// The working area (taskbar excluded).
    pub work: ScreenRect,
    /// The device adapter name, such as `\\.\DISPLAY1`.
    pub device: String,
    /// Is this the primary monitor?
    pub is_primary: bool,
}

impl Monitor {
    /// Width of the working area.
    pub fn width(&self) -> (r: i32)
        requires
            i32::MIN <= self.work.right - self.work.left <= i32::MAX,
        ensures
            r == self.work.right - self.work.left,
    {
        self.work.right - self.work.left
    }

    /// Height of the working area.
    pub fn height(&self) -> (r: i32)
        requires
            i32::MIN <= self.work.bottom - self.work.top <= i32::MAX,
        ensures
            r == self.work.bottom - self.work.top,
    {
        self.work.bottom - self.work.top
    }

    /// Top-left corner of the working area in virtual-screen coordinates.
    pub fn origin(&self) -> (r: (i32, i32))
        ensures
            r == (self.work.left, self.work.top),
    {
        (self.work.left, self.work.top)
    }

    /// Does the working area contain this point (virtual-screen coordinates)?
    pub fn contains(&self, x: i32, y: i32) -> (r: bool)
        ensures
            r == (self.work.left <= x < self.work.right && self.work.top <= y < self.work.bottom),
    {
        x >= self.work.left && x < self.work.right && y >= self.work.top && y < self.work.bottom
    }
}

/// `i` is the first position in `ms` whose monitor has handle `handle`.
pub open spec fn first_with_handle(ms: Seq<Monitor>, handle: isize, i: int) -> bool {
    &&& 0 <= i < ms.len()
    &&& ms[i].handle == handle
    &&& forall|j: int| 0 <= j < i ==> ms[j].handle != handle
}

/// `i` is the first position in `ms` whose monitor is the primary one.
pub open spec fn first_primary(ms: Seq<Monitor>, i: int) -> bool {
    &&& 0 <= i < ms.len()
    &&& ms[i].is_primary
    &&& forall|j: int| 0 <= j < i ==> !ms[j].is_primary
}

/// The first monitor of the list with handle `handle`, if any.
pub fn find_by_handle(monitors: &[Monitor], handle: isize) -> (r: Option<&Monitor>)
    ensures
        match r {
            Some(m) => exists|i: int| first_with_handle(monitors@, handle, i) && *m == monitors@[i],
            None => forall|j: int| 0 <= j < monitors@.len() ==> monitors@[j].handle != handle,
        },
{
    let mut i: usize = 0;
    while i < monitors.len()
        invariant
            i <= monitors@.len(),
            forall|j: int| 0 <= j < i ==> monitors@[j].handle != handle,
        decreases monitors@.len() - i,
    {
        if monitors[i].handle == handle {
            assert(first_with_handle(monitors@, handle, i as int));
            return Some(&monitors[i]);
        }
        i += 1;
    }
    None
}

/// The primary monitor, if it was enumerated (the first one flagged so).
pub fn primary(monitors: &[Monitor]) -> (r: Option<&Monitor>)
    ensures
        match r {
            Some(m) => exists|i: int| first_primary(monitors@, i) && *m == monitors@[i],
            None => forall|j: int| 0 <= j < monitors@.len() ==> !monitors@[j].is_primary,
        },
{
    let mut i: usize = 0;
    while i < monitors.len()
        invariant
            i <= monitors@.len(),
            forall|j: int| 0 <= j < i ==> !monitors@[j].is_primary,
        decreases monitors@.len() - i,
    {
        if monitors[i].is_primary {
            assert(first_primary(monitors@, i as int));
            return Some(&monitors[i]);
        }
        i += 1;
    }
    None
}

} // verus!

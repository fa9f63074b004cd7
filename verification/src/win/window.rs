//! Which top-level windows the layout manages, and the executable name
//! of a window's process, decided from facts the OS reports.
use vstd::prelude::*;

use crate::text::{chars_of, lowercase, string_of, to_lowercase, trim, trim_chars};

verus! {

/// `WS_EX_TOOLWINDOW`: palettes and other tool windows.
pub const WS_EX_TOOLWINDOW: u32 = 0x0000_0080;

/// `WS_CAPTION` (`WS_BORDER | WS_DLGFRAME`): a title-bar frame.
pub const WS_CAPTION: u32 = 0x00C0_0000;

/// Window classes of system chrome (lowercase) that are never managed.
pub open spec fn ignored_class(c: Seq<char>) -> bool {
    ||| c == "shell_traywnd"@
    ||| c == "shell_secondarytraywnd"@
    ||| c == "progman"@
    ||| c == "workerw"@
    ||| c == "windows.ui.composition.desktopwindowcontentbridge"@
    ||| c == "windows.ui.core.corewindow"@
    ||| c == "applicationframeinputsinkwindow"@
    ||| c == "msctls ime"@
    ||| c == "default ime"@
    ||| c == "tooltips_class32"@
}

/// Should a window with these properties be managed by the layout: a
/// visible, ownerless top-level window that is no tool window, not
/// cloaked, framed with a title bar, with a non-blank title and a class
/// that is not system chrome?
pub open spec fn manageable(
    visible: bool,
    owned: bool,
    ex_style: u32,
    cloaked: bool,
    style: u32,
    title: Seq<char>,
    class: Seq<char>,
) -> bool {
    &&& visible
    &&& !owned
    &&& ex_style & WS_EX_TOOLWINDOW == 0
    &&& !cloaked
    &&& style & WS_CAPTION != 0
    &&& trim(title).len() > 0
    &&& !ignored_class(lowercase(class))
}

/// Is `class` (already lowercase) system chrome?
fn is_ignored_class(class: &str) -> (r: bool)
    ensures
        r == ignored_class(class@),
{
    let c = chars_of(class);
    let s = c.as_slice();
    crate::text::chars_eq_str(s, "shell_traywnd") || crate::text::chars_eq_str(
        s,
        "shell_secondarytraywnd",
    ) || crate::text::chars_eq_str(s, "progman") || crate::text::chars_eq_str(s, "workerw")
        || crate::text::chars_eq_str(s, "windows.ui.composition.desktopwindowcontentbridge")
        || crate::text::chars_eq_str(s, "windows.ui.core.corewindow") || crate::text::chars_eq_str(
        s,
        "applicationframeinputsinkwindow",
    ) || crate::text::chars_eq_str(s, "msctls ime") || crate::text::chars_eq_str(s, "default ime")
        || crate::text::chars_eq_str(s, "tooltips_class32")
}

/// Should this window be managed by the layout engine (see
/// [`manageable`])?  The shell reads the facts from the OS.
pub fn is_manageable(
    visible: bool,
    owned: bool,
    ex_style: u32,
    cloaked: bool,
    style: u32,
    title: &str,
    class: &str,
) -> (r: bool)
    ensures
        r == manageable(visible, owned, ex_style, cloaked, style, title@, class@),
{
    if !visible || owned || ex_style & WS_EX_TOOLWINDOW != 0 || cloaked || style & WS_CAPTION == 0 {
        return false;
    }
    let t = chars_of(title);
    let trimmed = trim_chars(t.as_slice());
    if trimmed.len() == 0 {
        return false;
    }
    let lower = to_lowercase(class);
    !is_ignored_class(lower.as_str())
}

pub open spec fn is_path_separator(c: char) -> bool {
    c == '\\' || c == '/'
}

/// The last component of a path: what follows its last `\` or `/`.
pub open spec fn last_component(s: Seq<char>) -> Seq<char>
    decreases s.len(),
{
    if s.len() == 0 {
        s
    } else if is_path_separator(s.last()) {
        Seq::empty()
    } else {
        last_component(s.drop_last()).push(s.last())
    }
}

/// The executable name of a process image path: its last component,
/// lowercased.
pub fn exe_name(path: &str) -> (r: String)
    ensures
        r@ == lowercase(last_component(path@)),
{
    let cs = chars_of(path);
    let n = cs.len();
    let mut start: usize = n;
    while start > 0 && !(cs[start - 1] == '\\' || cs[start - 1] == '/')
        invariant
            n == cs@.len(),
            0 <= start <= n,
            forall|j: int| start <= j < n ==> !is_path_separator(#[trigger] cs@[j]),
        decreases start,
    {
        start -= 1;
    }
    proof {
        lemma_last_component(cs@, start as int);
    }
    let name = string_of(&cs.as_slice()[start..n]);
    to_lowercase(name.as_str())
}

/// After the last separator at `start - 1` (or from the beginning), the
/// rest of `s` is its last component.
proof fn lemma_last_component(s: Seq<char>, start: int)
    requires
        0 <= start <= s.len(),
        forall|j: int| start <= j < s.len() ==> !is_path_separator(#[trigger] s[j]),
        start > 0 ==> is_path_separator(s[start - 1]),
    ensures
        last_component(s) == s.subrange(start, s.len() as int),
    decreases s.len(),
{
    if s.len() > start {
        lemma_last_component(s.drop_last(), start);
        assert(s.subrange(start, s.len() as int) =~= s.drop_last().subrange(
            start,
            s.len() - 1,
        ).push(s.last()));
    } else if s.len() > 0 {
        assert(s.subrange(start, s.len() as int) =~= Seq::<char>::empty());
    }
}

} // verus!

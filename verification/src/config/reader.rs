//! Reading a configuration out of the KDL tree: what every node and
//! argument means, as spec functions, and the verified reader.
use vstd::prelude::*;

use super::document::{
    first_bool, first_bool_arg, first_float_arg, first_int, first_int_arg, first_number,
    first_number_text, first_number_text_arg, first_string, first_string_arg,
    lemma_skip_next, ConfigEntry, ConfigNode, ConfigValue,
};
use super::{
    binds_are, default_bind_table, workspace_bind_table, Action, AnimationsConfig, Bind, Config,
    FocusRingConfig, ModKey, WindowRule,
};
use crate::anim::{AnimParams, Easing};
use crate::layout::geometry::CenterFocused;
use crate::layout::ColumnWidth;
use crate::text::{chars_eq_str, chars_of, parse_u8, parse_u8_spec};

verus! {

/// Does the text `s` equal the literal `lit`?
pub(crate) fn text_is(s: &str, lit: &str) -> (r: bool)
    ensures
        r == (s@ == lit@),
{
    let cs = chars_of(s);
    chars_eq_str(cs.as_slice(), lit)
}

// --- colors --------------------------------------------------------------

/// `s` without its leading `#` characters.
pub open spec fn strip_hashes(s: Seq<char>) -> Seq<char>
    decreases s.len(),
{
    if s.len() > 0 && s[0] == '#' {
        strip_hashes(s.drop_first())
    } else {
        s
    }
}

pub open spec fn is_hex(c: char) -> bool {
    ('0' <= c <= '9') || ('a' <= c <= 'f') || ('A' <= c <= 'F')
}

pub open spec fn hex_value(c: char) -> int {
    if '0' <= c <= '9' {
        c as int - '0' as int
    } else if 'a' <= c <= 'f' {
        c as int - 'a' as int + 10
    } else {
        c as int - 'A' as int + 10
    }
}

pub open spec fn all_hex(s: Seq<char>) -> bool {
    forall|i: int| 0 <= i < s.len() ==> is_hex(#[trigger] s[i])
}

/// The value of the hexadecimal digits `s`.
pub open spec fn hex_digits_value(s: Seq<char>) -> int
    decreases s.len(),
{
    if s.len() == 0 {
        0
    } else {
        hex_digits_value(s.drop_last()) * 16 + hex_value(s.last())
    }
}

/// `"#7daea3"` (or `"7daea3"`) as 0x7DAEA3: after the leading `#`s,
/// exactly six hexadecimal digits, read as one number.
pub open spec fn hex_color(s: Seq<char>) -> Option<u32> {
    let t = strip_hashes(s);
    if t.len() == 6 && all_hex(t) {
        Some(hex_digits_value(t) as u32)
    } else {
        None
    }
}

/// `16^k`.
spec fn pow16(k: nat) -> nat
    decreases k,
{
    if k == 0 {
        1
    } else {
        16 * pow16((k - 1) as nat)
    }
}

proof fn lemma_pow16_bound(k: nat)
    requires
        k <= 6,
    ensures
        pow16(k) <= 16_777_216,
{
    reveal_with_fuel(pow16, 7);
    assert(pow16(0) == 1);
    assert(pow16(1) == 16);
    assert(pow16(2) == 256);
    assert(pow16(3) == 4096);
    assert(pow16(4) == 65536);
    assert(pow16(5) == 1048576);
    assert(pow16(6) == 16777216);
}

/// Parse `"#rrggbb"` into 0xRRGGBB.
pub fn parse_hex_color(s: &str) -> (r: Option<u32>)
    ensures
        r == hex_color(s@),
{
    let cs = chars_of(s);
    let n = cs.len();
    let mut start: usize = 0;
    assert(cs@.skip(0) =~= cs@);
    while start < n && cs[start] == '#'
        invariant
            n == cs@.len(),
            0 <= start <= n,
            strip_hashes(cs@.skip(start as int)) == strip_hashes(cs@),
        decreases n - start,
    {
        assert(cs@.skip(start as int).drop_first() =~= cs@.skip(start + 1));
        start += 1;
    }
    let ghost t = cs@.skip(start as int);
    assert(strip_hashes(t) == t);
    if n - start != 6 {
        return None;
    }
    let first = start;
    let ghost d = cs@.skip(first as int);
    assert(d =~= t);
    assert(hex_color(s@) == (if d.len() > 0 && all_hex(d) {
        Some(hex_digits_value(d) as u32)
    } else {
        None
    }));
    let mut v: u32 = 0;
    let mut i: usize = first;
    while i < n
        invariant
            hex_color(s@) == (if d.len() > 0 && all_hex(d) {
                Some(hex_digits_value(d) as u32)
            } else {
                None
            }),
            n == cs@.len(),
            first <= i <= n,
            n - first <= 6,
            d == cs@.skip(first as int),
            all_hex(cs@.subrange(first as int, i as int)),
            v == hex_digits_value(cs@.subrange(first as int, i as int)),
            v < pow16((i - first) as nat),
        decreases n - i,
    {
        let c = cs[i];
        let dv: u32 = if '0' <= c && c <= '9' {
            (c as u32) - ('0' as u32)
        } else if 'a' <= c && c <= 'f' {
            (c as u32) - ('a' as u32) + 10
        } else if 'A' <= c && c <= 'F' {
            (c as u32) - ('A' as u32) + 10
        } else {
            proof {
                assert(!is_hex(d[i - first]));
            }
            return None;
        };
        proof {
            let old_s = cs@.subrange(first as int, i as int);
            let new_s = cs@.subrange(first as int, i + 1);
            assert(new_s.drop_last() =~= old_s);
            assert(new_s.last() == c);
            lemma_pow16_bound((i + 1 - first) as nat);
            assert(pow16((i + 1 - first) as nat) == 16 * pow16((i - first) as nat));
            let p = pow16((i - first) as nat);
            assert(v * 16 + dv < p * 16) by (nonlinear_arith)
                requires
                    0 <= v < p,
                    0 <= dv < 16,
            ;
        }
        v = v * 16 + dv;
        i += 1;
    }
    assert(cs@.subrange(first as int, n as int) =~= d);
    if first == n {
        return None;
    }
    Some(v)
}

// --- easings -------------------------------------------------------------

/// A niri easing name.
pub open spec fn easing_named(name: Seq<char>) -> Option<Easing> {
    if name == "linear"@ {
        Some(Easing::Linear)
    } else if name == "ease-out-quad"@ {
        Some(Easing::EaseOutQuad)
    } else if name == "ease-out-cubic"@ {
        Some(Easing::EaseOutCubic)
    } else if name == "ease-out-expo"@ {
        Some(Easing::EaseOutExpo)
    } else if name == "ease-out-back"@ {
        Some(Easing::EaseOutBack(1_701_580))
    } else {
        None
    }
}

/// Parse a niri-style easing name.
pub fn easing_from_name(name: &str) -> (r: Option<Easing>)
    ensures
        r == easing_named(name@),
{
    if text_is(name, "linear") {
        Some(Easing::Linear)
    } else if text_is(name, "ease-out-quad") {
        Some(Easing::EaseOutQuad)
    } else if text_is(name, "ease-out-cubic") {
        Some(Easing::EaseOutCubic)
    } else if text_is(name, "ease-out-expo") {
        Some(Easing::EaseOutExpo)
    } else if text_is(name, "ease-out-back") {
        Some(Easing::EaseOutBack(1_701_580))
    } else {
        None
    }
}

// --- actions -------------------------------------------------------------

/// A workspace number argument: the string argument as a `u8`, else 1.
pub open spec fn workspace_arg(arg: Option<Seq<char>>, num: Option<i128>) -> u8 {
    match arg {
        Some(s) => match parse_u8_spec(s) {
            Some(v) => v,
            None => 1,
        },
        None => match num {
            Some(v) => if 0 <= v <= 255 {
                v as u8
            } else {
                1
            },
            None => 1,
        },
    }
}

/// The text of a string argument, empty when there is none.
pub open spec fn text_arg(arg: Option<Seq<char>>) -> Seq<char> {
    match arg {
        Some(s) => s,
        None => Seq::empty(),
    }
}

/// A size argument: the string argument, else the text of a bare number
/// (quotes are needed only for `+`, `-` and `%`), else empty.
pub open spec fn size_arg(arg: Option<Seq<char>>, numtext: Option<Seq<char>>) -> Seq<char> {
    match arg {
        Some(s) => s,
        None => match numtext {
            Some(t) => t,
            None => Seq::empty(),
        },
    }
}

/// `a` is what the action node named `name` means, with first string
/// argument `arg`, first integer argument `num` and first numeric
/// argument's text `numtext`.  Names that are not actions give
/// `Unknown(name)`.
pub open spec fn action_means(
    a: Action,
    name: Seq<char>,
    arg: Option<Seq<char>>,
    num: Option<i128>,
    numtext: Option<Seq<char>>,
) -> bool {
    if name == "quit"@ {
        a == Action::Quit
    } else if name == "close-window"@ {
        a == Action::CloseWindow
    } else if name == "spawn"@ || name == "spawn-sh"@ {
        a matches Action::Spawn(s) && s@ == text_arg(arg)
    } else if name == "focus-column-left"@ {
        a == Action::FocusColumnLeft
    } else if name == "focus-column-right"@ {
        a == Action::FocusColumnRight
    } else if name == "focus-column-first"@ {
        a == Action::FocusColumnFirst
    } else if name == "focus-column-last"@ {
        a == Action::FocusColumnLast
    } else if name == "focus-column-index"@ {
        a == Action::FocusColumnIndex(workspace_arg(arg, num))
    } else if name == "focus-window-down"@ {
        a == Action::FocusWindowDown
    } else if name == "focus-window-up"@ {
        a == Action::FocusWindowUp
    } else if name == "move-column-left"@ {
        a == Action::MoveColumnLeft
    } else if name == "move-column-right"@ {
        a == Action::MoveColumnRight
    } else if name == "move-window-down"@ {
        a == Action::MoveWindowDown
    } else if name == "move-window-up"@ {
        a == Action::MoveWindowUp
    } else if name == "move-window-to-column-left"@ {
        a == Action::MoveWindowToColumnLeft
    } else if name == "move-window-to-column-right"@ {
        a == Action::MoveWindowToColumnRight
    } else if name == "consume-or-expel-window-left"@ {
        a == Action::ConsumeOrExpelWindowLeft
    } else if name == "consume-or-expel-window-right"@ {
        a == Action::ConsumeOrExpelWindowRight
    } else if name == "set-column-width"@ {
        a matches Action::SetColumnWidth(s) && s@ == size_arg(arg, numtext)
    } else if name == "set-window-height"@ {
        a matches Action::SetWindowHeight(s) && s@ == size_arg(arg, numtext)
    } else if name == "toggle-full-width"@ {
        a == Action::ToggleFullWidth
    } else if name == "maximize-column"@ {
        a == Action::MaximizeColumn
    } else if name == "toggle-windowed-fullscreen"@ {
        a == Action::ToggleWindowedFullscreen
    } else if name == "toggle-window-floating"@ {
        a == Action::ToggleWindowFloating
    } else if name == "toggle-overview"@ {
        a == Action::ToggleOverview
    } else if name == "do-screen-transition"@ {
        a == Action::DoScreenTransition
    } else if name == "focus-workspace"@ || name == "workspace-switch"@ {
        a == Action::FocusWorkspace(workspace_arg(arg, num))
    } else if name == "move-window-to-workspace"@ {
        a == Action::MoveWindowToWorkspace(workspace_arg(arg, num))
    } else if name == "move-column-to-workspace"@ {
        a == Action::MoveColumnToWorkspace(workspace_arg(arg, num))
    } else {
        a matches Action::Unknown(s) && s@ == name
    }
}

/// `a` is what the action node `node` means.
pub open spec fn action_parsed(a: Action, node: ConfigNode) -> bool {
    action_means(
        a,
        node.name@,
        first_string(node.entries@),
        first_int(node.entries@),
        first_number_text(node.entries@),
    )
}

/// The text of a string argument, empty when there is none.
fn text_or_empty(arg: &Option<String>) -> (r: String)
    ensures
        match arg {
            Some(s) => r@ == s@,
            None => r@ == Seq::<char>::empty(),
        },
{
    match arg {
        Some(s) => s.clone(),
        None => String::new(),
    }
}

/// A size argument's text (see [`size_arg`]).
fn size_text(arg: &Option<String>, numtext: &Option<String>) -> (r: String)
    ensures
        r@ == size_arg(
            match arg {
                Some(s) => Some(s@),
                None => None,
            },
            match numtext {
                Some(t) => Some(t@),
                None => None,
            },
        ),
{
    match arg {
        Some(s) => s.clone(),
        None => match numtext {
            Some(t) => t.clone(),
            None => String::new(),
        },
    }
}

/// A number argument (a workspace or column, counted from one): the
/// string argument read as a `u8`, else the integer argument when it fits
/// in a `u8`, else 1.
fn workspace_number(arg: &Option<String>, num: Option<i128>) -> (r: u8)
    ensures
        r == workspace_arg(
            match arg {
                Some(s) => Some(s@),
                None => None,
            },
            num,
        ),
{
    match arg {
        Some(s) => {
            let cs = chars_of(s.as_str());
            match parse_u8(cs.as_slice()) {
                Some(v) => v,
                None => 1,
            }
        },
        None => match num {
            Some(v) => if 0 <= v && v <= 255 {
                v as u8
            } else {
                1
            },
            None => 1,
        },
    }
}

/// Map an action node like `focus-column-left;` or
/// `set-column-width "+10";` to an Action.  Unknown names are kept as
/// `Unknown` so that the combo still shadows the defaults.
fn parse_action(node: &ConfigNode) -> (r: Option<Action>)
    ensures
        r matches Some(a) && action_parsed(a, *node),
{
    let name = node.name.as_str();
    let arg = first_string_arg(node);
    let num = first_int_arg(node);
    let numtext = first_number_text_arg(node);
    let ghost sarg: Option<Seq<char>> = match &arg {
        Some(s) => Some(s@),
        None => None,
    };
    assert(sarg == first_string(node.entries@));
    let action = if text_is(name, "quit") {
        Action::Quit
    } else if text_is(name, "close-window") {
        Action::CloseWindow
    } else if text_is(name, "spawn") || text_is(name, "spawn-sh") {
        Action::Spawn(text_or_empty(&arg))
    } else if text_is(name, "focus-column-left") {
        Action::FocusColumnLeft
    } else if text_is(name, "focus-column-right") {
        Action::FocusColumnRight
    } else if text_is(name, "focus-column-first") {
        Action::FocusColumnFirst
    } else if text_is(name, "focus-column-last") {
        Action::FocusColumnLast
    } else if text_is(name, "focus-column-index") {
        Action::FocusColumnIndex(workspace_number(&arg, num))
    } else if text_is(name, "focus-window-down") {
        Action::FocusWindowDown
    } else if text_is(name, "focus-window-up") {
        Action::FocusWindowUp
    } else if text_is(name, "move-column-left") {
        Action::MoveColumnLeft
    } else if text_is(name, "move-column-right") {
        Action::MoveColumnRight
    } else if text_is(name, "move-window-down") {
        Action::MoveWindowDown
    } else if text_is(name, "move-window-up") {
        Action::MoveWindowUp
    } else if text_is(name, "move-window-to-column-left") {
        Action::MoveWindowToColumnLeft
    } else if text_is(name, "move-window-to-column-right") {
        Action::MoveWindowToColumnRight
    } else if text_is(name, "consume-or-expel-window-left") {
        Action::ConsumeOrExpelWindowLeft
    } else if text_is(name, "consume-or-expel-window-right") {
        Action::ConsumeOrExpelWindowRight
    } else if text_is(name, "set-column-width") {
        Action::SetColumnWidth(size_text(&arg, &numtext))
    } else if text_is(name, "set-window-height") {
        Action::SetWindowHeight(size_text(&arg, &numtext))
    } else if text_is(name, "toggle-full-width") {
        Action::ToggleFullWidth
    } else if text_is(name, "maximize-column") {
        Action::MaximizeColumn
    } else if text_is(name, "toggle-windowed-fullscreen") {
        Action::ToggleWindowedFullscreen
    } else if text_is(name, "toggle-window-floating") {
        Action::ToggleWindowFloating
    } else if text_is(name, "toggle-overview") {
        Action::ToggleOverview
    } else if text_is(name, "do-screen-transition") {
        Action::DoScreenTransition
    } else if text_is(name, "focus-workspace") || text_is(name, "workspace-switch") {
        Action::FocusWorkspace(workspace_number(&arg, num))
    } else if text_is(name, "move-window-to-workspace") {
        Action::MoveWindowToWorkspace(workspace_number(&arg, num))
    } else if text_is(name, "move-column-to-workspace") {
        Action::MoveColumnToWorkspace(workspace_number(&arg, num))
    } else {
        Action::Unknown(node.name.clone())
    };
    Some(action)
}


// --- node helpers ----------------------------------------------------------

/// The child nodes of `n` (none when it has no child block).
pub open spec fn kids(n: ConfigNode) -> Seq<ConfigNode> {
    match n.children {
        Some(v) => v@,
        None => Seq::empty(),
    }
}

/// Is some node of `ns` named `name`?
pub open spec fn any_named(ns: Seq<ConfigNode>, name: Seq<char>) -> bool {
    exists|i: int| 0 <= i < ns.len() && (#[trigger] ns[i]).name@ == name
}

/// The first node of `ns` named `name`.
pub open spec fn first_named(ns: Seq<ConfigNode>, name: Seq<char>) -> Option<ConfigNode>
    decreases ns.len(),
{
    if ns.len() == 0 {
        None
    } else if ns[0].name@ == name {
        Some(ns[0])
    } else {
        first_named(ns.drop_first(), name)
    }
}

/// `v` clamped into `lo..=hi`.
pub open spec fn clamp(v: i64, lo: i64, hi: i64) -> i64 {
    if v < lo {
        lo
    } else if v > hi {
        hi
    } else {
        v
    }
}

fn clamp_i64(v: i64, lo: i64, hi: i64) -> (r: i64)
    ensures
        r == clamp(v, lo, hi),
{
    if v < lo {
        lo
    } else if v > hi {
        hi
    } else {
        v
    }
}

// --- input -----------------------------------------------------------------

/// The Mod key that a `Mod "..."` value names (Alt when absent or unknown).
pub open spec fn mod_key_named(name: Option<Seq<char>>) -> ModKey {
    match name {
        Some(s) => if s == "Super"@ || s == "Super_L"@ || s == "Logo"@ {
            ModKey::Super
        } else if s == "Ctrl"@ || s == "Control"@ {
            ModKey::Ctrl
        } else {
            ModKey::Alt
        },
        None => ModKey::Alt,
    }
}

/// The Mod key a `keyboard-shortcuts` node selects: the first string
/// argument of its first `Mod` child.
pub open spec fn shortcuts_mod_key(n: ConfigNode) -> ModKey {
    mod_key_named(
        match first_named(kids(n), "Mod"@) {
            Some(m) => first_string(m.entries@),
            None => None,
        },
    )
}

/// The Mod key after the `input` children `ns`: the last
/// `keyboard-shortcuts` node decides.
pub open spec fn input_mod_key(ns: Seq<ConfigNode>, cur: ModKey) -> ModKey
    decreases ns.len(),
{
    if ns.len() == 0 {
        cur
    } else if ns.last().name@ == "keyboard-shortcuts"@ {
        shortcuts_mod_key(ns.last())
    } else {
        input_mod_key(ns.drop_last(), cur)
    }
}

// --- layout ----------------------------------------------------------------

/// A `center-focused-column` value.
pub open spec fn center_named(s: Seq<char>) -> CenterFocused {
    if s == "never"@ {
        CenterFocused::Never
    } else if s == "always"@ {
        CenterFocused::Always
    } else {
        CenterFocused::OnOverflow
    }
}

/// Proportions are clamped into 0.01..=100.
pub open spec fn proportion_width(p: i64) -> ColumnWidth {
    ColumnWidth::Proportion(clamp(p, 10_000, 100_000_000))
}

/// Fixed widths are clamped into 1..=100000 pixels.
pub open spec fn fixed_width(f: i64) -> ColumnWidth {
    ColumnWidth::Fixed(clamp(f, 1_000_000, 100_000_000_000))
}

/// A `proportion N` or `fixed N` node as a width.
pub open spec fn width_entry(c: ConfigNode) -> Option<ColumnWidth> {
    if c.name@ == "proportion"@ {
        match first_number(c.entries@) {
            Some(p) => Some(proportion_width(p)),
            None => None,
        }
    } else if c.name@ == "fixed"@ {
        match first_number(c.entries@) {
            Some(f) => Some(fixed_width(f)),
            None => None,
        }
    } else {
        None
    }
}

/// The first width among the nodes `ns`.
pub open spec fn first_width(ns: Seq<ConfigNode>) -> Option<ColumnWidth>
    decreases ns.len(),
{
    if ns.len() == 0 {
        None
    } else {
        match width_entry(ns[0]) {
            Some(w) => Some(w),
            None => first_width(ns.drop_first()),
        }
    }
}

/// `default-column-width 800` (fixed, unclamped), `{ proportion 0.5; }`
/// or `{ fixed 1280; }`; a quarter of the view otherwise.
pub open spec fn width_node(n: ConfigNode) -> ColumnWidth {
    match first_number(n.entries@) {
        Some(f) => ColumnWidth::Fixed(f),
        None => match first_width(kids(n)) {
            Some(w) => w,
            None => ColumnWidth::Proportion(250_000),
        },
    }
}

/// The widths of `preset-column-widths` children, in order.
pub open spec fn preset_widths(ns: Seq<ConfigNode>) -> Seq<ColumnWidth>
    decreases ns.len(),
{
    if ns.len() == 0 {
        Seq::empty()
    } else {
        let prev = preset_widths(ns.drop_last());
        match width_entry(ns.last()) {
            Some(w) => prev.push(w),
            None => prev,
        }
    }
}

/// A ring width in millionths as whole pixels: at least 1, truncated,
/// saturated to `i32`.
pub open spec fn ring_width(m: i64) -> i32 {
    let w = (if m < 1_000_000 {
        1_000_000
    } else {
        m
    }) / 1_000_000;
    if w > i32::MAX {
        i32::MAX
    } else {
        w as i32
    }
}

/// One `focus-ring` child applied to `r`.
pub open spec fn ring_child(r: FocusRingConfig, c: ConfigNode) -> FocusRingConfig {
    if c.name@ == "off"@ {
        FocusRingConfig { enabled: false, ..r }
    } else if c.name@ == "width"@ {
        match first_number(c.entries@) {
            Some(v) => FocusRingConfig { width: ring_width(v), ..r },
            None => r,
        }
    } else if c.name@ == "active-color"@ {
        match first_string(c.entries@) {
            Some(s) => match hex_color(s) {
                Some(rgb) => FocusRingConfig { active_color: rgb, ..r },
                None => r,
            },
            None => r,
        }
    } else {
        r
    }
}

pub open spec fn ring_children(r: FocusRingConfig, ns: Seq<ConfigNode>) -> FocusRingConfig
    decreases ns.len(),
{
    if ns.len() == 0 {
        r
    } else {
        ring_child(ring_children(r, ns.drop_last()), ns.last())
    }
}

/// A `focus-ring` node applied to `r`: a bare number sets the width,
/// then the children apply in order.
pub open spec fn focus_ring_node(r: FocusRingConfig, n: ConfigNode) -> FocusRingConfig {
    let r1 = match first_number(n.entries@) {
        Some(v) => FocusRingConfig { width: ring_width(v), ..r },
        None => r,
    };
    ring_children(r1, kids(n))
}

// --- animations --------------------------------------------------------------

/// A duration in millionths of a millisecond as whole milliseconds
/// (negative values count as zero, fractions are dropped).
pub open spec fn duration_ms(m: i64) -> u64 {
    (if m < 0 {
        0
    } else {
        m / 1_000_000
    }) as u64
}

/// One child of an animation kind (`duration-ms`, `easing`) applied to `p`;
/// an unknown easing name keeps the old easing.
pub open spec fn anim_param(p: AnimParams, c: ConfigNode) -> AnimParams {
    if c.name@ == "duration-ms"@ {
        match first_number(c.entries@) {
            Some(ms) => AnimParams { duration_ms: duration_ms(ms), ..p },
            None => p,
        }
    } else if c.name@ == "easing"@ {
        match first_string(c.entries@) {
            Some(s) => match easing_named(s) {
                Some(e) => AnimParams { easing: e, ..p },
                None => p,
            },
            None => p,
        }
    } else {
        p
    }
}

pub open spec fn anim_params(p: AnimParams, ns: Seq<ConfigNode>) -> AnimParams
    decreases ns.len(),
{
    if ns.len() == 0 {
        p
    } else {
        anim_param(anim_params(p, ns.drop_last()), ns.last())
    }
}

/// One child of `animations` applied to `a`.
pub open spec fn anim_kind(a: AnimationsConfig, n: ConfigNode) -> AnimationsConfig {
    if n.name@ == "window-movement"@ {
        AnimationsConfig { window_movement: anim_params(a.window_movement, kids(n)), ..a }
    } else if n.name@ == "window-open"@ {
        AnimationsConfig { window_open: anim_params(a.window_open, kids(n)), ..a }
    } else if n.name@ == "view-offset"@ {
        AnimationsConfig { view_offset: anim_params(a.view_offset, kids(n)), ..a }
    } else {
        a
    }
}

pub open spec fn anim_kinds(a: AnimationsConfig, ns: Seq<ConfigNode>) -> AnimationsConfig
    decreases ns.len(),
{
    if ns.len() == 0 {
        a
    } else {
        anim_kind(anim_kinds(a, ns.drop_last()), ns.last())
    }
}

/// Does an `animations` node switch animations off (`animations "off"`
/// or an `off` child)?
pub open spec fn animations_off(n: ConfigNode) -> bool {
    (exists|i: int|
        0 <= i < n.entries@.len() && (#[trigger] n.entries@[i]).name is None
            && n.entries@[i].value is Str && n.entries@[i].value->Str_0@ == "off"@) || any_named(
        kids(n),
        "off"@,
    )
}

/// An `animations` node applied to `a`.
pub open spec fn animations_node(a: AnimationsConfig, n: ConfigNode) -> AnimationsConfig {
    let a0 = if animations_off(n) {
        AnimationsConfig { enabled: false, ..a }
    } else {
        a
    };
    anim_kinds(a0, kids(n))
}

// --- binds -----------------------------------------------------------------

/// The (combo, action node) pairs of `binds` children: each child is
/// named by its combo and holds its actions.
pub open spec fn bind_pairs(ns: Seq<ConfigNode>) -> Seq<(Seq<char>, ConfigNode)>
    decreases ns.len(),
{
    if ns.len() == 0 {
        Seq::empty()
    } else {
        let n = ns.last();
        bind_pairs(ns.drop_last()) + kids(n).map_values(|a: ConfigNode| (n.name@, a))
    }
}

// --- window rules ------------------------------------------------------------

/// Which `match` field a property name sets: 0 exe (also `app-id`),
/// 1 title, 2 class; other names set nothing.
pub open spec fn match_field(name: Seq<char>) -> int {
    if name == "app-id"@ || name == "exe"@ {
        0
    } else if name == "title"@ {
        1
    } else if name == "class"@ {
        2
    } else {
        3
    }
}

/// Field `f` after the `match` properties `es`: the last string property
/// naming it wins.
pub open spec fn match_entries(es: Seq<ConfigEntry>, f: int, cur: Option<Seq<char>>) -> Option<
    Seq<char>,
>
    decreases es.len(),
{
    if es.len() == 0 {
        cur
    } else {
        let e = es.last();
        let prev = match_entries(es.drop_last(), f, cur);
        if e.name is Some && e.value is Str && match_field(e.name->0@) == f {
            Some(e.value->Str_0@)
        } else {
            prev
        }
    }
}

/// Field `f` of a rule with children `ns`.
pub open spec fn rule_match(ns: Seq<ConfigNode>, f: int) -> Option<Seq<char>>
    decreases ns.len(),
{
    if ns.len() == 0 {
        None
    } else {
        let prev = rule_match(ns.drop_last(), f);
        if ns.last().name@ == "match"@ {
            match_entries(ns.last().entries@, f, prev)
        } else {
            prev
        }
    }
}

/// A rule flag: set by its last node (`open-floating` = true,
/// `open-floating #false` = false), false when absent.
pub open spec fn rule_flag(ns: Seq<ConfigNode>, name: Seq<char>) -> bool
    decreases ns.len(),
{
    if ns.len() == 0 {
        false
    } else if ns.last().name@ == name {
        match first_bool(ns.last().entries@) {
            Some(b) => b,
            None => true,
        }
    } else {
        rule_flag(ns.drop_last(), name)
    }
}

/// A number in millionths as a `u8` workspace index, the way a float
/// converts to `u8`: truncated and saturated.
pub open spec fn micros_to_u8(m: i64) -> u8 {
    if m <= 0 {
        0
    } else if m / 1_000_000 >= 255 {
        255
    } else {
        (m / 1_000_000) as u8
    }
}

/// An `open-on-workspace` node: its string argument as a `u8`, else its
/// number argument converted.
pub open spec fn workspace_node(c: ConfigNode) -> Option<u8> {
    let from_text = match first_string(c.entries@) {
        Some(s) => parse_u8_spec(s),
        None => None,
    };
    match from_text {
        Some(v) => Some(v),
        None => match first_number(c.entries@) {
            Some(m) => Some(micros_to_u8(m)),
            None => None,
        },
    }
}

/// The workspace of a rule: set by its last `open-on-workspace` node.
pub open spec fn rule_workspace(ns: Seq<ConfigNode>) -> Option<u8>
    decreases ns.len(),
{
    if ns.len() == 0 {
        None
    } else if ns.last().name@ == "open-on-workspace"@ {
        workspace_node(ns.last())
    } else {
        rule_workspace(ns.drop_last())
    }
}

/// `o` holds exactly the text `v`.
pub open spec fn text_field_is(o: Option<String>, v: Option<Seq<char>>) -> bool {
    match o {
        Some(s) => v == Some(s@),
        None => v is None,
    }
}

/// `r` is the rule that a `window-rule` node with children `ns` describes.
pub open spec fn rule_parsed(r: WindowRule, ns: Seq<ConfigNode>) -> bool {
    &&& text_field_is(r.match_exe, rule_match(ns, 0))
    &&& text_field_is(r.match_title, rule_match(ns, 1))
    &&& text_field_is(r.match_class, rule_match(ns, 2))
    &&& r.open_floating == rule_flag(ns, "open-floating"@)
    &&& r.open_workspace == rule_workspace(ns)
    &&& r.open_maximized == rule_flag(ns, "open-maximized"@)
    &&& r.open_fullscreen == rule_flag(ns, "open-fullscreen"@)
}


// --- the whole document --------------------------------------------------------

/// What the configuration reader has gathered so far: the settings, and
/// for binds and window rules the nodes that describe them.
pub struct ConfigState {
    pub mod_key: ModKey,
    pub focus_follows_mouse: bool,
    pub gaps: i64,
    pub edge_padding: i64,
    pub default_column_width: ColumnWidth,
    pub preset_column_widths: Seq<ColumnWidth>,
    pub center_focused_column: CenterFocused,
    pub focus_ring: FocusRingConfig,
    pub animations: AnimationsConfig,
    /// (combo, action node) of each configured bind, in order.
    pub binds: Seq<(Seq<char>, ConfigNode)>,
    /// Whether a `binds` node was read; until then the default binds hold.
    pub binds_given: bool,
    /// The children of each `window-rule` node, in order.
    pub window_rules: Seq<Seq<ConfigNode>>,
}

/// The defaults: the default binds (no bind configured yet) and no window
/// rules.
pub open spec fn initial_state() -> ConfigState {
    ConfigState {
        mod_key: ModKey::Alt,
        focus_follows_mouse: false,
        gaps: 8_000_000,
        edge_padding: 8_000_000,
        default_column_width: ColumnWidth::Proportion(250_000),
        preset_column_widths: seq![
            ColumnWidth::Proportion(333_330),
            ColumnWidth::Proportion(500_000),
            ColumnWidth::Proportion(666_670),
        ],
        center_focused_column: CenterFocused::OnOverflow,
        focus_ring: FocusRingConfig::spec_default(),
        animations: AnimationsConfig::spec_default(),
        binds: Seq::empty(),
        binds_given: false,
        window_rules: Seq::empty(),
    }
}

/// One child of `layout` applied to `s`.
pub open spec fn layout_child(s: ConfigState, c: ConfigNode) -> ConfigState {
    if c.name@ == "gaps"@ {
        match first_number(c.entries@) {
            Some(v) => ConfigState { gaps: v, ..s },
            None => s,
        }
    } else if c.name@ == "edge-padding"@ {
        match first_number(c.entries@) {
            Some(v) => ConfigState { edge_padding: v, ..s },
            None => s,
        }
    } else if c.name@ == "center-focused-column"@ {
        match first_string(c.entries@) {
            Some(v) => ConfigState { center_focused_column: center_named(v), ..s },
            None => s,
        }
    } else if c.name@ == "default-column-width"@ {
        ConfigState { default_column_width: width_node(c), ..s }
    } else if c.name@ == "preset-column-widths"@ {
        ConfigState { preset_column_widths: preset_widths(kids(c)), ..s }
    } else if c.name@ == "focus-ring"@ {
        ConfigState { focus_ring: focus_ring_node(s.focus_ring, c), ..s }
    } else {
        s
    }
}

pub open spec fn layout_children(s: ConfigState, ns: Seq<ConfigNode>) -> ConfigState
    decreases ns.len(),
{
    if ns.len() == 0 {
        s
    } else {
        layout_child(layout_children(s, ns.drop_last()), ns.last())
    }
}

/// One top-level node applied to `s`; unknown nodes are ignored.
pub open spec fn top_node(s: ConfigState, n: ConfigNode) -> ConfigState {
    if n.name@ == "input"@ {
        ConfigState {
            mod_key: input_mod_key(kids(n), s.mod_key),
            focus_follows_mouse: s.focus_follows_mouse || any_named(
                kids(n),
                "focus-follows-mouse"@,
            ),
            ..s
        }
    } else if n.name@ == "layout"@ {
        layout_children(s, kids(n))
    } else if n.name@ == "animations"@ {
        ConfigState { animations: animations_node(s.animations, n), ..s }
    } else if n.name@ == "binds"@ {
        ConfigState {
            binds: if s.binds_given {
                s.binds + bind_pairs(kids(n))
            } else {
                bind_pairs(kids(n))
            },
            binds_given: true,
            ..s
        }
    } else if n.name@ == "window-rule"@ && n.children is Some {
        ConfigState { window_rules: s.window_rules.push(kids(n)), ..s }
    } else {
        s
    }
}

/// The top-level nodes `ns` applied in order to `s`.
pub open spec fn top_nodes(s: ConfigState, ns: Seq<ConfigNode>) -> ConfigState
    decreases ns.len(),
{
    if ns.len() == 0 {
        s
    } else {
        top_node(top_nodes(s, ns.drop_last()), ns.last())
    }
}

/// What a document with top-level nodes `ns` configures.
pub open spec fn document_state(ns: Seq<ConfigNode>) -> ConfigState {
    top_nodes(initial_state(), ns)
}

/// The binds `bs` are what the (combo, action node) pairs `ps` describe.
pub open spec fn binds_match(bs: Seq<Bind>, ps: Seq<(Seq<char>, ConfigNode)>) -> bool {
    &&& bs.len() == ps.len()
    &&& forall|i: int|
        0 <= i < bs.len() ==> (#[trigger] bs[i]).combo@ == ps[i].0 && action_parsed(
            bs[i].action,
            ps[i].1,
        )
}

/// The configuration `c` is what `s` describes.
pub open spec fn config_is(c: Config, s: ConfigState) -> bool {
    &&& c.mod_key == s.mod_key
    &&& c.focus_follows_mouse == s.focus_follows_mouse
    &&& c.layout.gaps == s.gaps
    &&& c.layout.edge_padding == s.edge_padding
    &&& c.layout.default_column_width == s.default_column_width
    &&& c.layout.preset_column_widths@ == s.preset_column_widths
    &&& c.layout.center_focused_column == s.center_focused_column
    &&& c.focus_ring == s.focus_ring
    &&& c.animations == s.animations
    &&& if s.binds_given {
        binds_match(c.binds@, s.binds)
    } else {
        binds_are(c.binds@, default_bind_table() + workspace_bind_table())
    }
    &&& c.window_rules@.len() == s.window_rules.len()
    &&& forall|i: int|
        0 <= i < c.window_rules@.len() ==> rule_parsed(
            #[trigger] c.window_rules@[i],
            s.window_rules[i],
        )
}


// --- the reader ------------------------------------------------------------------

proof fn lemma_take_next<T>(s: Seq<T>, i: int)
    requires
        0 <= i < s.len(),
    ensures
        s.take(i + 1).drop_last() =~= s.take(i),
        s.take(i + 1).last() == s[i],
{
}

/// The child nodes of `n` as a slice (empty when it has no child block).
fn children_of(n: &ConfigNode) -> (r: &[ConfigNode])
    ensures
        r@ == kids(*n),
{
    match &n.children {
        Some(v) => v.as_slice(),
        None => &[],
    }
}

/// The first node of `ns` named `name`, by index.
fn find_named(ns: &[ConfigNode], name: &str) -> (r: Option<usize>)
    ensures
        match r {
            Some(i) => i < ns@.len() && first_named(ns@, name@) == Some(ns@[i as int]),
            None => first_named(ns@, name@) is None,
        },
{
    let mut i: usize = 0;
    assert(ns@.skip(0) =~= ns@);
    while i < ns.len()
        invariant
            0 <= i <= ns@.len(),
            first_named(ns@.skip(i as int), name@) == first_named(ns@, name@),
        decreases ns.len() - i,
    {
        proof {
            lemma_skip_next(ns@, i as int);
        }
        if text_is(ns[i].name.as_str(), name) {
            return Some(i);
        }
        i += 1;
    }
    None
}

/// Is some node of `ns` named `name`?
fn has_named(ns: &[ConfigNode], name: &str) -> (r: bool)
    ensures
        r == any_named(ns@, name@),
{
    let mut i: usize = 0;
    while i < ns.len()
        invariant
            0 <= i <= ns@.len(),
            forall|j: int| 0 <= j < i ==> (#[trigger] ns@[j]).name@ != name@,
        decreases ns.len() - i,
    {
        if text_is(ns[i].name.as_str(), name) {
            return true;
        }
        i += 1;
    }
    false
}

/// The Mod key a `Mod` value names.
fn mod_key_of(name: &Option<String>) -> (r: ModKey)
    ensures
        r == mod_key_named(
            match name {
                Some(s) => Some(s@),
                None => None,
            },
        ),
{
    match name {
        Some(s) => {
            let s = s.as_str();
            if text_is(s, "Super") || text_is(s, "Super_L") || text_is(s, "Logo") {
                ModKey::Super
            } else if text_is(s, "Ctrl") || text_is(s, "Control") {
                ModKey::Ctrl
            } else {
                ModKey::Alt
            }
        },
        None => ModKey::Alt,
    }
}

/// `input { focus-follows-mouse; keyboard-shortcuts { Mod "Super" } }`.
fn parse_input(node: &ConfigNode, config: &mut Config)
    ensures
        final(config).mod_key == input_mod_key(kids(*node), old(config).mod_key),
        final(config).focus_follows_mouse == (old(config).focus_follows_mouse || any_named(
            kids(*node),
            "focus-follows-mouse"@,
        )),
        final(config).layout == old(config).layout,
        final(config).focus_ring == old(config).focus_ring,
        final(config).animations == old(config).animations,
        final(config).binds == old(config).binds,
        final(config).window_rules == old(config).window_rules,
{
    let ns = children_of(node);
    if has_named(ns, "focus-follows-mouse") {
        config.focus_follows_mouse = true;
    }
    let ghost start = config.mod_key;
    let ghost mid = *config;
    let mut i: usize = 0;
    assert(ns@.take(0) =~= Seq::<ConfigNode>::empty());
    while i < ns.len()
        invariant
            0 <= i <= ns@.len(),
            config.mod_key == input_mod_key(ns@.take(i as int), start),
            config.focus_follows_mouse == mid.focus_follows_mouse,
            config.layout == mid.layout,
            config.focus_ring == mid.focus_ring,
            config.animations == mid.animations,
            config.binds == mid.binds,
            config.window_rules == mid.window_rules,
        decreases ns.len() - i,
    {
        proof {
            lemma_take_next(ns@, i as int);
        }
        if text_is(ns[i].name.as_str(), "keyboard-shortcuts") {
            let inner = children_of(&ns[i]);
            let name = match find_named(inner, "Mod") {
                Some(k) => first_string_arg(&inner[k]),
                None => None,
            };
            config.mod_key = mod_key_of(&name);
        }
        i += 1;
    }
    assert(ns@.take(ns@.len() as int) =~= ns@);
}

/// The width that a `proportion` / `fixed` node describes.
fn width_entry_of(c: &ConfigNode) -> (r: Option<ColumnWidth>)
    ensures
        r == width_entry(*c),
{
    if text_is(c.name.as_str(), "proportion") {
        match first_float_arg(c) {
            Some(p) => Some(ColumnWidth::Proportion(clamp_i64(p, 10_000, 100_000_000))),
            None => None,
        }
    } else if text_is(c.name.as_str(), "fixed") {
        match first_float_arg(c) {
            Some(f) => Some(ColumnWidth::Fixed(clamp_i64(f, 1_000_000, 100_000_000_000))),
            None => None,
        }
    } else {
        None
    }
}

/// `default-column-width { proportion 0.5; }` or `{ fixed 1280; }` or a
/// bare `default-column-width 800`.
fn parse_width_node(n: &ConfigNode) -> (r: ColumnWidth)
    ensures
        r == width_node(*n),
{
    if let Some(f) = first_float_arg(n) {
        return ColumnWidth::Fixed(f);
    }
    let ns = children_of(n);
    let mut i: usize = 0;
    assert(ns@.skip(0) =~= ns@);
    while i < ns.len()
        invariant
            0 <= i <= ns@.len(),
            first_width(ns@.skip(i as int)) == first_width(kids(*n)),
            ns@ == kids(*n),
            first_number(n.entries@) is None,
        decreases ns.len() - i,
    {
        proof {
            lemma_skip_next(ns@, i as int);
        }
        if let Some(w) = width_entry_of(&ns[i]) {
            return w;
        }
        i += 1;
    }
    ColumnWidth::Proportion(250_000)
}

/// `preset-column-widths { proportion 0.33; proportion 0.5; fixed 1280; }`.
fn parse_preset_widths(n: &ConfigNode) -> (r: Vec<ColumnWidth>)
    ensures
        r@ == preset_widths(kids(*n)),
{
    let ns = children_of(n);
    let mut out: Vec<ColumnWidth> = Vec::new();
    let mut i: usize = 0;
    assert(ns@.take(0) =~= Seq::<ConfigNode>::empty());
    while i < ns.len()
        invariant
            0 <= i <= ns@.len(),
            out@ == preset_widths(ns@.take(i as int)),
        decreases ns.len() - i,
    {
        proof {
            lemma_take_next(ns@, i as int);
        }
        if let Some(w) = width_entry_of(&ns[i]) {
            out.push(w);
        }
        i += 1;
    }
    assert(ns@.take(ns@.len() as int) =~= ns@);
    out
}

/// A ring width in millionths as whole pixels.
fn ring_width_of(m: i64) -> (r: i32)
    ensures
        r == ring_width(m),
{
    let v = if m < 1_000_000 {
        1_000_000
    } else {
        m
    };
    let w = v / 1_000_000;
    if w > 2_147_483_647 {
        2_147_483_647
    } else {
        w as i32
    }
}

/// `focus-ring { off; width 4; active-color "#7daea3"; }`; a bare
/// `focus-ring 4;` sets the width.
fn parse_focus_ring(n: &ConfigNode, ring: &mut FocusRingConfig)
    ensures
        *final(ring) == focus_ring_node(*old(ring), *n),
{
    if let Some(v) = first_float_arg(n) {
        ring.width = ring_width_of(v);
    }
    let ghost r1 = *ring;
    let ns = children_of(n);
    let mut i: usize = 0;
    assert(ns@.take(0) =~= Seq::<ConfigNode>::empty());
    while i < ns.len()
        invariant
            0 <= i <= ns@.len(),
            *ring == ring_children(r1, ns@.take(i as int)),
        decreases ns.len() - i,
    {
        proof {
            lemma_take_next(ns@, i as int);
        }
        let c = &ns[i];
        if text_is(c.name.as_str(), "off") {
            ring.enabled = false;
        } else if text_is(c.name.as_str(), "width") {
            if let Some(v) = first_float_arg(c) {
                ring.width = ring_width_of(v);
            }
        } else if text_is(c.name.as_str(), "active-color") {
            if let Some(s) = first_string_arg(c) {
                if let Some(rgb) = parse_hex_color(s.as_str()) {
                    ring.active_color = rgb;
                }
            }
        }
        i += 1;
    }
    assert(ns@.take(ns@.len() as int) =~= ns@);
}

/// The `center-focused-column` value named `s`.
fn center_of(s: &str) -> (r: CenterFocused)
    ensures
        r == center_named(s@),
{
    if text_is(s, "never") {
        CenterFocused::Never
    } else if text_is(s, "always") {
        CenterFocused::Always
    } else {
        CenterFocused::OnOverflow
    }
}

/// `layout { gaps 8; edge-padding 8; center-focused-column "always";
/// default-column-width { ... } preset-column-widths { ... } focus-ring { ... } }`.
fn parse_layout(node: &ConfigNode, config: &mut Config, Ghost(s): Ghost<ConfigState>)
    requires
        config_is(*old(config), s),
    ensures
        config_is(*final(config), layout_children(s, kids(*node))),
{
    let ns = children_of(node);
    let mut i: usize = 0;
    assert(ns@.take(0) =~= Seq::<ConfigNode>::empty());
    while i < ns.len()
        invariant
            0 <= i <= ns@.len(),
            config_is(*config, layout_children(s, ns@.take(i as int))),
        decreases ns.len() - i,
    {
        proof {
            lemma_take_next(ns@, i as int);
        }
        let c = &ns[i];
        let name = c.name.as_str();
        if text_is(name, "gaps") {
            if let Some(v) = first_float_arg(c) {
                config.layout.gaps = v;
            }
        } else if text_is(name, "edge-padding") {
            if let Some(v) = first_float_arg(c) {
                config.layout.edge_padding = v;
            }
        } else if text_is(name, "center-focused-column") {
            if let Some(v) = first_string_arg(c) {
                config.layout.center_focused_column = center_of(v.as_str());
            }
        } else if text_is(name, "default-column-width") {
            config.layout.default_column_width = parse_width_node(c);
        } else if text_is(name, "preset-column-widths") {
            config.layout.preset_column_widths = parse_preset_widths(c);
        } else if text_is(name, "focus-ring") {
            parse_focus_ring(c, &mut config.focus_ring);
        }
        i += 1;
    }
    assert(ns@.take(ns@.len() as int) =~= ns@);
}


/// A duration in millionths of a millisecond as whole milliseconds.
fn duration_ms_of(m: i64) -> (r: u64)
    ensures
        r == duration_ms(m),
{
    if m < 0 {
        0
    } else {
        (m / 1_000_000) as u64
    }
}

/// The children of one animation kind (`duration-ms`, `easing`) applied
/// to `params`.
fn parse_anim_params(ns: &[ConfigNode], params: &mut AnimParams)
    ensures
        *final(params) == anim_params(*old(params), ns@),
{
    let ghost p0 = *params;
    let mut i: usize = 0;
    assert(ns@.take(0) =~= Seq::<ConfigNode>::empty());
    while i < ns.len()
        invariant
            0 <= i <= ns@.len(),
            *params == anim_params(p0, ns@.take(i as int)),
        decreases ns.len() - i,
    {
        proof {
            lemma_take_next(ns@, i as int);
        }
        let c = &ns[i];
        if text_is(c.name.as_str(), "duration-ms") {
            if let Some(ms) = first_float_arg(c) {
                params.duration_ms = duration_ms_of(ms);
            }
        } else if text_is(c.name.as_str(), "easing") {
            if let Some(name) = first_string_arg(c) {
                if let Some(e) = easing_from_name(name.as_str()) {
                    params.easing = e;
                }
            }
        }
        i += 1;
    }
    assert(ns@.take(ns@.len() as int) =~= ns@);
}

/// Does an `animations` node carry the argument `"off"`?
fn has_off_arg(node: &ConfigNode) -> (r: bool)
    ensures
        r == exists|i: int|
            0 <= i < node.entries@.len() && (#[trigger] node.entries@[i]).name is None
                && node.entries@[i].value is Str && node.entries@[i].value->Str_0@ == "off"@,
{
    let es = &node.entries;
    let mut i: usize = 0;
    while i < es.len()
        invariant
            es == &node.entries,
            0 <= i <= es@.len(),
            forall|j: int|
                0 <= j < i ==> !((#[trigger] es@[j]).name is None && es@[j].value is Str
                    && es@[j].value->Str_0@ == "off"@),
        decreases es.len() - i,
    {
        if es[i].name.is_none() {
            if let ConfigValue::Str(v) = &es[i].value {
                if text_is(v.as_str(), "off") {
                    return true;
                }
            }
        }
        i += 1;
    }
    false
}

/// `animations { off; window-movement { duration-ms 200; easing "ease-out-expo"; } }`.
fn parse_animations(node: &ConfigNode, animations: &mut AnimationsConfig)
    ensures
        *final(animations) == animations_node(*old(animations), *node),
{
    let ns = children_of(node);
    if has_off_arg(node) || has_named(ns, "off") {
        animations.enabled = false;
    }
    let ghost a0 = *animations;
    let mut i: usize = 0;
    assert(ns@.take(0) =~= Seq::<ConfigNode>::empty());
    while i < ns.len()
        invariant
            0 <= i <= ns@.len(),
            *animations == anim_kinds(a0, ns@.take(i as int)),
        decreases ns.len() - i,
    {
        proof {
            lemma_take_next(ns@, i as int);
        }
        let n = &ns[i];
        let inner = children_of(n);
        if text_is(n.name.as_str(), "window-movement") {
            parse_anim_params(inner, &mut animations.window_movement);
        } else if text_is(n.name.as_str(), "window-open") {
            parse_anim_params(inner, &mut animations.window_open);
        } else if text_is(n.name.as_str(), "view-offset") {
            parse_anim_params(inner, &mut animations.view_offset);
        }
        i += 1;
    }
    assert(ns@.take(ns@.len() as int) =~= ns@);
}

/// `binds { Mod+H { focus-column-left; } }`: each child is named by its
/// key combo and holds the actions to bind to it, in order.
fn parse_binds(node: &ConfigNode, binds: &mut Vec<Bind>, Ghost(ps): Ghost<Seq<(Seq<char>, ConfigNode)>>)
    requires
        binds_match(old(binds)@, ps),
    ensures
        binds_match(final(binds)@, ps + bind_pairs(kids(*node))),
{
    let ns = children_of(node);
    let mut i: usize = 0;
    assert(ns@.take(0) =~= Seq::<ConfigNode>::empty());
    assert(ps + bind_pairs(ns@.take(0)) =~= ps);
    while i < ns.len()
        invariant
            0 <= i <= ns@.len(),
            binds_match(binds@, ps + bind_pairs(ns@.take(i as int))),
        decreases ns.len() - i,
    {
        proof {
            lemma_take_next(ns@, i as int);
        }
        let n = &ns[i];
        let actions = children_of(n);
        let ghost before = ps + bind_pairs(ns@.take(i as int));
        let ghost added = actions@.map_values(|a: ConfigNode| (n.name@, a));
        let mut k: usize = 0;
        assert(before + added.take(0) =~= before);
        while k < actions.len()
            invariant
                0 <= k <= actions@.len(),
                added == actions@.map_values(|a: ConfigNode| (n.name@, a)),
                binds_match(binds@, before + added.take(k as int)),
            decreases actions.len() - k,
        {
            if let Some(a) = parse_action(&actions[k]) {
                let ghost old_binds = binds@;
                binds.push(Bind { combo: n.name.clone(), action: a });
                proof {
                    let t = before + added.take(k + 1);
                    assert(t =~= (before + added.take(k as int)).push((n.name@, actions@[k as int])));
                    assert forall|j: int| 0 <= j < binds@.len() implies (#[trigger] binds@[j]).combo@
                        == t[j].0 && action_parsed(binds@[j].action, t[j].1) by {
                        if j < old_binds.len() {
                            assert(binds@[j] == old_binds[j]);
                        }
                    }
                }
            }
            k += 1;
        }
        assert(added.take(actions@.len() as int) =~= added);
        assert(ps + bind_pairs(ns@.take(i + 1)) =~= before + added);
        i += 1;
    }
    assert(ns@.take(ns@.len() as int) =~= ns@);
}

/// The `match` field a property name sets.
fn match_field_of(name: &str) -> (r: u8)
    ensures
        r == match_field(name@),
{
    if text_is(name, "app-id") || text_is(name, "exe") {
        0
    } else if text_is(name, "title") {
        1
    } else if text_is(name, "class") {
        2
    } else {
        3
    }
}

/// A number in millionths as a `u8`, truncated and saturated.
fn micros_to_u8_of(m: i64) -> (r: u8)
    ensures
        r == micros_to_u8(m),
{
    if m <= 0 {
        0
    } else if m / 1_000_000 >= 255 {
        255
    } else {
        (m / 1_000_000) as u8
    }
}

/// An `open-on-workspace` node's workspace.
fn workspace_of_node(c: &ConfigNode) -> (r: Option<u8>)
    ensures
        r == workspace_node(*c),
{
    let from_text = match first_string_arg(c) {
        Some(s) => {
            let cs = chars_of(s.as_str());
            parse_u8(cs.as_slice())
        },
        None => None,
    };
    match from_text {
        Some(v) => Some(v),
        None => match first_float_arg(c) {
            Some(m) => Some(micros_to_u8_of(m)),
            None => None,
        },
    }
}

/// The names a window rule reads are pairwise different.
proof fn lemma_rule_names_distinct()
    ensures
        "match"@ != "open-floating"@,
        "match"@ != "open-on-workspace"@,
        "match"@ != "open-maximized"@,
        "match"@ != "open-fullscreen"@,
        "open-floating"@ != "open-on-workspace"@,
        "open-floating"@ != "open-maximized"@,
        "open-floating"@ != "open-fullscreen"@,
        "open-on-workspace"@ != "open-maximized"@,
        "open-on-workspace"@ != "open-fullscreen"@,
        "open-maximized"@ != "open-fullscreen"@,
{
    reveal_strlit("match");
    reveal_strlit("open-floating");
    reveal_strlit("open-on-workspace");
    reveal_strlit("open-maximized");
    reveal_strlit("open-fullscreen");
    assert("match"@.len() == 5);
    assert("open-floating"@.len() == 13);
    assert("open-maximized"@.len() == 14);
    assert("open-fullscreen"@.len() == 15);
    assert("open-on-workspace"@.len() == 17);
}

/// `window-rule { match app-id="firefox" title="download"; open-floating; }`;
/// a `window-rule` without a child block adds no rule.
fn parse_window_rule(node: &ConfigNode) -> (r: Option<WindowRule>)
    ensures
        match node.children {
            Some(v) => r matches Some(w) && rule_parsed(w, v@),
            None => r is None,
        },
{
    let ns = match &node.children {
        Some(v) => v.as_slice(),
        None => {
            return None;
        },
    };
    let mut rule = WindowRule::default();
    let mut i: usize = 0;
    assert(ns@.take(0) =~= Seq::<ConfigNode>::empty());
    while i < ns.len()
        invariant
            0 <= i <= ns@.len(),
            rule_parsed(rule, ns@.take(i as int)),
        decreases ns.len() - i,
    {
        proof {
            lemma_take_next(ns@, i as int);
            lemma_rule_names_distinct();
        }
        let c = &ns[i];
        let name = c.name.as_str();
        if text_is(name, "match") {
            let es = &c.entries;
            let ghost r0 = rule;
            let ghost pre = ns@.take(i as int);
            let mut k: usize = 0;
            assert(es@.take(0) =~= Seq::<ConfigEntry>::empty());
            while k < es.len()
                invariant
                    es == &c.entries,
                    0 <= k <= es@.len(),
                    text_field_is(rule.match_exe, match_entries(es@.take(k as int), 0, rule_match(pre, 0))),
                    text_field_is(rule.match_title, match_entries(es@.take(k as int), 1, rule_match(pre, 1))),
                    text_field_is(rule.match_class, match_entries(es@.take(k as int), 2, rule_match(pre, 2))),
                    rule.open_floating == r0.open_floating,
                    rule.open_workspace == r0.open_workspace,
                    rule.open_maximized == r0.open_maximized,
                    rule.open_fullscreen == r0.open_fullscreen,
                decreases es.len() - k,
            {
                proof {
                    lemma_take_next(es@, k as int);
                }
                let e = &es[k];
                if let Some(key) = &e.name {
                    if let ConfigValue::Str(v) = &e.value {
                        let f = match_field_of(key.as_str());
                        if f == 0 {
                            rule.match_exe = Some(v.clone());
                        } else if f == 1 {
                            rule.match_title = Some(v.clone());
                        } else if f == 2 {
                            rule.match_class = Some(v.clone());
                        }
                    }
                }
                k += 1;
            }
            assert(es@.take(es@.len() as int) =~= es@);
        } else if text_is(name, "open-floating") {
            rule.open_floating = match first_bool_arg(c) {
                Some(b) => b,
                None => true,
            };
        } else if text_is(name, "open-on-workspace") {
            rule.open_workspace = workspace_of_node(c);
        } else if text_is(name, "open-maximized") {
            rule.open_maximized = match first_bool_arg(c) {
                Some(b) => b,
                None => true,
            };
        } else if text_is(name, "open-fullscreen") {
            rule.open_fullscreen = match first_bool_arg(c) {
                Some(b) => b,
                None => true,
            };
        }
        i += 1;
    }
    assert(ns@.take(ns@.len() as int) =~= ns@);
    Some(rule)
}


/// The configuration that a document with top-level nodes `nodes`
/// describes: the defaults, then each `input`, `layout`, `animations`,
/// `binds` and `window-rule` node applied in order.  Unknown nodes and
/// fields are ignored; the binds of `binds` nodes replace the default
/// binds, which hold when there is none.
pub fn config_from_nodes(nodes: &[ConfigNode]) -> (c: Config)
    ensures
        config_is(c, document_state(nodes@)),
{
    let mut config = Config::default();
    let mut given = false;
    assert(nodes@.take(0) =~= Seq::<ConfigNode>::empty());
    let mut i: usize = 0;
    while i < nodes.len()
        invariant
            0 <= i <= nodes@.len(),
            config_is(config, top_nodes(initial_state(), nodes@.take(i as int))),
            given == top_nodes(initial_state(), nodes@.take(i as int)).binds_given,
        decreases nodes.len() - i,
    {
        proof {
            lemma_take_next(nodes@, i as int);
        }
        let ghost s = top_nodes(initial_state(), nodes@.take(i as int));
        let n = &nodes[i];
        proof {
            lemma_layout_keeps_binds(s, kids(*n));
        }
        let name = n.name.as_str();
        if text_is(name, "input") {
            parse_input(n, &mut config);
        } else if text_is(name, "layout") {
            parse_layout(n, &mut config, Ghost(s));
        } else if text_is(name, "animations") {
            parse_animations(n, &mut config.animations);
        } else if text_is(name, "binds") {
            if !given {
                config.binds = Vec::new();
                given = true;
            }
            let ghost before = if s.binds_given {
                s.binds
            } else {
                Seq::<(Seq<char>, ConfigNode)>::empty()
            };
            assert(before + bind_pairs(kids(*n)) == top_node(s, *n).binds);
            parse_binds(n, &mut config.binds, Ghost(before));
        } else if text_is(name, "window-rule") {
            if let Some(rule) = parse_window_rule(n) {
                let ghost before = config.window_rules@;
                config.window_rules.push(rule);
                proof {
                    let t = s.window_rules.push(kids(*n));
                    assert forall|j: int| 0 <= j < config.window_rules@.len() implies rule_parsed(
                        #[trigger] config.window_rules@[j],
                        t[j],
                    ) by {
                        if j < before.len() {
                            assert(config.window_rules@[j] == before[j]);
                        }
                    }
                }
            }
        }
        i += 1;
    }
    assert(nodes@.take(nodes@.len() as int) =~= nodes@);
    config
}

/// Top-level nodes other than `input`, `layout`, `animations`, `binds`
/// and `window-rule` are ignored (forward compatibility).
pub proof fn law_unknown_nodes_ignored(s: ConfigState, n: ConfigNode)
    requires
        n.name@ != "input"@,
        n.name@ != "layout"@,
        n.name@ != "animations"@,
        n.name@ != "binds"@,
        n.name@ != "window-rule"@,
    ensures
        top_node(s, n) == s,
{
}

/// A document without a `binds` node keeps the default binds.
pub proof fn law_no_binds_node_keeps_defaults(ns: Seq<ConfigNode>, c: Config)
    requires
        forall|i: int| 0 <= i < ns.len() ==> (#[trigger] ns[i]).name@ != "binds"@,
        config_is(c, document_state(ns)),
    ensures
        binds_are(c.binds@, default_bind_table() + workspace_bind_table()),
{
    lemma_no_binds_node(ns);
}

proof fn lemma_no_binds_node(ns: Seq<ConfigNode>)
    requires
        forall|i: int| 0 <= i < ns.len() ==> (#[trigger] ns[i]).name@ != "binds"@,
    ensures
        !document_state(ns).binds_given,
    decreases ns.len(),
{
    if ns.len() > 0 {
        lemma_no_binds_node(ns.drop_last());
        assert(ns.last().name@ != "binds"@);
        lemma_layout_keeps_binds(top_nodes(initial_state(), ns.drop_last()), kids(ns.last()));
    }
}

/// A document with a `binds` node binds exactly what its `binds` nodes
/// name: the default binds no longer hold.
pub proof fn law_binds_node_replaces_defaults(ns: Seq<ConfigNode>, i: int)
    requires
        0 <= i < ns.len(),
        ns[i].name@ == "binds"@,
    ensures
        document_state(ns).binds_given,
    decreases ns.len(),
{
    lemma_layout_keeps_binds(top_nodes(initial_state(), ns.drop_last()), kids(ns.last()));
    if i < ns.len() - 1 {
        assert(ns.drop_last()[i] == ns[i]);
        law_binds_node_replaces_defaults(ns.drop_last(), i);
    } else {
        assert(ns.last() == ns[i]);
        reveal_strlit("binds");
        reveal_strlit("input");
        reveal_strlit("layout");
        reveal_strlit("animations");
        assert("binds"@ != "input"@ && "binds"@ != "layout"@ && "binds"@ != "animations"@) by {
            assert("binds"@[0] != "input"@[0] && "binds"@[0] != "layout"@[0]);
            assert("binds"@.len() != "animations"@.len());
        }
    }
}

proof fn lemma_layout_keeps_binds(s: ConfigState, ns: Seq<ConfigNode>)
    ensures
        layout_children(s, ns).binds == s.binds,
        layout_children(s, ns).binds_given == s.binds_given,
    decreases ns.len(),
{
    if ns.len() > 0 {
        lemma_layout_keeps_binds(s, ns.drop_last());
    }
}

} // verus!

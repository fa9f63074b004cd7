//! Configuration: key bindings, actions, window rules, layout and
//! animation tuning, and their niri-flavored KDL syntax.
use vstd::prelude::*;

pub mod document;
pub mod reader;

use crate::anim::{AnimParams, Easing};
use crate::layout::geometry::{CenterFocused, LayoutParams};
use crate::layout::ColumnWidth;
use crate::text::{
    chars_of, contains_chars, digit_char, digit_of, has_infix, lowercase, push_char, to_lowercase,
};
use document::{kdl_nodes, parse_kdl};
use reader::{config_from_nodes, config_is, document_state};

verus! {

/// A key binding: key combo -> action.
#[derive(Clone, Debug, PartialEq, Eq)]
pub struct Bind {
    /// e.g. "Mod+Shift+Left".
    pub combo: String,
    pub action: Action,
}

/// Everything the window manager can do from a key press.
#[derive(Clone, Debug, PartialEq, Eq)]
pub enum Action {
    Quit,
    CloseWindow,
    Spawn(String),
    FocusColumnLeft,
    FocusColumnRight,
    FocusColumnFirst,
    FocusColumnLast,
    /// Focus the Nth column (counted from one; clamped to the last).
    FocusColumnIndex(u8),
    FocusWindowDown,
    FocusWindowUp,
    MoveColumnLeft,
    MoveColumnRight,
    MoveWindowDown,
    MoveWindowUp,
    MoveWindowToColumnLeft,
    MoveWindowToColumnRight,
    ConsumeOrExpelWindowLeft,
    ConsumeOrExpelWindowRight,
    SetColumnWidth(String),
    ToggleFullWidth,
    MaximizeColumn,
    ToggleWindowedFullscreen,
    SetWindowHeight(String),
    FocusWorkspace(u8),
    WorkspaceSwitch(u8),
    MoveWindowToWorkspace(u8),
    MoveColumnToWorkspace(u8),
    ToggleWindowFloating,
    ToggleOverview,
    /// Cover the screen for a moment while management pauses.
    DoScreenTransition,
    Unknown(String),
}

impl Action {
    /// An identical copy of this action.
    pub fn duplicate(&self) -> (r: Action)
        ensures
            r == *self,
    {
        match self {
            Action::Quit => Action::Quit,
            Action::CloseWindow => Action::CloseWindow,
            Action::Spawn(s) => Action::Spawn(s.clone()),
            Action::FocusColumnLeft => Action::FocusColumnLeft,
            Action::FocusColumnRight => Action::FocusColumnRight,
            Action::FocusColumnFirst => Action::FocusColumnFirst,
            Action::FocusColumnLast => Action::FocusColumnLast,
            Action::FocusColumnIndex(n) => Action::FocusColumnIndex(*n),
            Action::FocusWindowDown => Action::FocusWindowDown,
            Action::FocusWindowUp => Action::FocusWindowUp,
            Action::MoveColumnLeft => Action::MoveColumnLeft,
            Action::MoveColumnRight => Action::MoveColumnRight,
            Action::MoveWindowDown => Action::MoveWindowDown,
            Action::MoveWindowUp => Action::MoveWindowUp,
            Action::MoveWindowToColumnLeft => Action::MoveWindowToColumnLeft,
            Action::MoveWindowToColumnRight => Action::MoveWindowToColumnRight,
            Action::ConsumeOrExpelWindowLeft => Action::ConsumeOrExpelWindowLeft,
            Action::ConsumeOrExpelWindowRight => Action::ConsumeOrExpelWindowRight,
            Action::SetColumnWidth(s) => Action::SetColumnWidth(s.clone()),
            Action::ToggleFullWidth => Action::ToggleFullWidth,
            Action::MaximizeColumn => Action::MaximizeColumn,
            Action::ToggleWindowedFullscreen => Action::ToggleWindowedFullscreen,
            Action::SetWindowHeight(s) => Action::SetWindowHeight(s.clone()),
            Action::FocusWorkspace(n) => Action::FocusWorkspace(*n),
            Action::WorkspaceSwitch(n) => Action::WorkspaceSwitch(*n),
            Action::MoveWindowToWorkspace(n) => Action::MoveWindowToWorkspace(*n),
            Action::MoveColumnToWorkspace(n) => Action::MoveColumnToWorkspace(*n),
            Action::ToggleWindowFloating => Action::ToggleWindowFloating,
            Action::ToggleOverview => Action::ToggleOverview,
            Action::DoScreenTransition => Action::DoScreenTransition,
            Action::Unknown(s) => Action::Unknown(s.clone()),
        }
    }
}

/// Which physical key acts as "Mod".
#[derive(Clone, Copy, Debug, PartialEq, Eq, Structural)]
pub enum ModKey {
    Alt,
    Super,
    Ctrl,
}

/// Animation tuning, per animation kind (niri-style `animations` node).
#[derive(Clone, Copy, Debug, PartialEq, Eq, Structural)]
pub struct AnimationsConfig {
    /// Master switch: `animations { off; }` makes every animation snap.
    pub enabled: bool,
    pub window_movement: AnimParams,
    pub window_open: AnimParams,
    pub view_offset: AnimParams,
}

impl AnimationsConfig {
    /// Enabled; window movement 250 ms ease-out-cubic, window open 150 ms
    /// ease-out-cubic, view offset 250 ms ease-out-expo.
    pub open spec fn spec_default() -> AnimationsConfig {
        AnimationsConfig {
            enabled: true,
            window_movement: AnimParams::spec_default(),
            window_open: AnimParams { duration_ms: 150, easing: Easing::EaseOutCubic },
            view_offset: AnimParams { duration_ms: 250, easing: Easing::EaseOutExpo },
        }
    }
}

impl Default for AnimationsConfig {
    fn default() -> (r: AnimationsConfig)
        ensures
            r == AnimationsConfig::spec_default(),
    {
        AnimationsConfig {
            enabled: true,
            window_movement: AnimParams::default(),
            window_open: AnimParams { duration_ms: 150, easing: Easing::EaseOutCubic },
            view_offset: AnimParams { duration_ms: 250, easing: Easing::EaseOutExpo },
        }
    }
}

/// Niri's `layout { focus-ring { ... } }`: the outline drawn around the
/// focused window.
#[derive(Clone, Copy, Debug, PartialEq, Eq, Structural)]
pub struct FocusRingConfig {
    pub enabled: bool,
    /// Ring thickness in pixels.
    pub width: i32,
    /// Active color as 0xRRGGBB.
    pub active_color: u32,
}

impl FocusRingConfig {
    /// Enabled, 4 pixels wide, color 0x7DAEA3.
    pub open spec fn spec_default() -> FocusRingConfig {
        FocusRingConfig { enabled: true, width: 4, active_color: 0x7D_AEA3 }
    }
}

impl Default for FocusRingConfig {
    fn default() -> (r: FocusRingConfig)
        ensures
            r == FocusRingConfig::spec_default(),
    {
        FocusRingConfig { enabled: true, width: 4, active_color: 0x7D_AEA3 }
    }
}

/// A niri-style window rule: when a newly opened window matches, the
/// rule's `open-*` properties are applied to it.  Matching is a
/// case-insensitive substring test on exe (niri's app-id equivalent),
/// title and/or class; every specified field must match.
#[derive(Clone, Debug, PartialEq, Eq)]
pub struct WindowRule {
    pub match_exe: Option<String>,
    pub match_title: Option<String>,
    pub match_class: Option<String>,
    pub open_floating: bool,
    /// 1-based workspace index.
    pub open_workspace: Option<u8>,
    pub open_maximized: bool,
    pub open_fullscreen: bool,
}

/// Does the text `hay` pass the filter `needle` (absent: always;
/// present: case-insensitive substring)?
pub open spec fn field_matches(hay: Seq<char>, needle: Option<String>) -> bool {
    match needle {
        Some(n) => has_infix(lowercase(hay), lowercase(n@)),
        None => true,
    }
}

/// Does a window with these strings match `rule`?
pub open spec fn rule_matches(
    rule: WindowRule,
    exe: Seq<char>,
    title: Seq<char>,
    class: Seq<char>,
) -> bool {
    field_matches(exe, rule.match_exe) && field_matches(title, rule.match_title) && field_matches(
        class,
        rule.match_class,
    )
}

/// The index of the first rule of `rules` that matches, if any.
pub open spec fn first_match(
    rules: Seq<WindowRule>,
    exe: Seq<char>,
    title: Seq<char>,
    class: Seq<char>,
) -> Option<int> {
    if exists|i: int| 0 <= i < rules.len() && rule_matches(rules[i], exe, title, class) {
        Some(
            choose|i: int|
                0 <= i < rules.len() && rule_matches(rules[i], exe, title, class) && forall|j: int|
                    0 <= j < i ==> !rule_matches(rules[j], exe, title, class),
        )
    } else {
        None
    }
}

/// Case-insensitive substring filter on one field.
fn field_filter(hay: &str, needle: &Option<String>) -> (r: bool)
    ensures
        r == field_matches(hay@, *needle),
{
    match needle {
        Some(n) => {
            let h = to_lowercase(hay);
            let nl = to_lowercase(n.as_str());
            let hc = chars_of(h.as_str());
            let nc = chars_of(nl.as_str());
            contains_chars(hc.as_slice(), nc.as_slice())
        },
        None => true,
    }
}

impl WindowRule {
    /// A rule that matches every window and changes nothing.
    pub open spec fn spec_default() -> WindowRule {
        WindowRule {
            match_exe: None,
            match_title: None,
            match_class: None,
            open_floating: false,
            open_workspace: None,
            open_maximized: false,
            open_fullscreen: false,
        }
    }

    /// Does a window with these strings match this rule?
    pub fn matches(&self, exe: &str, title: &str, class: &str) -> (r: bool)
        ensures
            r == rule_matches(*self, exe@, title@, class@),
    {
        field_filter(exe, &self.match_exe) && field_filter(title, &self.match_title)
            && field_filter(class, &self.match_class)
    }
}

/// A rule that names no field matches every window.
pub proof fn law_rule_without_fields_matches_all(
    rule: WindowRule,
    exe: Seq<char>,
    title: Seq<char>,
    class: Seq<char>,
)
    requires
        rule.match_exe is None,
        rule.match_title is None,
        rule.match_class is None,
    ensures
        rule_matches(rule, exe, title, class),
{
}

impl Default for WindowRule {
    fn default() -> (r: WindowRule)
        ensures
            r == WindowRule::spec_default(),
    {
        WindowRule {
            match_exe: None,
            match_title: None,
            match_class: None,
            open_floating: false,
            open_workspace: None,
            open_maximized: false,
            open_fullscreen: false,
        }
    }
}

/// A binding of `action` to the key combo `combo`.
pub fn bind(combo: &str, action: Action) -> (b: Bind)
    ensures
        b.combo@ == combo@,
        b.action == action,
{
    Bind { combo: combo.to_owned(), action }
}

/// Niri's default binds (the navigation subset implemented here), as
/// (combo, action) pairs in order.
pub open spec fn default_bind_table() -> Seq<(Seq<char>, Action)> {
    seq![
        ("Mod+Left"@, Action::FocusColumnLeft),
        ("Mod+Down"@, Action::FocusWindowDown),
        ("Mod+Up"@, Action::FocusWindowUp),
        ("Mod+Right"@, Action::FocusColumnRight),
        ("Mod+H"@, Action::FocusColumnLeft),
        ("Mod+J"@, Action::FocusWindowDown),
        ("Mod+K"@, Action::FocusWindowUp),
        ("Mod+L"@, Action::FocusColumnRight),
        ("Mod+Shift+Left"@, Action::MoveColumnLeft),
        ("Mod+Shift+Down"@, Action::MoveWindowDown),
        ("Mod+Shift+Up"@, Action::MoveWindowUp),
        ("Mod+Shift+Right"@, Action::MoveColumnRight),
        ("Mod+Shift+H"@, Action::MoveColumnLeft),
        ("Mod+Shift+J"@, Action::MoveWindowDown),
        ("Mod+Shift+K"@, Action::MoveWindowUp),
        ("Mod+Shift+L"@, Action::MoveColumnRight),
        ("Mod+Ctrl+Left"@, Action::MoveWindowToColumnLeft),
        ("Mod+Ctrl+Right"@, Action::MoveWindowToColumnRight),
        ("Mod+Ctrl+H"@, Action::MoveWindowToColumnLeft),
        ("Mod+Ctrl+L"@, Action::MoveWindowToColumnRight),
        ("Mod+Ctrl+J"@, Action::ConsumeOrExpelWindowLeft),
        ("Mod+Ctrl+K"@, Action::ConsumeOrExpelWindowRight),
        ("Mod+Page_Down"@, Action::FocusColumnRight),
        ("Mod+Page_Up"@, Action::FocusColumnLeft),
        ("Mod+WheelScrollDown"@, Action::FocusColumnRight),
        ("Mod+WheelScrollUp"@, Action::FocusColumnLeft),
        ("Mod+Ctrl+WheelScrollDown"@, Action::MoveColumnRight),
        ("Mod+Ctrl+WheelScrollUp"@, Action::MoveColumnLeft),
        ("Mod+Home"@, Action::FocusColumnFirst),
        ("Mod+End"@, Action::FocusColumnLast),
        ("Mod+F"@, Action::MaximizeColumn),
        ("Mod+Shift+F"@, Action::ToggleWindowedFullscreen),
        ("Mod+V"@, Action::ToggleWindowFloating),
        ("Mod+Q"@, Action::CloseWindow),
        ("Mod+Shift+Slash"@, Action::ToggleOverview),
        ("Mod+Shift+E"@, Action::Quit),
    ]
}

/// The numeric binds for `1..=9`: `Mod+N` focuses workspace N,
/// `Mod+Ctrl+N` moves the focused column there and `Mod+Shift+N` focuses
/// the Nth column, in that
/// order for each N.
pub open spec fn workspace_bind_table() -> Seq<(Seq<char>, Action)> {
    Seq::new(
        27,
        |i: int|
            {
                let n = (i / 3 + 1) as u8;
                if i % 3 == 0 {
                    ("Mod+"@.push(digit_char(n)), Action::FocusWorkspace(n))
                } else if i % 3 == 1 {
                    ("Mod+Ctrl+"@.push(digit_char(n)), Action::MoveColumnToWorkspace(n))
                } else {
                    ("Mod+Shift+"@.push(digit_char(n)), Action::FocusColumnIndex(n))
                }
            },
    )
}

/// The binds `binds` spell exactly the (combo, action) pairs of `table`.
pub open spec fn binds_are(binds: Seq<Bind>, table: Seq<(Seq<char>, Action)>) -> bool {
    &&& binds.len() == table.len()
    &&& forall|i: int|
        0 <= i < binds.len() ==> (#[trigger] binds[i]).combo@ == table[i].0 && binds[i].action
            == table[i].1
}

/// Full configuration.
#[derive(Clone, Debug)]
pub struct Config {
    pub mod_key: ModKey,
    /// `input { focus-follows-mouse; }`: hovering a window focuses it.
    pub focus_follows_mouse: bool,
    pub layout: LayoutParams,
    pub focus_ring: FocusRingConfig,
    pub animations: AnimationsConfig,
    pub binds: Vec<Bind>,
    pub window_rules: Vec<WindowRule>,
}

impl Config {
    /// The default settings apart from the binds: Alt as Mod, no
    /// focus-follows-mouse, niri's layout defaults, the default focus
    /// ring and animations, no window rules.
    pub open spec fn has_default_settings(self) -> bool {
        &&& self.mod_key == ModKey::Alt
        &&& !self.focus_follows_mouse
        &&& self.layout.is_default()
        &&& self.focus_ring == FocusRingConfig::spec_default()
        &&& self.animations == AnimationsConfig::spec_default()
        &&& self.window_rules@.len() == 0
    }

    /// Append the numeric binds (Mod+N, Mod+Ctrl+N, Mod+Shift+N).
    fn with_workspace_binds(self) -> (r: Config)
        ensures
            r.mod_key == self.mod_key,
            r.focus_follows_mouse == self.focus_follows_mouse,
            r.layout == self.layout,
            r.focus_ring == self.focus_ring,
            r.animations == self.animations,
            r.window_rules == self.window_rules,
            r.binds@.len() == self.binds@.len() + 27,
            forall|i: int| 0 <= i < self.binds@.len() ==> r.binds@[i] == self.binds@[i],
            binds_are(r.binds@.skip(self.binds@.len() as int), workspace_bind_table()),
    {
        let mut cfg = self;
        let ghost start = cfg.binds@;
        let mut n: u8 = 1;
        while n <= 9
            invariant
                1 <= n <= 10,
                cfg.mod_key == self.mod_key,
                cfg.focus_follows_mouse == self.focus_follows_mouse,
                cfg.layout == self.layout,
                cfg.focus_ring == self.focus_ring,
                cfg.animations == self.animations,
                cfg.window_rules == self.window_rules,
                start == self.binds@,
                cfg.binds@.len() == start.len() + 3 * (n - 1),
                forall|i: int| 0 <= i < start.len() ==> cfg.binds@[i] == start[i],
                binds_are(
                    cfg.binds@.skip(start.len() as int),
                    workspace_bind_table().take(3 * (n - 1)),
                ),
            decreases 10 - n,
        {
            let d = digit_of(n);
            let mut focus = "Mod+".to_owned();
            push_char(&mut focus, d);
            let mut move_col = "Mod+Ctrl+".to_owned();
            push_char(&mut move_col, d);
            let mut focus_col = "Mod+Shift+".to_owned();
            push_char(&mut focus_col, d);
            let ghost before = cfg.binds@;
            cfg.binds.push(Bind { combo: focus, action: Action::FocusWorkspace(n) });
            cfg.binds.push(Bind { combo: move_col, action: Action::MoveColumnToWorkspace(n) });
            cfg.binds.push(Bind { combo: focus_col, action: Action::FocusColumnIndex(n) });
            proof {
                let t = workspace_bind_table();
                let k = 3 * (n - 1);
                let tail = cfg.binds@.skip(start.len() as int);
                assert forall|i: int| 0 <= i < tail.len() implies (#[trigger] tail[i]).combo@ == t.take(
                    k + 3,
                )[i].0 && tail[i].action == t.take(k + 3)[i].1 by {
                    if i < k {
                        assert(tail[i] == before.skip(start.len() as int)[i]);
                        assert(t.take(k + 2)[i] == t.take(k)[i]);
                    }
                }
            }
            n += 1;
        }
        assert(workspace_bind_table().take(27) =~= workspace_bind_table());
        cfg
    }
}

impl Config {
    /// The first rule matching the given window, if any.
    pub fn match_rule(&self, exe: &str, title: &str, class: &str) -> (r: Option<&WindowRule>)
        ensures
            match first_match(self.window_rules@, exe@, title@, class@) {
                Some(i) => r == Some(&self.window_rules@[i]),
                None => r is None,
            },
    {
        let rules = &self.window_rules;
        let mut i: usize = 0;
        while i < rules.len()
            invariant
                rules == &self.window_rules,
                0 <= i <= rules.len(),
                forall|j: int| 0 <= j < i ==> !rule_matches(rules@[j], exe@, title@, class@),
            decreases rules.len() - i,
        {
            if rules[i].matches(exe, title, class) {
                proof {
                    let ii = i as int;
                    assert(rule_matches(rules@[ii], exe@, title@, class@));
                    let w = choose|k: int|
                        0 <= k < rules@.len() && rule_matches(rules@[k], exe@, title@, class@)
                            && forall|j: int|
                            0 <= j < k ==> !rule_matches(rules@[j], exe@, title@, class@);
                    assert(0 <= w < rules@.len() && rule_matches(rules@[w], exe@, title@, class@)
                        && forall|j: int|
                        0 <= j < w ==> !rule_matches(rules@[j], exe@, title@, class@));
                    if w < ii {
                        assert(!rule_matches(rules@[w], exe@, title@, class@));
                    } else if w > ii {
                        assert(!rule_matches(rules@[ii], exe@, title@, class@));
                    }
                    assert(w == ii);
                    assert(first_match(rules@, exe@, title@, class@) == Some(ii));
                }
                return Some(&rules[i]);
            }
            i += 1;
        }
        None
    }
}

impl LayoutParams {
    /// The layout defaults (see [`LayoutParams::default`]).
    pub open spec fn is_default(self) -> bool {
        &&& self.gaps == 8_000_000
        &&& self.edge_padding == 8_000_000
        &&& self.default_column_width == ColumnWidth::Proportion(250_000)
        &&& self.preset_column_widths@ == seq![
            ColumnWidth::Proportion(333_330),
            ColumnWidth::Proportion(500_000),
            ColumnWidth::Proportion(666_670),
        ]
        &&& self.center_focused_column == CenterFocused::OnOverflow
    }
}

impl Default for Config {
    /// Alt as Mod, niri's layout defaults, and niri's default binds
    /// followed by the numeric workspace binds.
    fn default() -> (r: Config)
        ensures
            r.has_default_settings(),
            binds_are(r.binds@, default_bind_table() + workspace_bind_table()),
    {
        let mut binds: Vec<Bind> = Vec::new();
        binds.push(bind("Mod+Left", Action::FocusColumnLeft));
        binds.push(bind("Mod+Down", Action::FocusWindowDown));
        binds.push(bind("Mod+Up", Action::FocusWindowUp));
        binds.push(bind("Mod+Right", Action::FocusColumnRight));
        binds.push(bind("Mod+H", Action::FocusColumnLeft));
        binds.push(bind("Mod+J", Action::FocusWindowDown));
        binds.push(bind("Mod+K", Action::FocusWindowUp));
        binds.push(bind("Mod+L", Action::FocusColumnRight));
        binds.push(bind("Mod+Shift+Left", Action::MoveColumnLeft));
        binds.push(bind("Mod+Shift+Down", Action::MoveWindowDown));
        binds.push(bind("Mod+Shift+Up", Action::MoveWindowUp));
        binds.push(bind("Mod+Shift+Right", Action::MoveColumnRight));
        binds.push(bind("Mod+Shift+H", Action::MoveColumnLeft));
        binds.push(bind("Mod+Shift+J", Action::MoveWindowDown));
        binds.push(bind("Mod+Shift+K", Action::MoveWindowUp));
        binds.push(bind("Mod+Shift+L", Action::MoveColumnRight));
        binds.push(bind("Mod+Ctrl+Left", Action::MoveWindowToColumnLeft));
        binds.push(bind("Mod+Ctrl+Right", Action::MoveWindowToColumnRight));
        binds.push(bind("Mod+Ctrl+H", Action::MoveWindowToColumnLeft));
        binds.push(bind("Mod+Ctrl+L", Action::MoveWindowToColumnRight));
        binds.push(bind("Mod+Ctrl+J", Action::ConsumeOrExpelWindowLeft));
        binds.push(bind("Mod+Ctrl+K", Action::ConsumeOrExpelWindowRight));
        binds.push(bind("Mod+Page_Down", Action::FocusColumnRight));
        binds.push(bind("Mod+Page_Up", Action::FocusColumnLeft));
        binds.push(bind("Mod+WheelScrollDown", Action::FocusColumnRight));
        binds.push(bind("Mod+WheelScrollUp", Action::FocusColumnLeft));
        binds.push(bind("Mod+Ctrl+WheelScrollDown", Action::MoveColumnRight));
        binds.push(bind("Mod+Ctrl+WheelScrollUp", Action::MoveColumnLeft));
        binds.push(bind("Mod+Home", Action::FocusColumnFirst));
        binds.push(bind("Mod+End", Action::FocusColumnLast));
        binds.push(bind("Mod+F", Action::MaximizeColumn));
        binds.push(bind("Mod+Shift+F", Action::ToggleWindowedFullscreen));
        binds.push(bind("Mod+V", Action::ToggleWindowFloating));
        binds.push(bind("Mod+Q", Action::CloseWindow));
        binds.push(bind("Mod+Shift+Slash", Action::ToggleOverview));
        binds.push(bind("Mod+Shift+E", Action::Quit));
        let ghost base = binds@;
        assert(binds_are(base, default_bind_table()));
        let cfg = Config {
            mod_key: ModKey::Alt,
            focus_follows_mouse: false,
            layout: LayoutParams::default(),
            focus_ring: FocusRingConfig::default(),
            animations: AnimationsConfig::default(),
            binds,
            window_rules: Vec::new(),
        };
        let r = cfg.with_workspace_binds();
        proof {
            let t = default_bind_table() + workspace_bind_table();
            assert forall|i: int| 0 <= i < r.binds@.len() implies (#[trigger] r.binds@[i]).combo@
                == t[i].0 && r.binds@[i].action == t[i].1 by {
                if i >= 36 {
                    assert(r.binds@[i] == r.binds@.skip(36)[i - 36]);
                }
            }
        }
        r
    }
}

/// Parse KDL text into a configuration (see
/// [`reader::config_from_nodes`]); a KDL syntax error is reported as
/// `KDL syntax: ` and the parser's message.
pub fn parse(source: &str) -> (r: Result<Config, String>)
    ensures
        match kdl_nodes(source@) {
            Ok(nodes) => r matches Ok(c) && config_is(c, document_state(nodes)),
            Err(e) => r matches Err(m) && m@ == "KDL syntax: "@ + e,
        },
{
    match parse_kdl(source) {
        Ok(nodes) => Ok(config_from_nodes(nodes.as_slice())),
        Err(e) => {
            let mut m = "KDL syntax: ".to_owned();
            m.append(e.as_str());
            Err(m)
        },
    }
}


/// A rule applies to a window exactly when every field it lists is found,
/// ignoring case, in that field of the window: the exe name, the title
/// and the class alike; a field it does not list does not matter.
pub proof fn law_rule_needs_every_listed_field(
    rule: WindowRule,
    exe: Seq<char>,
    title: Seq<char>,
    class: Seq<char>,
)
    ensures
        rule_matches(rule, exe, title, class) <==> ({
            &&& (rule.match_exe matches Some(e) ==> has_infix(lowercase(exe), lowercase(e@)))
            &&& (rule.match_title matches Some(t) ==> has_infix(lowercase(title), lowercase(t@)))
            &&& (rule.match_class matches Some(c) ==> has_infix(lowercase(class), lowercase(c@)))
        }),
{
}


/// The first rule that matches wins: the rule chosen for a window matches
/// it and no rule before it does; no rule is chosen only when none
/// matches.
pub proof fn law_first_matching_rule_wins(
    rules: Seq<WindowRule>,
    exe: Seq<char>,
    title: Seq<char>,
    class: Seq<char>,
)
    ensures
        first_match(rules, exe, title, class) matches Some(i) ==> {
            &&& 0 <= i < rules.len()
            &&& rule_matches(rules[i], exe, title, class)
            &&& forall|j: int| 0 <= j < i ==> !rule_matches(rules[j], exe, title, class)
        },
        first_match(rules, exe, title, class) is None ==> forall|j: int|
            0 <= j < rules.len() ==> !rule_matches(rules[j], exe, title, class),
{
    if exists|i: int| 0 <= i < rules.len() && rule_matches(rules[i], exe, title, class) {
        let i = choose|i: int| 0 <= i < rules.len() && rule_matches(rules[i], exe, title, class);
        lemma_first_rule(rules, exe, title, class, i);
    }
}

proof fn lemma_first_rule(
    rules: Seq<WindowRule>,
    exe: Seq<char>,
    title: Seq<char>,
    class: Seq<char>,
    i: int,
)
    requires
        0 <= i < rules.len(),
        rule_matches(rules[i], exe, title, class),
    ensures
        exists|k: int|
            0 <= k < rules.len() && rule_matches(rules[k], exe, title, class) && forall|j: int|
                0 <= j < k ==> !rule_matches(rules[j], exe, title, class),
    decreases i,
{
    if exists|j: int| 0 <= j < i && rule_matches(rules[j], exe, title, class) {
        let j = choose|j: int| 0 <= j < i && rule_matches(rules[j], exe, title, class);
        lemma_first_rule(rules, exe, title, class, j);
    } else {
        assert(forall|j: int| 0 <= j < i ==> !rule_matches(rules[j], exe, title, class));
    }
}

} // verus!

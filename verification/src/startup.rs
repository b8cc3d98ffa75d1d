//! What is decided when the program starts.
use vstd::prelude::*;
use vstd::string::*;
use crate::keymap::Action;
use crate::settings::{clamp, clamped, Settings, SettingsModel, MAX_OPACITY, MIN_OPACITY};
use crate::text::{parse_number, same_text, views, whole_number};

verus! {

broadcast use vstd::string::group_string_axioms;

/// The running build's identity: its version, and what it was built from, if that is
/// known.
pub fn version_string(version: &str, built_from: Option<&str>) -> (r: String)
    ensures
        r@ == (match built_from {
            Some(g) if g@.len() > 0 => "rt "@ + version@ + " ("@ + g@ + ")"@,
            _ => "rt "@ + version@,
        }),
{
    let mut s: String = "rt ".to_string();
    s.append(version);
    if let Some(g) = built_from {
        if !g.is_empty() {
            s.append(" (");
            s.append(g);
            s.append(")");
        }
    }
    s
}

/// What overrides the settings for one run. Sizes and opacities are in thousandths.
pub struct Overrides {
    /// From the environment: an opacity, and how the focus moves.
    pub opacity: Option<i64>,
    pub focus: Option<String>,
    /// From the command line: a font and its size.
    pub font: Option<String>,
    pub font_size: Option<i64>,
}

/// Whether a word asks for the focus to follow the pointer.
pub open spec fn asks_to_follow(word: Seq<char>) -> bool {
    word == "sloppy"@ || word == "mouse"@ || word == "follow"@ || word == "1"@
}

/// The settings with the overrides: an opacity within its bounds, a font size of at least
/// a pixel.
pub open spec fn overridden(m: SettingsModel, o: Overrides) -> SettingsModel {
    SettingsModel {
        background_opacity: match o.opacity {
            Some(x) => clamped(x as int, MIN_OPACITY as int, MAX_OPACITY as int),
            None => m.background_opacity,
        },
        focus_follows_mouse: match o.focus {
            Some(w) => asks_to_follow(w@),
            None => m.focus_follows_mouse,
        },
        font_family: match o.font {
            Some(f) => f@,
            None => m.font_family,
        },
        font_size: match o.font_size {
            Some(x) => clamped(x as int, 1_000, u32::MAX as int),
            None => m.font_size,
        },
        ..m
    }
}

/// Put the overrides over the settings.
pub fn apply_overrides(s: &mut Settings, o: &Overrides)
    ensures
        final(s)@ == overridden(old(s)@, *o),
{
    if let Some(x) = o.opacity {
        s.background_opacity = clamp(x, MIN_OPACITY as i64, MAX_OPACITY as i64) as u32;
    }
    if let Some(w) = &o.focus {
        s.focus_follows_mouse = same_text(w.as_str(), "sloppy") || same_text(w.as_str(), "mouse") || same_text(
            w.as_str(),
            "follow",
        ) || same_text(w.as_str(), "1");
    }
    if let Some(f) = &o.font {
        s.font_family = f.clone();
    }
    if let Some(x) = o.font_size {
        s.font_size = clamp(x, 1_000, u32::MAX as i64) as u32;
    }
}

/// The grid that the command line pins the window to: only where it gives both of its
/// sides, and neither is nothing.
pub fn pinned_grid(cols: Option<usize>, rows: Option<usize>) -> (r: Option<(usize, usize)>)
    ensures
        r == (match (cols, rows) {
            (Some(c), Some(n)) if c > 0 && n > 0 => Some((c, n)),
            _ => None,
        }),
{
    match (cols, rows) {
        (Some(c), Some(n)) => if c > 0 && n > 0 {
            Some((c, n))
        } else {
            None
        },
        _ => None,
    }
}

/// The command that a pane runs before its shell: the given one, and then a shell.
pub fn startup_shell(command: &str) -> (r: (String, Vec<String>))
    ensures
        r.0@ == "/bin/sh"@,
        views(r.1@) == seq!["-c"@, command@ + "; exec /bin/sh -i"@],
{
    let mut line: String = command.to_string();
    line.append("; exec /bin/sh -i");
    let mut args: Vec<String> = Vec::new();
    args.push("-c".to_string());
    args.push(line);
    assert(views(args@) =~= seq!["-c"@, command@ + "; exec /bin/sh -i"@]);
    ("/bin/sh".to_string(), args)
}

/// What the environment asks to be laid out at startup.
pub struct Layout {
    pub split: Option<String>,
    pub columns: Option<String>,
    pub tabs: Option<String>,
    pub zoom: bool,
    pub groups: bool,
    pub broadcast: Option<String>,
}

/// `action`, so often that there are `n` of what it makes one more of, from one.
pub open spec fn up_to(action: Action, count: Option<String>) -> Seq<Action> {
    match count {
        Some(text) => match whole_number(text@, u16::MAX as nat) {
            Some(n) => Seq::new(
                (if n > 0 {
                    n - 1
                } else {
                    0
                }) as nat,
                |i: int| action,
            ),
            None => Seq::empty(),
        },
        None => Seq::empty(),
    }
}

/// The one action that a word asks for.
pub open spec fn asked(word: Option<String>, a: Seq<char>, on_a: Action, b: Seq<char>, on_b: Action) -> Seq<Action> {
    match word {
        Some(w) => if w@ == a {
            seq![on_a]
        } else if w@ == b {
            seq![on_b]
        } else {
            Seq::empty()
        },
        None => Seq::empty(),
    }
}

/// Three panes, each in a group of its own.
pub open spec fn demo_groups() -> Seq<Action> {
    seq![
        Action::GroupCycle,
        Action::SplitVert,
        Action::GroupCycle,
        Action::GroupCycle,
        Action::SplitHoriz,
        Action::GroupCycle,
        Action::GroupCycle,
        Action::GroupCycle,
    ]
}

/// What is done at startup.
pub open spec fn layout_actions(l: Layout) -> Seq<Action> {
    asked(l.split, "h"@, Action::SplitHoriz, "v"@, Action::SplitVert) + up_to(Action::ColumnsMore, l.columns)
        + up_to(Action::NewTab, l.tabs) + (if l.zoom {
        seq![Action::ToggleZoom]
    } else {
        Seq::empty()
    }) + (if l.groups {
        demo_groups()
    } else {
        Seq::empty()
    }) + asked(l.broadcast, "all"@, Action::BroadcastAll, "group"@, Action::BroadcastGroup)
}

fn push_asked(out: &mut Vec<Action>, word: &Option<String>, a: &str, on_a: Action, b: &str, on_b: Action)
    ensures
        final(out)@ == old(out)@ + asked(*word, a@, on_a, b@, on_b),
{
    if let Some(w) = word {
        if same_text(w.as_str(), a) {
            out.push(on_a);
        } else if same_text(w.as_str(), b) {
            out.push(on_b);
        }
    }
    assert(out@ =~= old(out)@ + asked(*word, a@, on_a, b@, on_b));
}

fn push_up_to(out: &mut Vec<Action>, action: Action, count: &Option<String>)
    ensures
        final(out)@ == old(out)@ + up_to(action, *count),
{
    if let Some(text) = count {
        if let Some(n) = parse_number(text.as_str(), u16::MAX as u64) {
            let ghost all = up_to(action, *count);
            let mut i: u64 = 1;
            assert(out@ =~= old(out)@ + all.take(0));
            while i < n
                invariant
                    1 <= i,
                    i <= n || i == 1,
                    n <= u16::MAX,
                    all == up_to(action, *count),
                    all.len() == (if n > 0 {
                        n - 1
                    } else {
                        0
                    }),
                    forall|k: int| 0 <= k < all.len() ==> all[k] == action,
                    out@ == old(out)@ + all.take(i - 1),
                decreases n - i,
            {
                out.push(action);
                assert(all.take(i as int) =~= all.take(i - 1).push(action));
                i = i + 1;
                assert(out@ =~= old(out)@ + all.take(i - 1));
            }
            assert(all.take(i - 1) =~= all);
            return;
        }
    }
    assert(out@ =~= old(out)@ + up_to(action, *count));
}

/// What is done at startup, in order: a split, columns, tabs, zoom, groups, broadcast.
pub fn startup_actions(l: &Layout) -> (r: Vec<Action>)
    ensures
        r@ == layout_actions(*l),
{
    let mut out: Vec<Action> = Vec::new();
    push_asked(&mut out, &l.split, "h", Action::SplitHoriz, "v", Action::SplitVert);
    push_up_to(&mut out, Action::ColumnsMore, &l.columns);
    push_up_to(&mut out, Action::NewTab, &l.tabs);
    if l.zoom {
        out.push(Action::ToggleZoom);
    }
    if l.groups {
        out.push(Action::GroupCycle);
        out.push(Action::SplitVert);
        out.push(Action::GroupCycle);
        out.push(Action::GroupCycle);
        out.push(Action::SplitHoriz);
        out.push(Action::GroupCycle);
        out.push(Action::GroupCycle);
        out.push(Action::GroupCycle);
    }
    push_asked(&mut out, &l.broadcast, "all", Action::BroadcastAll, "group", Action::BroadcastGroup);
    assert(out@ =~= layout_actions(*l));
    out
}

/// A configuration that the graphics system offers: whether windows can be seen through,
/// and how fine its alpha and its edges are.
#[derive(Debug, Clone, Copy, PartialEq, Eq, Structural)]
pub struct GlConfig {
    pub transparent: bool,
    pub alpha: u8,
    pub samples: u8,
}

/// Whether a configuration is better than another: transparency before alpha, alpha
/// before edges.
pub open spec fn beats(b: GlConfig, a: GlConfig) -> bool {
    if b.transparent != a.transparent {
        b.transparent
    } else {
        b.alpha > a.alpha || (b.alpha == a.alpha && b.samples > a.samples)
    }
}

/// Whether the configuration at `i` is the best of several: none beats it, and it beats
/// all before it.
pub open spec fn best_at(configs: Seq<GlConfig>, i: int) -> bool {
    &&& 0 <= i < configs.len()
    &&& forall|j: int| 0 <= j < configs.len() ==> !beats(#[trigger] configs[j], configs[i])
    &&& forall|j: int| 0 <= j < i ==> beats(configs[i], #[trigger] configs[j])
}

fn better(b: GlConfig, a: GlConfig) -> (r: bool)
    ensures
        r == beats(b, a),
{
    if b.transparent != a.transparent {
        b.transparent
    } else {
        b.alpha > a.alpha || (b.alpha == a.alpha && b.samples > a.samples)
    }
}

/// The best configuration: the first that no other beats.
pub fn choose_config(configs: &Vec<GlConfig>) -> (r: Option<usize>)
    ensures
        r is None <==> configs@.len() == 0,
        r is Some ==> best_at(configs@, r->0 as int),
{
    if configs.len() == 0 {
        return None;
    }
    let mut best: usize = 0;
    let mut i: usize = 1;
    while i < configs.len()
        invariant
            best < i <= configs@.len(),
            forall|j: int| 0 <= j < i ==> !beats(#[trigger] configs@[j], configs@[best as int]),
            forall|j: int| 0 <= j < best ==> beats(configs@[best as int], #[trigger] configs@[j]),
        decreases configs@.len() - i,
    {
        if better(configs[i], configs[best]) {
            best = i;
        }
        i = i + 1;
    }
    Some(best)
}

/// There is only one best configuration.
pub proof fn the_best_configuration_is_one(configs: Seq<GlConfig>, i: int, j: int)
    requires
        best_at(configs, i),
        best_at(configs, j),
    ensures
        i == j,
{
    if i < j {
        assert(beats(configs[j], configs[i]));
    } else if j < i {
        assert(beats(configs[i], configs[j]));
    }
}

/// The windowing system to ask for.
#[derive(Debug, Clone, Copy, PartialEq, Eq, Structural)]
pub enum Windowing {
    /// Whatever the environment already asks for.
    Unchanged,
    Wayland,
    X11,
}

/// The windowing system to ask for: Wayland itself in a session of it, and X11 in any
/// other, unless the environment asks for one.
pub fn windowing(asked_for: bool, wayland_session: bool) -> (r: Windowing)
    ensures
        r == (if asked_for {
            Windowing::Unchanged
        } else if wayland_session {
            Windowing::Wayland
        } else {
            Windowing::X11
        }),
{
    if asked_for {
        Windowing::Unchanged
    } else if wayland_session {
        Windowing::Wayland
    } else {
        Windowing::X11
    }
}

} // verus!

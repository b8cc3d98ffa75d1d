//! What is decided when the program starts: what the command line and the environment ask for.
use vstd::prelude::*;
use vstd::string::*;
use crate::cli::{
    cli_outcome, equals_at, inline_value, no_overrides, option_name, parse_cli, spells_number, with_option, Cli,
    CliModel, Stop, StopModel,
};
use crate::keymap::Action;
use crate::settings::{Settings, SettingsModel};
use crate::startup::{
    apply_overrides, choose_config, pinned_grid, startup_actions, startup_shell, version_string, windowing,
    GlConfig, Layout, Overrides, Windowing,
};
use crate::text::{lowered, views, whole_number};

verus! {

broadcast use vstd::string::group_string_axioms;

/// A build names itself and its version, and what it was built from, if that is known.
pub proof fn a_build_names_its_version(version: &str, built_from: Option<&str>, r: String)
    requires
        call_ensures(version_string, (version, built_from), r),
    ensures
        ({
            let plain = seq!['r', 't', ' '] + version@;
            &&& built_from is None || built_from->0@.len() == 0 ==> r@ == plain
            &&& built_from is Some && built_from->0@.len() > 0 ==> r@ == plain + seq![' ', '('] + built_from->0@
                + seq![')']
        }),
{
    reveal_strlit("rt ");
    reveal_strlit(" (");
    reveal_strlit(")");
    assert("rt "@ =~= seq!['r', 't', ' ']);
    assert(" ("@ =~= seq![' ', '(']);
    assert(")"@ =~= seq![')']);
}

/// An override takes the place of its own setting and of no other: an opacity between a
/// twentieth and all, a font size of a pixel or more, a family, and how the focus moves.
pub proof fn an_override_takes_its_own_place(s: &mut Settings, o: &Overrides)
    requires
        call_ensures(apply_overrides, (s, o), ()),
    ensures
        ({
            let a = old(s)@;
            let b = final(s)@;
            let follow = |w: Seq<char>| w == "sloppy"@ || w == "mouse"@ || w == "follow"@ || w == "1"@;
            &&& o.opacity is None ==> b.background_opacity == a.background_opacity
            &&& o.opacity is Some ==> 50 <= b.background_opacity <= 1_000
            &&& o.opacity is Some && 50 <= o.opacity->0 <= 1_000 ==> b.background_opacity == o.opacity->0
            &&& o.opacity is Some && o.opacity->0 > 1_000 ==> b.background_opacity == 1_000
            &&& o.opacity is Some && o.opacity->0 < 50 ==> b.background_opacity == 50
            &&& o.font is None ==> b.font_family == a.font_family
            &&& o.font is Some ==> b.font_family == o.font->0@
            &&& o.font_size is None ==> b.font_size == a.font_size
            &&& o.font_size is Some && 1_000 <= o.font_size->0 <= u32::MAX ==> b.font_size == o.font_size->0
            &&& o.font_size is Some && o.font_size->0 < 1_000 ==> b.font_size == 1_000
            &&& o.focus is None ==> b.focus_follows_mouse == a.focus_follows_mouse
            &&& o.focus is Some ==> (b.focus_follows_mouse <==> follow(o.focus->0@))
            &&& b == (SettingsModel {
                background_opacity: b.background_opacity,
                font_family: b.font_family,
                font_size: b.font_size,
                focus_follows_mouse: b.focus_follows_mouse,
                ..a
            })
        }),
{
}

/// A window is pinned to a grid only where both of its sides are given, and neither is
/// nothing; then it is that grid, columns first.
pub proof fn a_grid_is_pinned_by_both_sides(cols: Option<usize>, rows: Option<usize>, r: Option<(usize, usize)>)
    requires
        call_ensures(pinned_grid, (cols, rows), r),
    ensures
        r is Some <==> cols is Some && rows is Some && cols->0 > 0 && rows->0 > 0,
        r is Some ==> r->0 == (cols->0, rows->0),
{
}

/// A command given at the start is run by a shell, which then goes on as one.
pub proof fn a_command_is_run_before_its_shell(command: &str, r: (String, Vec<String>))
    requires
        call_ensures(startup_shell, (command,), r),
    ensures
        ({
            let (shell, args) = r;
            &&& shell@ == "/bin/sh"@
            &&& args@.len() == 2
            &&& args@[0]@ == seq!['-', 'c']
            &&& args@[1]@ == command@ + "; exec /bin/sh -i"@
        }),
{
    reveal_strlit("-c");
    assert("-c"@ =~= seq!['-', 'c']);
    let (shell, args) = r;
    assert(views(args@).len() == args@.len());
    assert(views(args@)[0] == args@[0]@);
    assert(views(args@)[1] == args@[1]@);
}

/// Nothing is done at the start that is not asked for, and each thing that is asked for is
/// done as often as it says: a split across for `h` and one down for `v`, columns and tabs up
/// to their number, zoom, and a broadcast to all or to a group.
pub proof fn the_start_does_what_is_asked(l: &Layout, r: Vec<Action>)
    requires
        call_ensures(startup_actions, (l,), r),
        !l.groups,
    ensures
        ({
            let none: Seq<Action> = Seq::empty();
            let split = if l.split is None {
                none
            } else if l.split->0@ == seq!['h'] {
                seq![Action::SplitHoriz]
            } else if l.split->0@ == seq!['v'] {
                seq![Action::SplitVert]
            } else {
                none
            };
            let said = if l.broadcast is None {
                none
            } else if l.broadcast->0@ == seq!['a', 'l', 'l'] {
                seq![Action::BroadcastAll]
            } else if l.broadcast->0@ == seq!['g', 'r', 'o', 'u', 'p'] {
                seq![Action::BroadcastGroup]
            } else {
                none
            };
            let zoom = if l.zoom {
                seq![Action::ToggleZoom]
            } else {
                none
            };
            let columns = more_than_one(l.columns);
            let tabs = more_than_one(l.tabs);
            &&& r@.len() == split.len() + columns + tabs + zoom.len() + said.len()
            &&& r@.take(split.len() as int) == split
            &&& forall|i: int| split.len() <= i < split.len() + columns ==> #[trigger] r@[i] == Action::ColumnsMore
            &&& forall|i: int|
                split.len() + columns <= i < split.len() + columns + tabs ==> #[trigger] r@[i] == Action::NewTab
            &&& r@.skip((split.len() + columns + tabs) as int) == zoom + said
        }),
{
    reveal_strlit("h");
    reveal_strlit("v");
    reveal_strlit("all");
    reveal_strlit("group");
    assert("h"@ =~= seq!['h']);
    assert("v"@ =~= seq!['v']);
    assert("all"@ =~= seq!['a', 'l', 'l']);
    assert("group"@ =~= seq!['g', 'r', 'o', 'u', 'p']);
    let none: Seq<Action> = Seq::empty();
    let split = crate::startup::asked(l.split, "h"@, Action::SplitHoriz, "v"@, Action::SplitVert);
    let columns = crate::startup::up_to(Action::ColumnsMore, l.columns);
    let tabs = crate::startup::up_to(Action::NewTab, l.tabs);
    let zoom = if l.zoom {
        seq![Action::ToggleZoom]
    } else {
        none
    };
    let said = crate::startup::asked(
        l.broadcast,
        "all"@,
        Action::BroadcastAll,
        "group"@,
        Action::BroadcastGroup,
    );
    assert(columns.len() == more_than_one(l.columns));
    assert(tabs.len() == more_than_one(l.tabs));
    assert(r@ =~= split + columns + tabs + zoom + said);
    let n = split.len() as int;
    assert(r@.take(n) =~= split);
    assert forall|i: int| n <= i < n + columns.len() implies #[trigger] r@[i] == Action::ColumnsMore by {
        assert(r@[i] == columns[i - n]);
    }
    assert forall|i: int| n + columns.len() <= i < n + columns.len() + tabs.len() implies #[trigger] r@[i]
        == Action::NewTab by {
        assert(r@[i] == tabs[i - n - columns.len()]);
    }
    assert(r@.skip((n + columns.len() + tabs.len()) as int) =~= zoom + said);
}

/// How many more than one a text asks for: none, where it is no number of 16 bits.
pub open spec fn more_than_one(count: Option<String>) -> nat {
    if count is None {
        0
    } else {
        match whole_number(count->0@, 65_535) {
            Some(n) => if n > 1 {
                (n - 1) as nat
            } else {
                0
            },
            None => 0,
        }
    }
}

/// The groups that are shown as a demonstration are three panes, in the first, the second and
/// the third group: a pane goes round the groups once for the first and once more for each
/// that follows, and is split off in between.
pub proof fn the_demonstration_has_three_groups(l: &Layout, r: Vec<Action>)
    requires
        call_ensures(startup_actions, (l,), r),
        l.groups,
        l.split is None && l.columns is None && l.tabs is None && !l.zoom && l.broadcast is None,
    ensures
        r@.len() == 8,
        forall|i: int| 0 <= i < 8 && i != 1 && i != 4 ==> #[trigger] r@[i] == Action::GroupCycle,
        r@[1] == Action::SplitVert,
        r@[4] == Action::SplitHoriz,
{
    assert(r@ =~= crate::startup::demo_groups());
}

/// The configuration that is chosen is one that can be seen through, where there is any; of
/// those the one with the finest alpha, of those the one with the finest edges, and of those
/// the first.
pub proof fn the_best_configuration_is_chosen(configs: &Vec<GlConfig>, r: Option<usize>, j: int)
    requires
        call_ensures(choose_config, (configs,), r),
        0 <= j < configs@.len(),
    ensures
        r is Some && r->0 < configs@.len(),
        ({
            let best = configs@[r->0 as int];
            let other = configs@[j];
            &&& other.transparent ==> best.transparent
            &&& other.transparent == best.transparent ==> best.alpha >= other.alpha
            &&& other.transparent == best.transparent && other.alpha == best.alpha ==> best.samples
                >= other.samples
            &&& other == best ==> r->0 <= j
        }),
{
    let best = configs@[r->0 as int];
    let other = configs@[j];
    assert(!crate::startup::beats(configs@[j], configs@[r->0 as int]));
    if other == best && j < r->0 {
        assert(crate::startup::beats(configs@[r->0 as int], configs@[j]));
    }
}

/// What the environment asks for is not changed; else a Wayland session gets Wayland, and any
/// other X11.
pub proof fn a_session_gets_its_own_windowing(asked_for: bool, wayland_session: bool, r: Windowing)
    requires
        call_ensures(windowing, (asked_for, wayland_session), r),
    ensures
        r == Windowing::Unchanged <==> asked_for,
        r == Windowing::Wayland <==> !asked_for && wayland_session,
        r == Windowing::X11 <==> !asked_for && !wayland_session,
{
}

proof fn lemma_equals(s: Seq<char>, i: int)
    requires
        0 <= i <= s.len(),
        forall|k: int| 0 <= k < i ==> #[trigger] s[k] != '=',
        i < s.len() ==> s[i] == '=',
    ensures
        i < s.len() ==> equals_at(s) == Some(i),
        i == s.len() ==> equals_at(s) is None,
    decreases s.len(),
{
    if s.len() > 0 {
        let t = s.drop_last();
        if i < s.len() - 1 {
            assert forall|k: int| 0 <= k < i implies #[trigger] t[k] != '=' by {
                assert(t[k] == s[k]);
            }
            assert(t[i] == s[i]);
            lemma_equals(t, i);
        } else {
            assert forall|k: int| 0 <= k < t.len() implies #[trigger] t[k] != '=' by {
                assert(t[k] == s[k]);
            }
            lemma_equals(t, t.len() as int);
            if i == s.len() {
                assert(s[s.len() - 1] != '=');
            }
        }
    }
}

proof fn lemma_options()
    ensures
        "--cols"@ == seq!['-', '-', 'c', 'o', 'l', 's'],
        "--rows"@ == seq!['-', '-', 'r', 'o', 'w', 's'],
        "--font"@ == seq!['-', '-', 'f', 'o', 'n', 't'],
        "--font-size"@ == seq!['-', '-', 'f', 'o', 'n', 't', '-', 's', 'i', 'z', 'e'],
        "--backend"@ == seq!['-', '-', 'b', 'a', 'c', 'k', 'e', 'n', 'd'],
        "-V"@ == seq!['-', 'V'],
        "--version"@ == seq!['-', '-', 'v', 'e', 'r', 's', 'i', 'o', 'n'],
        "-h"@ == seq!['-', 'h'],
        "--help"@ == seq!['-', '-', 'h', 'e', 'l', 'p'],
        "gl"@ == seq!['g', 'l'],
        "xrender"@ == seq!['x', 'r', 'e', 'n', 'd', 'e', 'r'],
{
    reveal_strlit("--cols");
    reveal_strlit("--rows");
    reveal_strlit("--font");
    reveal_strlit("--font-size");
    reveal_strlit("--backend");
    reveal_strlit("-V");
    reveal_strlit("--version");
    reveal_strlit("-h");
    reveal_strlit("--help");
    reveal_strlit("gl");
    reveal_strlit("xrender");
    assert("--cols"@ =~= seq!['-', '-', 'c', 'o', 'l', 's']);
    assert("--rows"@ =~= seq!['-', '-', 'r', 'o', 'w', 's']);
    assert("--font"@ =~= seq!['-', '-', 'f', 'o', 'n', 't']);
    assert("--font-size"@ =~= seq!['-', '-', 'f', 'o', 'n', 't', '-', 's', 'i', 'z', 'e']);
    assert("--backend"@ =~= seq!['-', '-', 'b', 'a', 'c', 'k', 'e', 'n', 'd']);
    assert("-V"@ =~= seq!['-', 'V']);
    assert("--version"@ =~= seq!['-', '-', 'v', 'e', 'r', 's', 'i', 'o', 'n']);
    assert("-h"@ =~= seq!['-', 'h']);
    assert("--help"@ =~= seq!['-', '-', 'h', 'e', 'l', 'p']);
    assert("gl"@ =~= seq!['g', 'l']);
    assert("xrender"@ =~= seq!['x', 'r', 'e', 'n', 'd', 'e', 'r']);
}

/// Whether an option and its value are alone on the command line: in one argument, with an
/// equals sign between them, or in two.
pub open spec fn gives(args: Seq<String>, name: Seq<char>, value: Seq<char>) -> bool {
    ||| args.len() == 1 && args[0]@ == name.push('=') + value
    ||| args.len() == 2 && args[0]@ == name && args[1]@ == value
}

/// An option that is given alone sets what it is for and nothing else, whichever way its
/// value is given: a number of columns or of rows, a font, its size, or a backend.
pub proof fn an_option_sets_what_it_is_for(args: &Vec<String>, r: Result<Cli, Stop>, name: Seq<char>, value: Seq<char>)
    requires
        call_ensures(parse_cli, (args,), r),
        gives(args@, name, value),
    ensures
        ({
            let n = whole_number(value, usize::MAX as nat);
            let none = CliModel { cols: None, rows: None, font: None, font_size: None, backend: None };
            let known = lowered(value) == seq!['g', 'l'] || lowered(value) == seq![
                'x',
                'r',
                'e',
                'n',
                'd',
                'e',
                'r',
            ];
            &&& name == seq!['-', '-', 'c', 'o', 'l', 's'] ==> (r is Ok <==> n is Some) && (r is Ok ==> r->Ok_0@ == (
            CliModel { cols: n, ..none }))
            &&& name == seq!['-', '-', 'r', 'o', 'w', 's'] ==> (r is Ok <==> n is Some) && (r is Ok ==> r->Ok_0@ == (
            CliModel { rows: n, ..none }))
            &&& name == seq!['-', '-', 'f', 'o', 'n', 't'] ==> r is Ok && r->Ok_0@ == (CliModel {
                font: Some(value),
                ..none
            })
            &&& name == seq!['-', '-', 'f', 'o', 'n', 't', '-', 's', 'i', 'z', 'e'] ==> (r is Ok
                <==> crate::cli::is_number(value)) && (r is Ok ==> r->Ok_0@ == (CliModel {
                font_size: Some(value),
                ..none
            }))
            &&& name == seq!['-', '-', 'b', 'a', 'c', 'k', 'e', 'n', 'd'] ==> (r is Ok <==> known) && (r is Ok
                ==> r->Ok_0@ == (CliModel { backend: Some(value), ..none }))
        }),
{
    lemma_options();
    let all = views(args@);
    let option = name == "--cols"@ || name == "--rows"@ || name == "--font"@ || name == "--font-size"@ || name
        == "--backend"@;
    if option {
        assert(forall|k: int| 0 <= k < name.len() ==> #[trigger] name[k] != '=');
        assert(all[0] == args@[0]@);
        let arg = all[0];
        if args@.len() == 1 {
            assert forall|k: int| 0 <= k < name.len() implies #[trigger] arg[k] != '=' by {
                assert(arg[k] == name[k]);
            }
            assert(arg[name.len() as int] == '=');
            lemma_equals(arg, name.len() as int);
            assert(arg.take(name.len() as int) =~= name);
            assert(arg.skip((name.len() + 1) as int) =~= value);
            assert(all.skip(1) =~= Seq::empty());
        } else {
            lemma_equals(arg, arg.len() as int);
            assert(all[1] == args@[1]@);
            assert(all.skip(2) =~= Seq::empty());
        }
        reveal_with_fuel(cli_outcome, 2);
        let none = no_overrides();
        match with_option(none, name, value) {
            Ok(next) => {
                assert(cli_outcome(all, none) == Ok::<CliModel, StopModel>(next));
            },
            Err(words) => {
                assert(cli_outcome(all, none) == Err::<CliModel, StopModel>(StopModel::Error(words)));
            },
        }
    }
}

/// An empty command line overrides nothing; a request for the version or for help ends it,
/// whatever follows, and so does an option that there is none of.
pub proof fn a_request_ends_the_command_line(args: &Vec<String>, r: Result<Cli, Stop>)
    requires
        call_ensures(parse_cli, (args,), r),
    ensures
        args@.len() == 0 ==> r is Ok && r->Ok_0@ == (CliModel {
            cols: None,
            rows: None,
            font: None,
            font_size: None,
            backend: None,
        }),
        args@.len() > 0 && (args@[0]@ == seq!['-', 'V'] || args@[0]@ == seq![
            '-',
            '-',
            'v',
            'e',
            'r',
            's',
            'i',
            'o',
            'n',
        ]) ==> r is Err && r->Err_0 is Version,
        args@.len() > 0 && (args@[0]@ == seq!['-', 'h'] || args@[0]@ == seq!['-', '-', 'h', 'e', 'l', 'p'])
            ==> r is Err && r->Err_0 is Help,
        args@.len() > 0 && args@[0]@.len() > 0 && args@[0]@[0] != '-' ==> r is Err && r->Err_0 is Error,
{
    lemma_options();
    let all = views(args@);
    if args@.len() > 0 {
        let arg = args@[0]@;
        assert(all[0] == arg);
        if arg == "-V"@ || arg == "--version"@ || arg == "-h"@ || arg == "--help"@ {
            assert(forall|k: int| 0 <= k < arg.len() ==> #[trigger] arg[k] != '=');
            lemma_equals(arg, arg.len() as int);
        }
        if arg.len() > 0 && arg[0] != '-' {
            let name = option_name(arg);
            match equals_at(arg) {
                Some(i) => {
                    lemma_found_equals(arg);
                    if i > 0 {
                        assert(name[0] == arg[0]);
                    }
                },
                None => {},
            }
            assert(name.len() == 0 || name[0] != '-');
        }
    } else {
        assert(all =~= Seq::empty());
    }
}

proof fn lemma_found_equals(s: Seq<char>)
    requires
        equals_at(s) is Some,
    ensures
        0 <= equals_at(s)->0 < s.len(),
    decreases s.len(),
{
    if equals_at(s.drop_last()) is Some {
        lemma_found_equals(s.drop_last());
    }
}

/// Options add up: what follows one is read as if it stood alone, but for what that one set;
/// where its value is wrong, nothing that follows is read.
pub proof fn options_add_up(args: Seq<Seq<char>>, name: Seq<char>, value: Seq<char>, cli: CliModel)
    requires
        args.len() > 0,
        args[0] == name.push('=') + value,
        name == seq!['-', '-', 'c', 'o', 'l', 's'] || name == seq!['-', '-', 'r', 'o', 'w', 's'] || name == seq![
            '-',
            '-',
            'f',
            'o',
            'n',
            't',
        ],
    ensures
        ({
            let n = whole_number(value, usize::MAX as nat);
            let rest = args.skip(1);
            &&& name == seq!['-', '-', 'f', 'o', 'n', 't'] ==> cli_outcome(args, cli) == cli_outcome(
                rest,
                CliModel { font: Some(value), ..cli },
            )
            &&& name == seq!['-', '-', 'c', 'o', 'l', 's'] && n is Some ==> cli_outcome(args, cli) == cli_outcome(
                rest,
                CliModel { cols: n, ..cli },
            )
            &&& name == seq!['-', '-', 'r', 'o', 'w', 's'] && n is Some ==> cli_outcome(args, cli) == cli_outcome(
                rest,
                CliModel { rows: n, ..cli },
            )
            &&& name != seq!['-', '-', 'f', 'o', 'n', 't'] && n is None ==> cli_outcome(args, cli) is Err
        }),
{
    lemma_options();
    let arg = args[0];
    assert(forall|k: int| 0 <= k < name.len() ==> #[trigger] name[k] != '=');
    assert forall|k: int| 0 <= k < name.len() implies #[trigger] arg[k] != '=' by {
        assert(arg[k] == name[k]);
    }
    assert(arg[name.len() as int] == '=');
    lemma_equals(arg, name.len() as int);
    assert(arg.take(name.len() as int) =~= name);
    assert(arg.skip((name.len() + 1) as int) =~= value);
    assert(inline_value(arg) == Some(value));
}

proof fn lemma_digits(s: Seq<char>)
    requires
        forall|i: int| 0 <= i < s.len() ==> '0' <= #[trigger] s[i] && s[i] <= '9',
    ensures
        crate::cli::leading_digits(s) == s.len(),
    decreases s.len(),
{
    if s.len() > 0 {
        let t = s.skip(1);
        assert('0' <= s[0] && s[0] <= '9');
        assert forall|i: int| 0 <= i < t.len() implies '0' <= #[trigger] t[i] && t[i] <= '9' by {
            assert(t[i] == s[i + 1]);
        }
        lemma_digits(t);
    }
}

/// Digits spell a number, with a sign before them or none; nothing, a sign alone and what
/// begins with a letter other than those of `inf` and `nan` do not.
pub proof fn digits_are_a_number(s: &str, r: bool, digits: Seq<char>)
    requires
        call_ensures(spells_number, (s,), r),
        forall|i: int| 0 <= i < digits.len() ==> '0' <= #[trigger] digits[i] && digits[i] <= '9',
        s@ == digits || s@ == seq!['-'] + digits || s@ == seq!['+'] + digits,
    ensures
        r <==> digits.len() > 0,
{
    let t = crate::cli::unsigned(s@);
    if s@.len() > 0 {
        if s@ == digits {
            assert('0' <= digits[0] && digits[0] <= '9');
            assert(t == digits);
        } else {
            assert(t =~= digits);
        }
    } else {
        assert(t =~= digits);
    }
    lemma_digits(digits);
    assert(t.skip(t.len() as int) =~= Seq::empty());
    reveal_strlit("inf");
    reveal_strlit("infinity");
    reveal_strlit("nan");
    if digits.len() == 0 {
        assert(lowered(t).len() == 0);
    }
}

proof fn lemma_digits_then(d: Seq<char>, rest: Seq<char>)
    requires
        forall|i: int| 0 <= i < d.len() ==> '0' <= #[trigger] d[i] && d[i] <= '9',
        rest.len() > 0 ==> !('0' <= rest[0] && rest[0] <= '9'),
    ensures
        crate::cli::leading_digits(d + rest) == d.len(),
        (d + rest).skip(d.len() as int) == rest,
    decreases d.len(),
{
    let s = d + rest;
    assert(s.skip(d.len() as int) =~= rest);
    if d.len() > 0 {
        let t = d.skip(1);
        assert('0' <= d[0] && d[0] <= '9');
        assert forall|i: int| 0 <= i < t.len() implies '0' <= #[trigger] t[i] && t[i] <= '9' by {
            assert(t[i] == d[i + 1]);
        }
        lemma_digits_then(t, rest);
        assert(s.skip(1) =~= t + rest);
        assert(s[0] == d[0]);
    } else {
        assert(s =~= rest);
    }
}

proof fn lemma_not_a_word(t: Seq<char>)
    requires
        t.len() > 0 ==> ('0' <= t[0] && t[0] <= '9') || t[0] == '.' || t[0] == 'e' || t[0] == 'E',
    ensures
        lowered(t) != "inf"@,
        lowered(t) != "infinity"@,
        lowered(t) != "nan"@,
{
    reveal_strlit("inf");
    reveal_strlit("infinity");
    reveal_strlit("nan");
    assert("inf"@[0] == 'i' && "infinity"@[0] == 'i' && "nan"@[0] == 'n');
    assert("inf"@.len() == 3 && "infinity"@.len() == 8 && "nan"@.len() == 3);
    if t.len() > 0 {
        let c = crate::text::ascii_lower(t[0]);
        assert(lowered(t)[0] == c);
        assert(t[0] == 'E' ==> c as u32 == 101);
        assert(c as u32 <= 57 || c as u32 == 101);
        assert('i' as u32 == 105 && 'n' as u32 == 110);
        assert(c != 'i' && c != 'n');
    } else {
        assert(lowered(t).len() == 0);
    }
}

/// A point may stand before, among or behind the digits of a number, and an exponent behind
/// them: `e`, a sign or none, and digits. A point or an exponent alone is no number.
pub proof fn a_number_may_have_a_point_and_an_exponent(
    s: &str,
    r: bool,
    a: Seq<char>,
    b: Seq<char>,
    e: Seq<char>,
    sign: Seq<char>,
    mark: char,
    point: bool,
    raised: bool,
)
    requires
        call_ensures(spells_number, (s,), r),
        forall|i: int| 0 <= i < a.len() ==> '0' <= #[trigger] a[i] && a[i] <= '9',
        forall|i: int| 0 <= i < b.len() ==> '0' <= #[trigger] b[i] && b[i] <= '9',
        forall|i: int| 0 <= i < e.len() ==> '0' <= #[trigger] e[i] && e[i] <= '9',
        sign == Seq::<char>::empty() || sign == seq!['+'] || sign == seq!['-'],
        mark == 'e' || mark == 'E',
        !point ==> b.len() == 0,
        s@ == a + ((if point {
            seq!['.'] + b
        } else {
            Seq::empty()
        }) + (if raised {
            seq![mark] + (sign + e)
        } else {
            Seq::empty()
        })),
    ensures
        r <==> a.len() + b.len() > 0 && (raised ==> e.len() > 0),
{
    let tail = if raised {
        seq![mark] + (sign + e)
    } else {
        Seq::empty()
    };
    let mid = if point {
        seq!['.'] + b
    } else {
        Seq::empty()
    };
    if raised {
        lemma_exponent(mark, sign, e);
        assert(tail[0] == mark);
    }
    if point {
        lemma_pointed(a, b, tail);
    } else {
        assert(mid + tail =~= tail);
        lemma_unpointed(a, tail);
    }
    assert(s@.len() > 0 ==> s@[0] == (if a.len() > 0 {
        a[0]
    } else if point {
        '.'
    } else {
        mark
    })) by {
        assert(mid.len() > 0 ==> (mid + tail)[0] == mid[0]);
    }
    assert(crate::cli::unsigned(s@) == s@);
    lemma_not_a_word(s@);
}

proof fn lemma_exponent(mark: char, sign: Seq<char>, e: Seq<char>)
    requires
        forall|i: int| 0 <= i < e.len() ==> '0' <= #[trigger] e[i] && e[i] <= '9',
        sign == Seq::<char>::empty() || sign == seq!['+'] || sign == seq!['-'],
        mark == 'e' || mark == 'E',
    ensures
        crate::cli::is_exponent(seq![mark] + (sign + e)) <==> e.len() > 0,
{
    let tail = seq![mark] + (sign + e);
    let low = sign + e;
    assert(tail.skip(1) =~= low);
    lemma_digits(e);
    if sign.len() > 0 {
        assert(low.skip(1) =~= e);
    } else {
        assert(low =~= e);
    }
    assert(crate::cli::unsigned(low) =~= e);
}

proof fn lemma_pointed(a: Seq<char>, b: Seq<char>, tail: Seq<char>)
    requires
        forall|i: int| 0 <= i < a.len() ==> '0' <= #[trigger] a[i] && a[i] <= '9',
        forall|i: int| 0 <= i < b.len() ==> '0' <= #[trigger] b[i] && b[i] <= '9',
        tail.len() > 0 ==> tail[0] == 'e' || tail[0] == 'E',
    ensures
        crate::cli::is_decimal(a + ((seq!['.'] + b) + tail)) <==> a.len() + b.len() > 0 && (tail.len() == 0
            || crate::cli::is_exponent(tail)),
{
    let after = (seq!['.'] + b) + tail;
    assert(after[0] == '.');
    lemma_digits_then(a, after);
    assert(after.skip(1) =~= b + tail);
    lemma_digits_then(b, tail);
    assert(after.skip(1 + b.len() as int) =~= tail);
}

proof fn lemma_unpointed(a: Seq<char>, tail: Seq<char>)
    requires
        forall|i: int| 0 <= i < a.len() ==> '0' <= #[trigger] a[i] && a[i] <= '9',
        tail.len() > 0 ==> tail[0] == 'e' || tail[0] == 'E',
    ensures
        crate::cli::is_decimal(a + tail) <==> a.len() > 0 && (tail.len() == 0 || crate::cli::is_exponent(tail)),
{
    lemma_digits_then(a, tail);
}

/// What stands behind the digits of a number, other than a point or an exponent, makes it
/// no number.
pub proof fn a_number_ends_with_its_digits(s: &str, r: bool, a: Seq<char>, rest: Seq<char>)
    requires
        call_ensures(spells_number, (s,), r),
        a.len() > 0,
        forall|i: int| 0 <= i < a.len() ==> '0' <= #[trigger] a[i] && a[i] <= '9',
        rest.len() > 0,
        !('0' <= rest[0] && rest[0] <= '9') && rest[0] != '.' && rest[0] != 'e' && rest[0] != 'E',
        s@ == a + rest,
    ensures
        !r,
{
    lemma_digits_then(a, rest);
    assert(s@[0] == a[0]);
    lemma_not_a_word(s@);
}

} // verus!

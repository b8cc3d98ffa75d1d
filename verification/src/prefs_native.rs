//! Which native control each preferences row becomes, and how that control's request
//! is turned into moves of the shared model.
//!
//! Nothing here assigns a setting. A control's request is delivered by stepping the
//! model, as the arrow keys do, until it has moved to what was asked for or refuses to
//! move any further; so the clamps, the wraps and the opacity floor are written down
//! once. And a popup's list is found by walking the ring, not by naming it again.
use vstd::prelude::*;
use vstd::string::*;
use crate::prefs_model::{
    edits_number, enabled, live, may_step, next_settings, preset_label, preset_name, step, step_fixed, PrefRow,
};
use crate::ring::{place, position};
use crate::settings::{Catalog, Settings, SettingsModel, MAX_OPACITY};
use crate::text::{same_text, text_view, views};

verus! {

broadcast use vstd::string::group_string_axioms;

/// The control a preferences row becomes: one variant per shape of row.
#[derive(Clone, Copy, Debug, PartialEq, Eq, Structural)]
pub enum Control {
    /// For a quantity whose natural gesture is "one more". One click is one step.
    Stepper,
    /// For a magnitude swept and judged by eye while it moves.
    Slider,
    /// For a flag.
    Switch,
    /// For a ring of named values.
    PopUp,
    /// A row of colour wells.
    Swatches,
    /// No control: a native window has its own close button.
    Dismiss,
}

/// The shape of a row of the preferences dialog.
#[derive(Clone, Copy, Debug, PartialEq, Eq, Structural)]
pub enum RowKind {
    /// A heading.
    Section,
    /// A read-only line.
    Display,
    /// The palette.
    Swatches,
    Toggle,
    Step,
    Action,
}

/// The control each row becomes.
pub open spec fn control_of(row: PrefRow) -> Control {
    match row {
        PrefRow::FontSize => Control::Stepper,
        PrefRow::Scrollback => Control::Stepper,
        PrefRow::ArrowAccelMax => Control::Stepper,
        PrefRow::Opacity => Control::Slider,
        PrefRow::BlurRadius => Control::Slider,
        PrefRow::FontFamily => Control::PopUp,
        PrefRow::Preset => Control::PopUp,
        PrefRow::Chrome => Control::PopUp,
        PrefRow::GlassMaterial => Control::PopUp,
        PrefRow::Term => Control::PopUp,
        PrefRow::Blur => Control::Switch,
        PrefRow::Ffm => Control::Switch,
        PrefRow::Titlebar => Control::Switch,
        PrefRow::InstOutput => Control::Switch,
        PrefRow::InstHeat => Control::Switch,
        PrefRow::InstLatency => Control::Switch,
        PrefRow::Jacks => Control::Switch,
        PrefRow::InstRemote => Control::Switch,
        PrefRow::InstAnimate => Control::Switch,
        PrefRow::ArrowAccel => Control::Switch,
        PrefRow::Close => Control::Dismiss,
    }
}

/// The control `row` becomes.
pub fn control(row: PrefRow) -> (r: Control)
    ensures
        r == control_of(row),
{
    match row {
        PrefRow::FontSize => Control::Stepper,
        PrefRow::Scrollback => Control::Stepper,
        PrefRow::ArrowAccelMax => Control::Stepper,
        PrefRow::Opacity => Control::Slider,
        PrefRow::BlurRadius => Control::Slider,
        PrefRow::FontFamily => Control::PopUp,
        PrefRow::Preset => Control::PopUp,
        PrefRow::Chrome => Control::PopUp,
        PrefRow::GlassMaterial => Control::PopUp,
        PrefRow::Term => Control::PopUp,
        PrefRow::Blur => Control::Switch,
        PrefRow::Ffm => Control::Switch,
        PrefRow::Titlebar => Control::Switch,
        PrefRow::InstOutput => Control::Switch,
        PrefRow::InstHeat => Control::Switch,
        PrefRow::InstLatency => Control::Switch,
        PrefRow::Jacks => Control::Switch,
        PrefRow::InstRemote => Control::Switch,
        PrefRow::InstAnimate => Control::Switch,
        PrefRow::ArrowAccel => Control::Switch,
        PrefRow::Close => Control::Dismiss,
    }
}

/// The control a whole line of the dialog becomes: a heading or a readout is text, and
/// the palette is edited through colour wells.
pub open spec fn row_control_of(kind: RowKind, pref: Option<PrefRow>) -> Option<Control> {
    match (kind, pref) {
        (RowKind::Swatches, _) => Some(Control::Swatches),
        (_, Some(p)) => Some(control_of(p)),
        _ => None,
    }
}

/// The control a whole line of the dialog becomes.
pub fn row_control(kind: RowKind, pref: Option<PrefRow>) -> (r: Option<Control>)
    ensures
        r == row_control_of(kind, pref),
{
    match (kind, pref) {
        (RowKind::Swatches, _) => Some(Control::Swatches),
        (_, Some(p)) => Some(control(p)),
        _ => None,
    }
}

/// The flag a row shows.
pub open spec fn flag_of(m: SettingsModel, row: PrefRow) -> Option<bool> {
    match row {
        PrefRow::Blur => Some(m.background_blur),
        PrefRow::Ffm => Some(m.focus_follows_mouse),
        PrefRow::Titlebar => Some(m.show_titlebar),
        PrefRow::InstOutput => Some(m.inst_output),
        PrefRow::InstHeat => Some(m.inst_heat),
        PrefRow::InstLatency => Some(m.inst_latency),
        PrefRow::Jacks => Some(m.show_jacks),
        PrefRow::InstRemote => Some(m.inst_remote),
        PrefRow::InstAnimate => Some(m.inst_animate),
        PrefRow::ArrowAccel => Some(m.arrow_accel),
        _ => None,
    }
}

/// The flag a [`Control::Switch`] row shows, or `None` for every other row.
pub fn flag(s: &Settings, row: PrefRow) -> (r: Option<bool>)
    ensures
        r == flag_of(s@, row),
{
    match row {
        PrefRow::Blur => Some(s.background_blur),
        PrefRow::Ffm => Some(s.focus_follows_mouse),
        PrefRow::Titlebar => Some(s.show_titlebar),
        PrefRow::InstOutput => Some(s.inst_output),
        PrefRow::InstHeat => Some(s.inst_heat),
        PrefRow::InstLatency => Some(s.inst_latency),
        PrefRow::Jacks => Some(s.show_jacks),
        PrefRow::InstRemote => Some(s.inst_remote),
        PrefRow::InstAnimate => Some(s.inst_animate),
        PrefRow::ArrowAccel => Some(s.arrow_accel),
        _ => None,
    }
}

/// The number a row shows, in the setting's own unit.
pub open spec fn number_of(m: SettingsModel, row: PrefRow) -> Option<int> {
    match row {
        PrefRow::FontSize => Some(m.font_size),
        PrefRow::Opacity => Some(m.background_opacity),
        PrefRow::Scrollback => Some(m.scrollback),
        PrefRow::BlurRadius => Some(m.macos_blur_radius),
        PrefRow::ArrowAccelMax => Some(m.arrow_accel_max),
        _ => None,
    }
}

/// The value of an integer that may be missing.
pub open spec fn int_view(n: Option<i128>) -> Option<int> {
    match n {
        Some(n) => Some(n as int),
        None => None,
    }
}

/// The number a [`Control::Stepper`] or [`Control::Slider`] row shows, or `None` for
/// every other row. Sizes and opacities are in thousandths.
pub fn number(s: &Settings, row: PrefRow) -> (r: Option<i128>)
    ensures
        int_view(r) == number_of(s@, row),
        r is Some ==> 0 <= r->0 <= u64::MAX,
{
    match row {
        PrefRow::FontSize => Some(s.font_size as i128),
        PrefRow::Opacity => Some(s.background_opacity as i128),
        PrefRow::Scrollback => Some(s.scrollback as i128),
        PrefRow::BlurRadius => Some(s.macos_blur_radius as i128),
        PrefRow::ArrowAccelMax => Some(s.arrow_accel_max as i128),
        _ => None,
    }
}

/// The name a row shows.
pub open spec fn label_of(m: SettingsModel, row: PrefRow, catalog: Catalog) -> Option<Seq<char>> {
    match row {
        PrefRow::FontFamily => Some(m.font_family),
        PrefRow::Preset => Some(preset_label(m, catalog.schemes@)),
        PrefRow::Chrome => Some(m.chrome_theme),
        PrefRow::GlassMaterial => Some(m.macos_glass_material),
        PrefRow::Term => Some(m.term),
        _ => None,
    }
}

/// The name a [`Control::PopUp`] row shows, or `None` for every other row.
pub fn label(s: &Settings, row: PrefRow, catalog: &Catalog) -> (r: Option<String>)
    ensures
        text_view(r) == label_of(s@, row, *catalog),
{
    match row {
        PrefRow::FontFamily => Some(s.font_family.clone()),
        PrefRow::Preset => Some(preset_name(s, catalog)),
        PrefRow::Chrome => Some(s.chrome_theme.clone()),
        PrefRow::GlassMaterial => Some(s.macos_glass_material.clone()),
        PrefRow::Term => Some(s.term.clone()),
        _ => None,
    }
}

/// Every row has exactly the value its control shows: a switch a flag, a stepper or a
/// slider a number, a popup a name, and the others none.
pub proof fn each_control_has_exactly_the_value_it_needs(m: SettingsModel, row: PrefRow, catalog: Catalog)
    ensures
        flag_of(m, row) is Some <==> control_of(row) == Control::Switch,
        number_of(m, row) is Some <==> control_of(row) == Control::Stepper || control_of(row)
            == Control::Slider,
        label_of(m, row, catalog) is Some <==> control_of(row) == Control::PopUp,
        control_of(row) != Control::Swatches,
        control_of(row) == Control::Dismiss <==> row == PrefRow::Close,
{
}

/// A hard bound on how many steps one request may make. Every ladder is far shorter; a
/// long list of font families is the only thing that can approach it.
pub const MAX_STEPS: usize = 4096;

/// The settings with whatever gates `row` opened, where it is not live.
pub open spec fn unlocked(m: SettingsModel, row: PrefRow, catalog: Catalog) -> SettingsModel {
    if live(m, row, catalog) {
        m
    } else {
        match row {
            PrefRow::GlassMaterial | PrefRow::BlurRadius => SettingsModel {
                background_blur: true,
                background_opacity: if m.background_opacity >= MAX_OPACITY {
                    900
                } else {
                    m.background_opacity
                },
                ..m
            },
            PrefRow::InstAnimate => SettingsModel { inst_remote: true, ..m },
            PrefRow::ArrowAccelMax => SettingsModel { arrow_accel: true, ..m },
            _ => m,
        }
    }
}

/// Opens whatever gates `row`, on a throwaway copy: a greyed popup must still list its
/// choices.
fn unlock(s: &mut Settings, row: PrefRow, catalog: &Catalog)
    ensures
        final(s)@ == unlocked(old(s)@, row, *catalog),
{
    if enabled(s, row, catalog) {
        return;
    }
    match row {
        PrefRow::GlassMaterial | PrefRow::BlurRadius => {
            s.background_blur = true;
            if s.background_opacity >= MAX_OPACITY {
                s.background_opacity = 900;
            }
        },
        PrefRow::InstAnimate => {
            s.inst_remote = true;
        },
        PrefRow::ArrowAccelMax => {
            s.arrow_accel = true;
        },
        _ => {},
    }
}

/// Where walking `row` in the direction `dir` ends: at the first step that no longer
/// moves it.
pub open spec fn ladder_end(m: SettingsModel, row: PrefRow, dir: int, catalog: Catalog, steps: nat) -> SettingsModel
    decreases steps,
{
    if steps == 0 {
        m
    } else {
        let next = next_settings(m, row, dir, Seq::empty(), catalog);
        if number_of(next, row) == number_of(m, row) {
            next
        } else {
            ladder_end(next, row, dir, catalog, (steps - 1) as nat)
        }
    }
}

/// The span that a row may be dragged over.
pub open spec fn span_of(m: SettingsModel, row: PrefRow, catalog: Catalog) -> Option<(int, int)> {
    if number_of(m, row) is None {
        None
    } else {
        let open = unlocked(m, row, catalog);
        Some(
            (
                number_of(ladder_end(open, row, -1, catalog, MAX_STEPS as nat), row)->0,
                number_of(ladder_end(open, row, 1, catalog, MAX_STEPS as nat), row)->0,
            ),
        )
    }
}

fn walk_to_end(s: &mut Settings, row: PrefRow, dir: i32, catalog: &Catalog) -> (r: i128)
    requires
        edits_number(row),
    ensures
        final(s)@ == ladder_end(old(s)@, row, dir as int, *catalog, MAX_STEPS as nat),
        Some(r as int) == number_of(final(s)@, row),
{
    let none: Vec<String> = Vec::new();
    assert(views(none@) =~= Seq::<Seq<char>>::empty());
    let mut last: i128 = match number(s, row) {
        Some(n) => n,
        None => 0,
    };
    let mut k: usize = 0;
    while k < MAX_STEPS
        invariant_except_break
            ladder_end(s@, row, dir as int, *catalog, (MAX_STEPS - k) as nat) == ladder_end(
                old(s)@,
                row,
                dir as int,
                *catalog,
                MAX_STEPS as nat,
            ),
        invariant
            edits_number(row),
            k <= MAX_STEPS,
            views(none@) == Seq::<Seq<char>>::empty(),
            Some(last as int) == number_of(s@, row),
        ensures
            Some(last as int) == number_of(s@, row),
            s@ == ladder_end(old(s)@, row, dir as int, *catalog, MAX_STEPS as nat),
        decreases MAX_STEPS - k,
    {
        step_fixed(s, row, dir, &none, catalog);
        let now: i128 = match number(s, row) {
            Some(n) => n,
            None => last,
        };
        if now == last {
            break;
        }
        last = now;
        k = k + 1;
    }
    last
}

/// The span a row may be dragged over, as its least and its greatest number, or `None`
/// for a row without one. Probed off the model, since the opacity floor moves.
pub fn range(s: &Settings, row: PrefRow, catalog: &Catalog) -> (r: Option<(i128, i128)>)
    ensures
        (match r {
            Some((lo, hi)) => Some((lo as int, hi as int)),
            None => None,
        }) == span_of(s@, row, *catalog),
{
    if number(s, row).is_none() {
        return None;
    }
    let mut lo: Settings = s.copy();
    unlock(&mut lo, row, catalog);
    let mut hi: Settings = lo.copy();
    let least: i128 = walk_to_end(&mut lo, row, -1, catalog);
    let most: i128 = walk_to_end(&mut hi, row, 1, catalog);
    Some((least, most))
}

/// The names met on a walk forward from `m`, after those `met` already, up to the first
/// that was met before.
pub open spec fn ring_walk(
    m: SettingsModel,
    row: PrefRow,
    terms: Seq<Seq<char>>,
    catalog: Catalog,
    met: Seq<Seq<char>>,
    steps: nat,
) -> Seq<Seq<char>>
    decreases steps,
{
    if steps == 0 {
        met
    } else {
        let next = next_settings(m, row, 1, terms, catalog);
        let name = label_of(next, row, catalog)->0;
        if met.contains(name) {
            met
        } else {
            ring_walk(next, row, terms, catalog, met.push(name), (steps - 1) as nat)
        }
    }
}

/// Every value a popup row can take.
pub open spec fn choices_of(
    m: SettingsModel,
    row: PrefRow,
    families: Seq<Seq<char>>,
    terms: Seq<Seq<char>>,
    catalog: Catalog,
) -> Seq<Seq<char>> {
    if control_of(row) != Control::PopUp {
        Seq::empty()
    } else if row == PrefRow::FontFamily {
        families
    } else {
        let open = unlocked(m, row, catalog);
        ring_walk(open, row, terms, catalog, seq![label_of(open, row, catalog)->0], MAX_STEPS as nat)
    }
}

fn copies(v: &Vec<String>) -> (r: Vec<String>)
    ensures
        views(r@) == views(v@),
{
    let mut out: Vec<String> = Vec::new();
    let mut i: usize = 0;
    while i < v.len()
        invariant
            i <= v@.len(),
            out@.len() == i,
            forall|j: int| 0 <= j < i ==> (#[trigger] out@[j])@ == v@[j]@,
        decreases v@.len() - i,
    {
        out.push(v[i].clone());
        i = i + 1;
    }
    assert(views(out@) =~= views(v@));
    out
}

/// Every value a [`Control::PopUp`] row can take, in the order in which the arrow keys
/// meet them, from the current one on. The font families are listed as given: walking
/// them would cost a font parse for each that cannot be drawn.
pub fn choices(
    s: &Settings,
    row: PrefRow,
    families: &Vec<String>,
    terms: &Vec<String>,
    catalog: &Catalog,
) -> (r: Vec<String>)
    ensures
        views(r@) == choices_of(s@, row, views(families@), views(terms@), *catalog),
{
    if control(row) != Control::PopUp {
        let none: Vec<String> = Vec::new();
        assert(views(none@) =~= Seq::<Seq<char>>::empty());
        return none;
    }
    if row == PrefRow::FontFamily {
        return copies(families);
    }
    let mut probe: Settings = s.copy();
    unlock(&mut probe, row, catalog);
    let first: String = match label(&probe, row, catalog) {
        Some(name) => name,
        None => String::new(),
    };
    let mut out: Vec<String> = Vec::new();
    out.push(first);
    assert(views(out@) =~= seq![label_of(probe@, row, *catalog)->0]);
    let ghost whole = choices_of(s@, row, views(families@), views(terms@), *catalog);
    let mut k: usize = 0;
    while k < MAX_STEPS
        invariant_except_break
            ring_walk(
                probe@,
                row,
                views(terms@),
                *catalog,
                views(out@),
                (MAX_STEPS - k) as nat,
            ) == whole,
        invariant
            k <= MAX_STEPS,
            row != PrefRow::FontFamily,
            control_of(row) == Control::PopUp,
        ensures
            views(out@) == whole,
        decreases MAX_STEPS - k,
    {
        step_fixed(&mut probe, row, 1, terms, catalog);
        let next: String = match label(&probe, row, catalog) {
            Some(name) => name,
            None => String::new(),
        };
        proof {
            crate::ring::place_is_first(views(out@), next@);
        }
        if position(&out, next.as_str()).is_some() {
            break;
        }
        let ghost met = views(out@);
        out.push(next);
        assert(views(out@) =~= met.push(next@));
        k = k + 1;
    }
    out
}

/// How far ahead of `from` a place `x` lies in a ring of `n`, going forward.
pub open spec fn turns(from: int, x: int, n: int) -> int {
    (x - from) % n
}

fn fwd(from: usize, x: usize, n: usize) -> (r: usize)
    requires
        from < n,
        x < n,
    ensures
        r == turns(from as int, x as int, n as int),
        r < n,
{
    if x >= from {
        proof {
            vstd::arithmetic::div_mod::lemma_small_mod((x - from) as nat, n as nat);
        }
        x - from
    } else {
        proof {
            let d = x as int - from as int;
            vstd::arithmetic::div_mod::lemma_mod_add_multiples_vanish(d, n as int);
            vstd::arithmetic::div_mod::lemma_small_mod((d + n) as nat, n as nat);
        }
        n - (from - x)
    }
}

/// Whether a move from place `b` to place `a`, going `dir` round a ring of `n`, went
/// past `to` without landing on it.
pub open spec fn overshot(b: int, a: int, to: int, dir: int, n: int) -> bool {
    if dir > 0 {
        turns(b, a, n) > turns(b, to, n)
    } else {
        turns(a, b, n) > turns(to, b, n)
    }
}

/// Did a move from place `b` to place `a`, going `dir` round a ring of `n`, go past
/// `to` without landing on it?
fn passed(b: usize, a: usize, to: usize, dir: i32, n: usize) -> (r: bool)
    requires
        b < n,
        a < n,
        to < n,
    ensures
        r == overshot(b as int, a as int, to as int, dir as int, n as int),
{
    if dir > 0 {
        fwd(b, a, n) > fwd(b, to, n)
    } else {
        fwd(a, b, n) > fwd(to, b, n)
    }
}

/// The way to walk to `target`: the shorter one round the ring; forward, from a name
/// that is not in it.
pub open spec fn choice_dir(list: Seq<Seq<char>>, cur: Seq<char>, target: Seq<char>) -> int {
    match place(list, cur) {
        Some(at) => if turns(at, place(list, target)->0, list.len() as int) * 2 <= list.len() {
            1
        } else {
            -1
        },
        None => 1,
    }
}

/// Whether a walk to `target` stops after a step from the name `before` to the name
/// `after`: it is there, or did not move, or lost its place, or went past.
pub open spec fn walk_stops(
    list: Seq<Seq<char>>,
    target: Seq<char>,
    dir: int,
    before: Seq<char>,
    after: Seq<char>,
) -> bool {
    ||| after == target
    ||| after == before
    ||| place(list, before) is None
    ||| place(list, after) is None
    ||| overshot(
        place(list, before)->0,
        place(list, after)->0,
        place(list, target)->0,
        dir,
        list.len() as int,
    )
}

/// Whether `states` is a walk of `row` to `target`: each of them one step on from the
/// one before, none of them but the last a place to stop, and the last such a place,
/// or as many steps away as the walk may take.
pub open spec fn choice_walk<F: FnMut(&String) -> bool>(
    states: Seq<SettingsModel>,
    row: PrefRow,
    target: Seq<char>,
    list: Seq<Seq<char>>,
    families: Seq<String>,
    terms: Seq<String>,
    catalog: Catalog,
    usable: F,
) -> bool {
    let dir = choice_dir(list, label_of(states[0], row, catalog)->0, target);
    let bound: nat = if list.len() < MAX_STEPS {
        list.len()
    } else {
        MAX_STEPS as nat
    };
    &&& states.len() >= 1
    &&& forall|i: int|
        #![trigger states[i]]
        0 < i < states.len() ==> may_step(
            states[i - 1],
            row,
            dir,
            families,
            terms,
            catalog,
            usable,
            states[i],
        )
    &&& forall|i: int|
        #![trigger states[i]]
        0 < i < states.len() - 1 ==> !walk_stops(
            list,
            target,
            dir,
            label_of(states[i - 1], row, catalog)->0,
            label_of(states[i], row, catalog)->0,
        )
    &&& states.len() - 1 <= bound
    &&& states.len() - 1 == bound || (states.len() > 1 && walk_stops(
        list,
        target,
        dir,
        label_of(states[states.len() - 2], row, catalog)->0,
        label_of(states[states.len() - 1], row, catalog)->0,
    ))
}

/// Drive `row` to `target` by repeated steps, and report where the model landed.
///
/// The walk takes the shorter way round the ring and stops when the name matches, when
/// the model refuses to move, or when a step went clean over the target, as it does
/// over a font family that cannot be drawn. A target that is no choice of the row's
/// changes nothing and reports nothing.
#[verifier::loop_isolation(false)]
#[verifier::rlimit(40)]
pub fn apply_choice<F: FnMut(&String) -> bool>(
    s: &mut Settings,
    row: PrefRow,
    target: &str,
    families: &Vec<String>,
    terms: &Vec<String>,
    catalog: &Catalog,
    usable: &mut F,
) -> (r: Option<String>)
    requires
        forall|f: &String| call_requires(*old(usable), (f,)),
    ensures
        *final(usable) == *old(usable),
        control_of(row) != Control::PopUp ==> r is None && final(s)@ == old(s)@,
        control_of(row) == Control::PopUp ==> {
            let list = choices_of(old(s)@, row, views(families@), views(terms@), *catalog);
            let cur = label_of(old(s)@, row, *catalog)->0;
            if cur == target@ || list.len() == 0 {
                text_view(r) == Some(cur) && final(s)@ == old(s)@
            } else if !list.contains(target@) {
                r is None && final(s)@ == old(s)@
            } else {
                &&& text_view(r) == label_of(final(s)@, row, *catalog)
                &&& exists|states: Seq<SettingsModel>| #[trigger]
                    choice_walk(
                        states,
                        row,
                        target@,
                        list,
                        families@,
                        terms@,
                        *catalog,
                        *old(usable),
                    ) && states[0] == old(s)@ && states.last() == final(s)@
            }
        },
{
    if control(row) != Control::PopUp {
        return None;
    }
    let list: Vec<String> = choices(s, row, families, terms, catalog);
    let ghost names = views(list@);
    let n: usize = list.len();
    let cur: String = match label(s, row, catalog) {
        Some(name) => name,
        None => return None,
    };
    if n == 0 || same_text(cur.as_str(), target) {
        return Some(cur);
    }
    proof {
        crate::ring::place_is_first(names, target@);
    }
    let at: Option<usize> = position(&list, cur.as_str());
    let to: usize = match position(&list, target) {
        Some(to) => to,
        None => return None,
    };
    let dir: i32 = match at {
        Some(i) => {
            let ahead: usize = fwd(i, to, n);
            if ahead <= n - ahead {
                1
            } else {
                -1
            }
        },
        None => 1,
    };
    let bound: usize = if n < MAX_STEPS {
        n
    } else {
        MAX_STEPS
    };
    let ghost mut states: Seq<SettingsModel> = seq![s@];
    let mut before: String = cur;
    let mut k: usize = 0;
    while k < bound
        invariant
            k <= bound,
            *usable == *old(usable),
            states.len() == k + 1,
            states[0] == old(s)@,
            states.last() == s@,
            Some(before@) == label_of(s@, row, *catalog),
            dir == choice_dir(names, label_of(states[0], row, *catalog)->0, target@),
            forall|i: int|
                #![trigger states[i]]
                0 < i < states.len() ==> may_step(
                    states[i - 1],
                    row,
                    dir as int,
                    families@,
                    terms@,
                    *catalog,
                    *old(usable),
                    states[i],
                ),
            forall|i: int|
                #![trigger states[i]]
                0 < i < states.len() ==> !walk_stops(
                    names,
                    target@,
                    dir as int,
                    label_of(states[i - 1], row, *catalog)->0,
                    label_of(states[i], row, *catalog)->0,
                ),
        decreases bound - k,
    {
        let ghost earlier = states;
        step(s, row, dir, families, terms, catalog, usable);
        let after: String = match label(s, row, catalog) {
            Some(name) => name,
            None => return None,
        };
        proof {
            states = earlier.push(s@);
            assert(states[states.len() - 2] == earlier.last());
            assert forall|i: int| #![trigger states[i]] 0 < i < states.len() implies may_step(
                states[i - 1],
                row,
                dir as int,
                families@,
                terms@,
                *catalog,
                *old(usable),
                states[i],
            ) by {
                if i < earlier.len() {
                    assert(states[i] == earlier[i] && states[i - 1] == earlier[i - 1]);
                }
            }
            assert forall|i: int| #![trigger states[i]] 0 < i < states.len() - 1 implies !walk_stops(
                names,
                target@,
                dir as int,
                label_of(states[i - 1], row, *catalog)->0,
                label_of(states[i], row, *catalog)->0,
            ) by {
                assert(states[i] == earlier[i] && states[i - 1] == earlier[i - 1]);
            }
        }
        let there: bool = same_text(after.as_str(), target);
        let still: bool = same_text(after.as_str(), before.as_str());
        let stop: bool = there || still || match (
            position(&list, before.as_str()),
            position(&list, after.as_str()),
        ) {
            (Some(b), Some(a)) => passed(b, a, to, dir, n),
            _ => true,
        };
        assert(stop == walk_stops(names, target@, dir as int, before@, after@));
        if stop {
            assert(choice_walk(states, row, target@, names, families@, terms@, *catalog, *old(usable)));
            return Some(after);
        }
        before = after;
        k = k + 1;
    }
    assert(choice_walk(states, row, target@, names, families@, terms@, *catalog, *old(usable)));
    Some(before)
}

/// Drive a [`Control::Switch`] row to `target`, and report where it landed. The model
/// has only a flip, so this compares and flips at most once.
pub fn apply_flag<F: FnMut(&String) -> bool>(
    s: &mut Settings,
    row: PrefRow,
    target: bool,
    families: &Vec<String>,
    terms: &Vec<String>,
    catalog: &Catalog,
    usable: &mut F,
) -> (r: Option<bool>)
    requires
        forall|f: &String| call_requires(*old(usable), (f,)),
    ensures
        *final(usable) == *old(usable),
        r == flag_of(final(s)@, row),
        final(s)@ == if flag_of(old(s)@, row) == Some(!target) {
            next_settings(old(s)@, row, 1, views(terms@), *catalog)
        } else {
            old(s)@
        },
{
    match flag(s, row) {
        None => None,
        Some(now) => {
            if now != target {
                step(s, row, 1, families, terms, catalog, usable);
            }
            flag(s, row)
        },
    }
}

/// How far apart two numbers are.
pub open spec fn apart(a: int, b: int) -> int {
    if a < b {
        b - a
    } else {
        a - b
    }
}

/// Where `row` ends when it is driven towards `target`: one rung of the model's ladder
/// after another, up to the one that is nearest.
pub open spec fn driven(
    m: SettingsModel,
    row: PrefRow,
    target: int,
    terms: Seq<Seq<char>>,
    catalog: Catalog,
    steps: nat,
) -> SettingsModel
    decreases steps,
{
    let cur = number_of(m, row)->0;
    if steps == 0 || cur == target {
        m
    } else {
        let up = target > cur;
        let next = next_settings(
            m,
            row,
            if up {
                1
            } else {
                -1
            },
            terms,
            catalog,
        );
        let landed = number_of(next, row)->0;
        let over = if up {
            landed > target
        } else {
            landed < target
        };
        if landed == cur || (over && apart(landed, target) >= apart(cur, target)) {
            m
        } else if over {
            next
        } else {
            driven(next, row, target, terms, catalog, (steps - 1) as nat)
        }
    }
}

fn distance(a: i128, b: i128) -> (r: i128)
    requires
        -0x1_0000_0000_0000_0000 <= a <= 0x1_0000_0000_0000_0000,
        -0x1_0000_0000_0000_0000 <= b <= 0x1_0000_0000_0000_0000,
    ensures
        r == apart(a as int, b as int),
{
    if a < b {
        b - a
    } else {
        a - b
    }
}

/// Drive `row` to `target` by repeated steps, and report the number the model landed
/// on.
///
/// The walk goes up or down the model's ladder towards the request and stops on the
/// rung nearest to it, never past what the model clamps to; so a drag below the opacity
/// floor springs back. A row without a number has nothing to report.
#[verifier::rlimit(60)]
#[verifier::spinoff_prover]
pub fn apply_number<F: FnMut(&String) -> bool>(
    s: &mut Settings,
    row: PrefRow,
    target: i64,
    families: &Vec<String>,
    terms: &Vec<String>,
    catalog: &Catalog,
    usable: &mut F,
) -> (r: Option<i128>)
    requires
        forall|f: &String| call_requires(*old(usable), (f,)),
    ensures
        *final(usable) == *old(usable),
        int_view(r) == number_of(final(s)@, row),
        final(s)@ == if number_of(old(s)@, row) is None {
            old(s)@
        } else {
            driven(old(s)@, row, target as int, views(terms@), *catalog, MAX_STEPS as nat)
        },
{
    let mut cur: i128 = match number(s, row) {
        Some(n) => n,
        None => return None,
    };
    let want: i128 = target as i128;
    let mut k: usize = 0;
    while k < MAX_STEPS
        invariant
            k <= MAX_STEPS,
            want == target,
            0 <= cur <= u64::MAX,
            Some(cur as int) == number_of(s@, row),
            *usable == *old(usable),
            forall|f: &String| call_requires(*old(usable), (f,)),
            number_of(old(s)@, row) is Some,
            driven(s@, row, target as int, views(terms@), *catalog, (MAX_STEPS - k) as nat) == driven(
                old(s)@,
                row,
                target as int,
                views(terms@),
                *catalog,
                MAX_STEPS as nat,
            ),
        decreases MAX_STEPS - k,
    {
        if cur == want {
            return Some(cur);
        }
        let up: bool = want > cur;
        let mut probe: Settings = s.copy();
        step(
            &mut probe,
            row,
            if up {
                1
            } else {
                -1
            },
            families,
            terms,
            catalog,
            usable,
        );
        let next: i128 = match number(&probe, row) {
            Some(n) => n,
            None => return Some(cur),
        };
        if next == cur {
            return Some(cur);
        }
        let over: bool = if up {
            next > want
        } else {
            next < want
        };
        if over && distance(next, want) >= distance(cur, want) {
            return Some(cur);
        }
        *s = probe;
        cur = next;
        if over {
            return Some(cur);
        }
        k = k + 1;
    }
    Some(cur)
}

} // verus!

//! Which setting each preferences row edits, and what one step does to it.
//!
//! Every rule clamps or wraps, so no step can leave the settings out of bounds; and a
//! row that is greyed refuses the step.
use vstd::prelude::*;
use vstd::string::*;
use crate::ring::{cycle, cycled, next_place, next_position, ring_step, stepped};
use crate::settings::{
    clamp, clamped, opacity_floor, same_palette, wants_blur, with_opacity, Catalog, Material, Scheme,
    Settings, SettingsModel, MAX_ARROW_ACCEL, MAX_OPACITY, MAX_SCROLLBACK, MIN_OPACITY,
    MIN_OPACITY_BLURRED,
};
use crate::text::{same_text, views};

verus! {

broadcast use vstd::string::group_string_axioms;

/// Which setting a preferences row edits. `Close` dismisses the dialog and edits
/// nothing.
#[derive(Clone, Copy, Debug, PartialEq, Eq, Structural)]
pub enum PrefRow {
    FontSize,
    FontFamily,
    Opacity,
    Blur,
    /// The material that the frosted glass is made of.
    GlassMaterial,
    BlurRadius,
    /// The theme of the application's own chrome.
    Chrome,
    Preset,
    Ffm,
    Titlebar,
    Scrollback,
    InstOutput,
    InstHeat,
    InstLatency,
    Jacks,
    InstRemote,
    InstAnimate,
    ArrowAccel,
    ArrowAccelMax,
    Term,
    Close,
}

/// Font size bounds, in thousandths of a pixel. The upper one is a guardrail: every
/// glyph must be rasterised at this size.
pub const FONT_MIN: u32 = 8_000;

pub const FONT_MAX: u32 = 48_000;

/// One font size step: a pixel.
pub const FONT_STEP: i64 = 1_000;

/// Scrollback floor. The ceiling is [`MAX_SCROLLBACK`].
pub const SCROLLBACK_MIN: usize = 1_000;

/// One opacity step, in thousandths.
pub const OPACITY_STEP: i64 = 50;

/// The names of the glass materials, in order.
pub open spec fn material_names(materials: Seq<Material>) -> Seq<Seq<char>> {
    Seq::new(materials.len(), |i: int| materials[i].name@)
}

/// The names of the schemes, in order.
pub open spec fn scheme_names(schemes: Seq<Scheme>) -> Seq<Seq<char>> {
    Seq::new(schemes.len(), |i: int| schemes[i].name@)
}

/// Whether the material called `name` is an effect view.
pub open spec fn is_effect_view(materials: Seq<Material>, name: Seq<char>) -> bool {
    exists|i: int| 0 <= i < materials.len() && #[trigger] materials[i].name@ == name && materials[i].effect_view
}

/// Whether a row is live. The instrument tick needs two flags, so its second row is
/// inert without the first; an acceleration cap is moot without acceleration; and
/// without glass on screen there is no material and no radius to shape.
pub open spec fn live(m: SettingsModel, row: PrefRow, catalog: Catalog) -> bool {
    match row {
        PrefRow::InstAnimate => m.inst_remote,
        PrefRow::ArrowAccelMax => m.arrow_accel,
        PrefRow::GlassMaterial => wants_blur(m),
        PrefRow::BlurRadius => wants_blur(m) && !is_effect_view(
            catalog.materials@,
            m.macos_glass_material,
        ),
        _ => true,
    }
}

fn effect_view(materials: &Vec<Material>, name: &str) -> (r: bool)
    ensures
        r == is_effect_view(materials@, name@),
{
    let mut i: usize = 0;
    while i < materials.len()
        invariant
            i <= materials@.len(),
            forall|j: int|
                0 <= j < i ==> !(#[trigger] materials@[j].name@ == name@ && materials@[j].effect_view),
        decreases materials@.len() - i,
    {
        if materials[i].effect_view && same_text(materials[i].name.as_str(), name) {
            return true;
        }
        i = i + 1;
    }
    false
}

/// Is this row live? A row that is not draws dimmed and refuses steps.
pub fn enabled(s: &Settings, row: PrefRow, catalog: &Catalog) -> (r: bool)
    ensures
        r == live(s@, row, *catalog),
{
    match row {
        PrefRow::InstAnimate => s.inst_remote,
        PrefRow::ArrowAccelMax => s.arrow_accel,
        PrefRow::GlassMaterial => s.wants_background_blur(),
        PrefRow::BlurRadius => s.wants_background_blur() && !effect_view(
            &catalog.materials,
            s.macos_glass_material.as_str(),
        ),
        _ => true,
    }
}

/// Whether the settings carry the colours of `scheme`.
pub open spec fn wears(m: SettingsModel, scheme: Scheme) -> bool {
    scheme.foreground == m.foreground && scheme.background == m.background && scheme.palette@ == m.palette
}

/// The name of the first scheme whose colours the settings carry.
pub open spec fn worn_scheme(m: SettingsModel, schemes: Seq<Scheme>) -> Option<Seq<char>>
    decreases schemes.len(),
{
    if schemes.len() == 0 {
        None
    } else {
        match worn_scheme(m, schemes.drop_last()) {
            Some(name) => Some(name),
            None => if wears(m, schemes.last()) {
                Some(schemes.last().name@)
            } else {
                None
            },
        }
    }
}

/// What the preset row reads.
pub open spec fn preset_label(m: SettingsModel, schemes: Seq<Scheme>) -> Seq<char> {
    match worn_scheme(m, schemes) {
        Some(name) => name,
        None => "custom"@,
    }
}

/// The name of the scheme whose colours the settings carry, or `"custom"`: the normal
/// state for anyone who has edited a colour.
pub fn preset_name(s: &Settings, catalog: &Catalog) -> (r: String)
    ensures
        r@ == preset_label(s@, catalog.schemes@),
{
    let schemes: &Vec<Scheme> = &catalog.schemes;
    let mut i: usize = 0;
    while i < schemes.len()
        invariant
            i <= schemes@.len(),
            schemes@ == catalog.schemes@,
            worn_scheme(s@, schemes@.take(i as int)) is None,
        decreases schemes@.len() - i,
    {
        assert(schemes@.take(i + 1).drop_last() =~= schemes@.take(i as int));
        if schemes[i].foreground == s.foreground && schemes[i].background == s.background && same_palette(
            &schemes[i].palette,
            &s.palette,
        ) {
            proof {
                lemma_worn_stays(s@, schemes@, i + 1);
            }
            return schemes[i].name.clone();
        }
        i = i + 1;
    }
    assert(schemes@.take(i as int) =~= schemes@);
    "custom".to_string()
}

proof fn lemma_worn_stays(m: SettingsModel, schemes: Seq<Scheme>, n: int)
    requires
        0 <= n <= schemes.len(),
        worn_scheme(m, schemes.take(n)) is Some,
    ensures
        worn_scheme(m, schemes) == worn_scheme(m, schemes.take(n)),
    decreases schemes.len() - n,
{
    if n < schemes.len() {
        assert(schemes.take(n + 1).drop_last() =~= schemes.take(n));
        lemma_worn_stays(m, schemes, n + 1);
    } else {
        assert(schemes.take(n) =~= schemes);
    }
}

/// The settings in the colours of `scheme`.
pub open spec fn wearing(m: SettingsModel, scheme: Scheme) -> SettingsModel {
    SettingsModel {
        foreground: scheme.foreground,
        background: scheme.background,
        palette: scheme.palette@,
        ..m
    }
}

/// Puts the settings in the colours of `scheme`: text, background and palette.
pub fn apply_scheme(s: &mut Settings, scheme: &Scheme)
    ensures
        final(s)@ == wearing(old(s)@, *scheme),
{
    s.foreground = scheme.foreground;
    s.background = scheme.background;
    s.palette = scheme.palette;
}

/// What one step of `dir` does to a live row other than the font family. A toggle
/// flips either way; turning the blur off carries the opacity back over its floor.
pub open spec fn stepped_settings(
    m: SettingsModel,
    row: PrefRow,
    dir: int,
    terms: Seq<Seq<char>>,
    catalog: Catalog,
) -> SettingsModel {
    match row {
        PrefRow::FontSize => SettingsModel {
            font_size: clamped(m.font_size + dir * FONT_STEP, FONT_MIN as int, FONT_MAX as int),
            ..m
        },
        PrefRow::Term => SettingsModel { term: cycled(terms, m.term, dir), ..m },
        PrefRow::Opacity => with_opacity(m, dir * OPACITY_STEP),
        PrefRow::Scrollback => SettingsModel {
            scrollback: clamped(
                if dir > 0 {
                    m.scrollback * 2
                } else {
                    m.scrollback / 2
                },
                SCROLLBACK_MIN as int,
                MAX_SCROLLBACK as int,
            ),
            ..m
        },
        PrefRow::Preset => {
            let schemes = catalog.schemes@;
            if schemes.len() == 0 {
                m
            } else {
                wearing(m, schemes[next_place(scheme_names(schemes), preset_label(m, schemes), dir)])
            }
        },
        PrefRow::GlassMaterial => SettingsModel {
            macos_glass_material: cycled(
                material_names(catalog.materials@),
                m.macos_glass_material,
                dir,
            ),
            ..m
        },
        PrefRow::BlurRadius => SettingsModel {
            macos_blur_radius: clamped(
                m.macos_blur_radius + dir,
                catalog.min_blur_radius as int,
                catalog.max_blur_radius as int,
            ),
            ..m
        },
        PrefRow::Chrome => SettingsModel {
            chrome_theme: cycled(views(catalog.themes@), m.chrome_theme, dir),
            ..m
        },
        PrefRow::Blur => with_opacity(SettingsModel { background_blur: !m.background_blur, ..m }, 0),
        PrefRow::Ffm => SettingsModel { focus_follows_mouse: !m.focus_follows_mouse, ..m },
        PrefRow::Titlebar => SettingsModel { show_titlebar: !m.show_titlebar, ..m },
        PrefRow::InstOutput => SettingsModel { inst_output: !m.inst_output, ..m },
        PrefRow::InstHeat => SettingsModel { inst_heat: !m.inst_heat, ..m },
        PrefRow::InstLatency => SettingsModel { inst_latency: !m.inst_latency, ..m },
        PrefRow::Jacks => SettingsModel { show_jacks: !m.show_jacks, ..m },
        PrefRow::InstRemote => SettingsModel { inst_remote: !m.inst_remote, ..m },
        PrefRow::InstAnimate => SettingsModel { inst_animate: !m.inst_animate, ..m },
        PrefRow::ArrowAccel => SettingsModel { arrow_accel: !m.arrow_accel, ..m },
        PrefRow::ArrowAccelMax => SettingsModel {
            arrow_accel_max: clamped(m.arrow_accel_max + dir, 1, MAX_ARROW_ACCEL as int),
            ..m
        },
        PrefRow::FontFamily | PrefRow::Close => m,
    }
}

/// The place in a ring of `n` that `k` steps of `dir` lead to from `start`.
pub open spec fn visited(start: int, dir: int, k: nat, n: int) -> int
    decreases k,
{
    if k == 0 {
        start
    } else {
        stepped(visited(start, dir, (k - 1) as nat, n), dir, n)
    }
}

/// Whether `usable` answered `answer` when asked about each of the first `k` families
/// that a walk of `dir` visits from `start`.
pub open spec fn refused_before<F: FnMut(&String) -> bool>(
    families: Seq<String>,
    start: int,
    dir: int,
    k: nat,
    usable: F,
) -> bool {
    forall|j: nat|
        j < k ==> call_ensures(
            usable,
            (&families[#[trigger] visited(start, dir, j, families.len() as int)],),
            false,
        )
}

/// Whether a step of `dir` from the family `name` may land on `landed`: on the first
/// family of the walk that `usable` did not refuse, or where it was if it refused all.
pub open spec fn family_lands<F: FnMut(&String) -> bool>(
    families: Seq<String>,
    name: Seq<char>,
    dir: int,
    usable: F,
    landed: Seq<char>,
) -> bool {
    let n = families.len() as int;
    let start = next_place(views(families), name, dir);
    if n == 0 {
        landed == name
    } else {
        ||| exists|k: nat|
            k < n && #[trigger] refused_before(families, start, dir, k, usable) && call_ensures(
                usable,
                (&families[visited(start, dir, k, n)],),
                true,
            ) && landed == families[visited(start, dir, k, n)]@
        ||| refused_before(families, start, dir, n as nat, usable) && landed == name
    }
}

/// What one step of `dir` does to a row other than the font family: nothing, where the
/// row is not live.
#[verifier::opaque]
pub open spec fn next_settings(
    m: SettingsModel,
    row: PrefRow,
    dir: int,
    terms: Seq<Seq<char>>,
    catalog: Catalog,
) -> SettingsModel {
    if live(m, row, catalog) {
        stepped_settings(m, row, dir, terms, catalog)
    } else {
        m
    }
}

/// Whether one step of `dir` on `row` may turn the settings `m` into `after`. Only the
/// font family leaves a choice, which is the oracle's.
pub open spec fn may_step<F: FnMut(&String) -> bool>(
    m: SettingsModel,
    row: PrefRow,
    dir: int,
    families: Seq<String>,
    terms: Seq<String>,
    catalog: Catalog,
    usable: F,
    after: SettingsModel,
) -> bool {
    if row == PrefRow::FontFamily {
        &&& family_lands(families, m.font_family, dir, usable, after.font_family)
        &&& after == SettingsModel { font_family: after.font_family, ..m }
    } else {
        after == next_settings(m, row, dir, views(terms), catalog)
    }
}

fn names_of_materials(materials: &Vec<Material>) -> (r: Vec<String>)
    ensures
        views(r@) == material_names(materials@),
{
    let mut out: Vec<String> = Vec::new();
    let mut i: usize = 0;
    while i < materials.len()
        invariant
            i <= materials@.len(),
            out@.len() == i,
            forall|j: int| 0 <= j < i ==> (#[trigger] out@[j])@ == materials@[j].name@,
        decreases materials@.len() - i,
    {
        out.push(materials[i].name.clone());
        i = i + 1;
    }
    assert(views(out@) =~= material_names(materials@));
    out
}

fn names_of_schemes(schemes: &Vec<Scheme>) -> (r: Vec<String>)
    ensures
        views(r@) == scheme_names(schemes@),
        r@.len() == schemes@.len(),
{
    let mut out: Vec<String> = Vec::new();
    let mut i: usize = 0;
    while i < schemes.len()
        invariant
            i <= schemes@.len(),
            out@.len() == i,
            forall|j: int| 0 <= j < i ==> (#[trigger] out@[j])@ == schemes@[j].name@,
        decreases schemes@.len() - i,
    {
        out.push(schemes[i].name.clone());
        i = i + 1;
    }
    assert(views(out@) =~= scheme_names(schemes@));
    out
}

/// The family that a step of `dir` from `name` lands on, if it leaves `name`.
#[verifier::loop_isolation(false)]
fn next_family<F: FnMut(&String) -> bool>(families: &Vec<String>, name: &str, dir: i32, usable: &mut F) -> (r: Option<
    String,
>)
    requires
        forall|f: &String| call_requires(*old(usable), (f,)),
    ensures
        *final(usable) == *old(usable),
        family_lands(
            families@,
            name@,
            dir as int,
            *old(usable),
            match r {
                Some(s) => s@,
                None => name@,
            },
        ),
{
    let n: usize = families.len();
    if n == 0 {
        return None;
    }
    let start: usize = next_position(families, name, dir);
    let mut at: usize = start;
    let mut k: usize = 0;
    let ghost asked = *usable;
    while k < n
        invariant
            k <= n,
            at < n,
            n == families@.len(),
            *usable == asked,
            at == visited(start as int, dir as int, k as nat, n as int),
            refused_before(families@, start as int, dir as int, k as nat, asked),
        decreases n - k,
    {
        let fine: bool = usable(&families[at]);
        if fine {
            return Some(families[at].clone());
        }
        at = ring_step(at, dir, n);
        k = k + 1;
    }
    None
}

/// Whether a row edits a quantity.
pub open spec fn edits_number(row: PrefRow) -> bool {
    row == PrefRow::FontSize || row == PrefRow::Opacity || row == PrefRow::Scrollback || row
        == PrefRow::BlurRadius || row == PrefRow::ArrowAccelMax
}

/// Whether a row walks a ring of names that the machine does not decide on.
pub open spec fn edits_name(row: PrefRow) -> bool {
    row == PrefRow::Term || row == PrefRow::Preset || row == PrefRow::GlassMaterial || row == PrefRow::Chrome
}

fn step_number(s: &mut Settings, row: PrefRow, dir: i32, catalog: &Catalog)
    requires
        edits_number(row),
    ensures
        final(s)@ == stepped_settings(old(s)@, row, dir as int, Seq::empty(), *catalog),
{
    match row {
        PrefRow::FontSize => {
            let next: i64 = s.font_size as i64 + dir as i64 * FONT_STEP;
            s.font_size = clamp(next, FONT_MIN as i64, FONT_MAX as i64) as u32;
        },
        PrefRow::Opacity => {
            let floor: i64 = if s.background_blur {
                MIN_OPACITY_BLURRED as i64
            } else {
                MIN_OPACITY as i64
            };
            let next: i64 = s.background_opacity as i64 + dir as i64 * OPACITY_STEP;
            s.background_opacity = clamp(next, floor, MAX_OPACITY as i64) as u32;
        },
        PrefRow::Scrollback => {
            let next: usize = if dir > 0 {
                if s.scrollback > MAX_SCROLLBACK {
                    MAX_SCROLLBACK
                } else {
                    s.scrollback * 2
                }
            } else {
                s.scrollback / 2
            };
            s.scrollback = if next < SCROLLBACK_MIN {
                SCROLLBACK_MIN
            } else if next > MAX_SCROLLBACK {
                MAX_SCROLLBACK
            } else {
                next
            };
        },
        PrefRow::BlurRadius => {
            let next: i64 = s.macos_blur_radius as i64 + dir as i64;
            s.macos_blur_radius = clamp(
                next,
                catalog.min_blur_radius as i64,
                catalog.max_blur_radius as i64,
            ) as u32;
        },
        _ => {
            let next: i64 = s.arrow_accel_max as i64 + dir as i64;
            s.arrow_accel_max = clamp(next, 1, MAX_ARROW_ACCEL as i64) as u32;
        },
    }
}

fn step_name(s: &mut Settings, row: PrefRow, dir: i32, terms: &Vec<String>, catalog: &Catalog)
    requires
        edits_name(row),
    ensures
        final(s)@ == stepped_settings(old(s)@, row, dir as int, views(terms@), *catalog),
{
    match row {
        PrefRow::Term => {
            cycle(terms, &mut s.term, dir);
        },
        PrefRow::Preset => {
            if catalog.schemes.len() > 0 {
                let names: Vec<String> = names_of_schemes(&catalog.schemes);
                let worn: String = preset_name(s, catalog);
                let next: usize = next_position(&names, worn.as_str(), dir);
                apply_scheme(s, &catalog.schemes[next]);
            }
        },
        PrefRow::GlassMaterial => {
            let names: Vec<String> = names_of_materials(&catalog.materials);
            cycle(&names, &mut s.macos_glass_material, dir);
        },
        _ => {
            cycle(&catalog.themes, &mut s.chrome_theme, dir);
        },
    }
}

fn step_flag(s: &mut Settings, row: PrefRow, catalog: &Catalog)
    requires
        !edits_number(row),
        !edits_name(row),
    ensures
        forall|dir: int, terms: Seq<Seq<char>>|
            final(s)@ == #[trigger] stepped_settings(old(s)@, row, dir, terms, *catalog),
{
    match row {
        PrefRow::Blur => {
            s.background_blur = !s.background_blur;
            s.adjust_opacity(0);
        },
        PrefRow::Ffm => {
            s.focus_follows_mouse = !s.focus_follows_mouse;
        },
        PrefRow::Titlebar => {
            s.show_titlebar = !s.show_titlebar;
        },
        PrefRow::InstOutput => {
            s.inst_output = !s.inst_output;
        },
        PrefRow::InstHeat => {
            s.inst_heat = !s.inst_heat;
        },
        PrefRow::InstLatency => {
            s.inst_latency = !s.inst_latency;
        },
        PrefRow::Jacks => {
            s.show_jacks = !s.show_jacks;
        },
        PrefRow::InstRemote => {
            s.inst_remote = !s.inst_remote;
        },
        PrefRow::InstAnimate => {
            s.inst_animate = !s.inst_animate;
        },
        PrefRow::ArrowAccel => {
            s.arrow_accel = !s.arrow_accel;
        },
        _ => {},
    }
}

/// One step of `dir` on a row that no oracle decides on.
pub(crate) fn step_fixed(s: &mut Settings, row: PrefRow, dir: i32, terms: &Vec<String>, catalog: &Catalog)
    requires
        row != PrefRow::FontFamily,
    ensures
        final(s)@ == next_settings(old(s)@, row, dir as int, views(terms@), *catalog),
{
    proof {
        reveal(next_settings);
    }
    if !enabled(s, row, catalog) {
        return;
    }
    match row {
        PrefRow::FontSize
        | PrefRow::Opacity
        | PrefRow::Scrollback
        | PrefRow::BlurRadius
        | PrefRow::ArrowAccelMax => {
            step_number(s, row, dir, catalog);
        },
        PrefRow::Term | PrefRow::Preset | PrefRow::GlassMaterial | PrefRow::Chrome => {
            step_name(s, row, dir, terms, catalog);
        },
        _ => {
            step_flag(s, row, catalog);
        },
    }
}

/// Apply one step of `dir` (forward or back) to `row`'s setting.
///
/// `families` is the installed monospace fonts and `terms` the terminal types that the
/// machine knows. `usable` says whether a family can be drawn: a step over the families
/// passes by those that cannot.
pub fn step<F: FnMut(&String) -> bool>(
    s: &mut Settings,
    row: PrefRow,
    dir: i32,
    families: &Vec<String>,
    terms: &Vec<String>,
    catalog: &Catalog,
    usable: &mut F,
)
    requires
        forall|f: &String| call_requires(*old(usable), (f,)),
    ensures
        *final(usable) == *old(usable),
        may_step(
            old(s)@,
            row,
            dir as int,
            families@,
            terms@,
            *catalog,
            *old(usable),
            final(s)@,
        ),
{
    if row == PrefRow::FontFamily {
        if let Some(family) = next_family(families, s.font_family.as_str(), dir, usable) {
            s.font_family = family;
        }
    } else {
        step_fixed(s, row, dir, terms, catalog);
    }
}

/// Whether every stepped quantity lies within its bounds.
pub open spec fn within_bounds(m: SettingsModel, catalog: Catalog) -> bool {
    &&& FONT_MIN <= m.font_size <= FONT_MAX
    &&& opacity_floor(m.background_blur) <= m.background_opacity <= MAX_OPACITY
    &&& SCROLLBACK_MIN <= m.scrollback <= MAX_SCROLLBACK
    &&& catalog.min_blur_radius <= m.macos_blur_radius <= catalog.max_blur_radius
    &&& 1 <= m.arrow_accel_max <= MAX_ARROW_ACCEL
}

/// No step leaves the settings out of bounds.
pub proof fn stepping_keeps_the_bounds<F: FnMut(&String) -> bool>(
    m: SettingsModel,
    row: PrefRow,
    dir: int,
    families: Seq<String>,
    terms: Seq<String>,
    catalog: Catalog,
    usable: F,
    after: SettingsModel,
)
    requires
        within_bounds(m, catalog),
        may_step(m, row, dir, families, terms, catalog, usable, after),
    ensures
        within_bounds(after, catalog),
{
    reveal(next_settings);
}

/// Whether a row is a plain switch: turning it changes nothing but its own flag.
pub open spec fn plain_switch(row: PrefRow) -> bool {
    row == PrefRow::Ffm || row == PrefRow::Titlebar || row == PrefRow::InstOutput || row
        == PrefRow::InstHeat || row == PrefRow::InstLatency || row == PrefRow::Jacks || row
        == PrefRow::InstRemote || row == PrefRow::InstAnimate || row == PrefRow::ArrowAccel
}

/// A switch flips whichever way it is pressed, and two presses put it back.
pub proof fn a_switch_flips_on_either_direction(
    m: SettingsModel,
    row: PrefRow,
    there: int,
    back: int,
    terms: Seq<Seq<char>>,
    catalog: Catalog,
)
    requires
        plain_switch(row),
    ensures
        stepped_settings(m, row, there, terms, catalog) != m,
        stepped_settings(
            stepped_settings(m, row, there, terms, catalog),
            row,
            back,
            terms,
            catalog,
        ) == m,
{
}

/// A doubling of the scrollback is undone by a halving, as long as neither meets a
/// bound.
pub proof fn halving_undoes_doubling(m: SettingsModel, terms: Seq<Seq<char>>, catalog: Catalog)
    requires
        SCROLLBACK_MIN <= m.scrollback,
        m.scrollback * 2 <= MAX_SCROLLBACK,
    ensures
        stepped_settings(
            stepped_settings(m, PrefRow::Scrollback, 1, terms, catalog),
            PrefRow::Scrollback,
            -1,
            terms,
            catalog,
        ) == m,
{
}

/// A preset puts on a whole scheme, and the preset row then reads its name, in a
/// catalog without two schemes of one look.
pub proof fn a_preset_reports_its_name(m: SettingsModel, schemes: Seq<Scheme>, i: int)
    requires
        0 <= i < schemes.len(),
        forall|a: int, b: int|
            0 <= a < b < schemes.len() ==> !(schemes[a].foreground == schemes[b].foreground
                && schemes[a].background == schemes[b].background && schemes[a].palette@
                == schemes[b].palette@),
    ensures
        preset_label(wearing(m, schemes[i]), schemes) == schemes[i].name@,
    decreases schemes.len(),
{
    let worn = wearing(m, schemes[i]);
    assert forall|k: int| 0 <= k <= i implies worn_scheme(worn, #[trigger] schemes.take(k)) is None by {
        lemma_not_worn(worn, schemes, k, i);
    }
    assert(schemes.take(i + 1).drop_last() =~= schemes.take(i));
    assert(schemes.take(i + 1).last() == schemes[i]);
    lemma_worn_stays(worn, schemes, i + 1);
}

proof fn lemma_not_worn(m: SettingsModel, schemes: Seq<Scheme>, k: int, i: int)
    requires
        0 <= k <= i < schemes.len(),
        wears(m, schemes[i]),
        forall|a: int, b: int|
            0 <= a < b < schemes.len() ==> !(schemes[a].foreground == schemes[b].foreground
                && schemes[a].background == schemes[b].background && schemes[a].palette@
                == schemes[b].palette@),
    ensures
        worn_scheme(m, schemes.take(k)) is None,
    decreases k,
{
    if k > 0 {
        lemma_not_worn(m, schemes, k - 1, i);
        assert(schemes.take(k).drop_last() =~= schemes.take(k - 1));
        assert(schemes.take(k).last() == schemes[k - 1]);
    }
}

/// How the colour picker was dismissed.
#[derive(Clone, Copy, Debug, PartialEq, Eq, Structural)]
pub enum PickerDismiss {
    /// The Done button.
    Done,
    /// The Escape key.
    Escape,
    /// A press anywhere outside the picker's panel.
    ClickedOutside,
}

/// What a dismissal does with the colour edited since the picker opened.
#[derive(Clone, Copy, Debug, PartialEq, Eq, Structural)]
pub enum Dismiss {
    /// Apply and persist it.
    Commit,
    /// Throw it away and restore the colour that was there before.
    Discard,
}

/// What a dismissal does with the colour edited since the picker opened: every way out
/// keeps it. The preferences apply live and have no Cancel, and the settle has most
/// often committed the colour already.
pub fn picker_dismiss(way: PickerDismiss) -> (r: Dismiss)
    ensures
        r == Dismiss::Commit,
{
    match way {
        PickerDismiss::Done | PickerDismiss::Escape | PickerDismiss::ClickedOutside => Dismiss::Commit,
    }
}

/// Is a pending edit due to be applied and persisted now? It is once it has held still
/// for the settle, whatever is on screen. Times are in nanoseconds.
pub fn settle_due(has_pending: bool, since_last_edit: u128, settle: u128) -> (r: bool)
    ensures
        r <==> has_pending && since_last_edit >= settle,
{
    has_pending && since_last_edit >= settle
}

} // verus!

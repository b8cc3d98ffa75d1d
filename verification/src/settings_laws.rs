//! What a row of the preferences does to the settings: it moves the setting it names, by its
//! own rung, within its own bounds, and nothing beside it.
use vstd::prelude::*;
use crate::prefs_model::{
    apply_scheme, enabled, next_settings, picker_dismiss, preset_name, settle_due, step, wears, worn_scheme, Dismiss,
    PickerDismiss, PrefRow,
};
use crate::prefs_native::{
    apply_choice, apply_flag, apply_number, control, flag, label, number, range, row_control, Control, RowKind,
};
use crate::ring::next_position;
use crate::settings::{clamp, same_palette, Catalog, Rgb, Scheme, Settings, SettingsModel};
use crate::text::views;

verus! {

/// A number that is cut to bounds lies within them, and is left alone if it did.
pub proof fn a_cut_number_lies_within_its_bounds(x: i64, lo: i64, hi: i64, r: i64)
    requires
        call_ensures(clamp, (x, lo, hi), r),
        lo <= hi,
    ensures
        lo <= r <= hi,
        lo <= x <= hi ==> r == x,
        x < lo ==> r == lo,
        x > hi ==> r == hi,
{
}

/// Two palettes are the same where every one of their colours is.
pub proof fn palettes_are_compared_colour_by_colour(a: &[Rgb; 16], b: &[Rgb; 16], r: bool)
    requires
        call_ensures(same_palette, (a, b), r),
    ensures
        r <==> forall|i: int| 0 <= i < 16 ==> a@[i] == b@[i],
{
    if forall|i: int| 0 <= i < 16 ==> a@[i] == b@[i] {
        assert(a@ =~= b@);
    }
}

/// The background can be made as faint as a twentieth, and fainter than that only where it
/// is blurred; at its strongest it hides everything. In between it moves by what is asked.
pub proof fn the_background_stays_visible(s: &mut Settings, delta: i32, r: u32)
    requires
        call_ensures(Settings::adjust_opacity, (s, delta), r),
    ensures
        r == final(s).background_opacity,
        r <= 1_000,
        !old(s).background_blur ==> r >= 50,
        ({
            let asked = old(s).background_opacity + delta;
            let least: int = if old(s).background_blur {
                0
            } else {
                50
            };
            &&& least <= asked <= 1_000 ==> r == asked
            &&& asked < least ==> r == least
            &&& asked > 1_000 ==> r == 1_000
        }),
        final(s)@ == (SettingsModel { background_opacity: r as int, ..old(s)@ }),
{
}

/// There is glass to be seen where it is asked for and the background is not opaque.
pub proof fn glass_needs_a_background_to_see_through(s: &Settings, r: bool)
    requires
        call_ensures(Settings::wants_background_blur, (s,), r),
        s.background_opacity <= 1_000,
    ensures
        r <==> s.background_blur && s.background_opacity != 1_000,
{
}

/// A copy of the settings has every setting of the original.
pub proof fn a_copy_has_every_setting(s: &Settings, r: Settings)
    requires
        call_ensures(Settings::copy, (s,), r),
    ensures
        r.font_size == s.font_size,
        r.font_family@ == s.font_family@,
        r.background_opacity == s.background_opacity,
        r.background_blur == s.background_blur,
        r.scrim_strength == s.scrim_strength,
        r.macos_glass_material@ == s.macos_glass_material@,
        r.macos_blur_radius == s.macos_blur_radius,
        r.chrome_theme@ == s.chrome_theme@,
        r.foreground == s.foreground,
        r.background == s.background,
        r.palette@ == s.palette@,
        r.focus_follows_mouse == s.focus_follows_mouse,
        r.show_titlebar == s.show_titlebar,
        r.scrollback == s.scrollback,
        r.inst_output == s.inst_output,
        r.inst_heat == s.inst_heat,
        r.inst_latency == s.inst_latency,
        r.show_jacks == s.show_jacks,
        r.inst_remote == s.inst_remote,
        r.inst_animate == s.inst_animate,
        r.arrow_accel == s.arrow_accel,
        r.arrow_accel_max == s.arrow_accel_max,
        r.term@ == s.term@,
{
    assert(r@ == s@);
}

/// A row is greyed only where what it shapes is not there: the animation without the remote
/// instruments, the limit without the speeding up, the glass without glass, and its radius
/// besides where the material has a blur of its own.
pub proof fn a_row_is_greyed_where_it_shapes_nothing(
    s: &Settings,
    row: PrefRow,
    catalog: &Catalog,
    r: bool,
    blurred: bool,
)
    requires
        call_ensures(enabled, (s, row, catalog), r),
        call_ensures(Settings::wants_background_blur, (s,), blurred),
    ensures
        row == PrefRow::InstAnimate ==> r == s.inst_remote,
        row == PrefRow::ArrowAccelMax ==> r == s.arrow_accel,
        row == PrefRow::GlassMaterial ==> r == blurred,
        row == PrefRow::BlurRadius ==> (r <==> blurred && forall|i: int|
            0 <= i < catalog.materials@.len() && (#[trigger] catalog.materials@[i]).name@
                == s.macos_glass_material@ ==> !catalog.materials@[i].effect_view),
        row != PrefRow::InstAnimate && row != PrefRow::ArrowAccelMax && row != PrefRow::GlassMaterial && row
            != PrefRow::BlurRadius ==> r,
{
}

/// A step on a row changes the row's own setting and no other; turning the glass on or off
/// can move the opacity too, since its least value depends on it. A greyed row changes
/// nothing, nor does the row that closes the dialog.
pub proof fn a_step_changes_its_own_setting<F: FnMut(&String) -> bool>(
    s: &mut Settings,
    row: PrefRow,
    dir: i32,
    families: &Vec<String>,
    terms: &Vec<String>,
    catalog: &Catalog,
    usable: &mut F,
    live: bool,
)
    requires
        call_ensures(step::<F>, (s, row, dir, families, terms, catalog, usable), ()),
        call_ensures(enabled, (&*old(s), row, catalog), live),
    ensures
        !live || row == PrefRow::Close ==> final(s)@ == old(s)@,
        final(s).font_size != old(s).font_size ==> row == PrefRow::FontSize,
        final(s).font_family@ != old(s).font_family@ ==> row == PrefRow::FontFamily,
        final(s).background_opacity != old(s).background_opacity ==> row == PrefRow::Opacity || row
            == PrefRow::Blur,
        final(s).background_blur != old(s).background_blur ==> row == PrefRow::Blur,
        final(s).scrim_strength == old(s).scrim_strength,
        final(s).macos_glass_material@ != old(s).macos_glass_material@ ==> row == PrefRow::GlassMaterial,
        final(s).macos_blur_radius != old(s).macos_blur_radius ==> row == PrefRow::BlurRadius,
        final(s).chrome_theme@ != old(s).chrome_theme@ ==> row == PrefRow::Chrome,
        final(s).foreground != old(s).foreground ==> row == PrefRow::Preset,
        final(s).background != old(s).background ==> row == PrefRow::Preset,
        final(s).palette@ != old(s).palette@ ==> row == PrefRow::Preset,
        final(s).focus_follows_mouse != old(s).focus_follows_mouse <==> row == PrefRow::Ffm,
        final(s).show_titlebar != old(s).show_titlebar <==> row == PrefRow::Titlebar,
        final(s).scrollback != old(s).scrollback ==> row == PrefRow::Scrollback,
        final(s).inst_output != old(s).inst_output <==> row == PrefRow::InstOutput,
        final(s).inst_heat != old(s).inst_heat <==> row == PrefRow::InstHeat,
        final(s).inst_latency != old(s).inst_latency <==> row == PrefRow::InstLatency,
        final(s).show_jacks != old(s).show_jacks <==> row == PrefRow::Jacks,
        final(s).inst_remote != old(s).inst_remote <==> row == PrefRow::InstRemote,
        final(s).inst_animate != old(s).inst_animate <==> row == PrefRow::InstAnimate && old(s).inst_remote,
        final(s).arrow_accel != old(s).arrow_accel <==> row == PrefRow::ArrowAccel,
        final(s).arrow_accel_max != old(s).arrow_accel_max ==> row == PrefRow::ArrowAccelMax,
        final(s).term@ != old(s).term@ ==> row == PrefRow::Term,
        final(s).background_blur != old(s).background_blur <==> row == PrefRow::Blur,
{
    reveal(next_settings);
    let before = old(s)@;
    let after = final(s)@;
}

/// One step of a quantity is one rung of its own ladder: a pixel of the font, a twentieth of
/// the opacity, twice or half the scrollback, one of the others. At the end of the ladder a
/// step stays there.
pub proof fn a_step_is_one_rung<F: FnMut(&String) -> bool>(
    s: &mut Settings,
    row: PrefRow,
    dir: i32,
    families: &Vec<String>,
    terms: &Vec<String>,
    catalog: &Catalog,
    usable: &mut F,
    live: bool,
)
    requires
        call_ensures(step::<F>, (s, row, dir, families, terms, catalog, usable), ()),
        call_ensures(enabled, (&*old(s), row, catalog), live),
        live,
        dir == 1 || dir == -1,
    ensures
        row == PrefRow::FontSize ==> {
            let asked = old(s).font_size + 1_000 * dir;
            &&& 8_000 <= final(s).font_size <= 48_000
            &&& 8_000 <= asked <= 48_000 ==> final(s).font_size == asked
            &&& asked < 8_000 ==> final(s).font_size == 8_000
            &&& asked > 48_000 ==> final(s).font_size == 48_000
        },
        row == PrefRow::Opacity ==> {
            let asked = old(s).background_opacity + 50 * dir;
            let least: int = if old(s).background_blur {
                0
            } else {
                50
            };
            &&& least <= final(s).background_opacity <= 1_000
            &&& least <= asked <= 1_000 ==> final(s).background_opacity == asked
            &&& asked < least ==> final(s).background_opacity == least
            &&& asked > 1_000 ==> final(s).background_opacity == 1_000
        },
        row == PrefRow::Scrollback ==> {
            &&& 1_000 <= final(s).scrollback <= 5_000_000
            &&& dir == 1 && 500 <= old(s).scrollback <= 2_500_000 ==> final(s).scrollback == 2 * old(s).scrollback
            &&& dir == 1 && old(s).scrollback > 2_500_000 ==> final(s).scrollback == 5_000_000
            &&& dir == -1 && 2_000 <= old(s).scrollback <= 10_000_001 ==> final(s).scrollback
                == old(s).scrollback / 2
            &&& dir == -1 && old(s).scrollback < 2_000 ==> final(s).scrollback == 1_000
        },
        row == PrefRow::BlurRadius && catalog.min_blur_radius <= catalog.max_blur_radius ==> {
            let asked = old(s).macos_blur_radius + dir;
            let (lo, hi) = (catalog.min_blur_radius, catalog.max_blur_radius);
            &&& lo <= final(s).macos_blur_radius <= hi
            &&& lo <= asked <= hi ==> final(s).macos_blur_radius == asked
            &&& asked < lo ==> final(s).macos_blur_radius == lo
            &&& asked > hi ==> final(s).macos_blur_radius == hi
        },
        row == PrefRow::ArrowAccelMax ==> {
            let asked = old(s).arrow_accel_max + dir;
            &&& 1 <= final(s).arrow_accel_max <= 30
            &&& 1 <= asked <= 30 ==> final(s).arrow_accel_max == asked
            &&& asked < 1 ==> final(s).arrow_accel_max == 1
            &&& asked > 30 ==> final(s).arrow_accel_max == 30
        },
        row == PrefRow::Blur ==> {
            &&& final(s).background_blur == !old(s).background_blur
            &&& old(s).background_blur && old(s).background_opacity < 50 ==> final(s).background_opacity == 50
            &&& 50 <= old(s).background_opacity <= 1_000 ==> final(s).background_opacity
                == old(s).background_opacity
            &&& !old(s).background_blur && old(s).background_opacity <= 1_000 ==> final(s).background_opacity
                == old(s).background_opacity
        },
{
    reveal(next_settings);
    let before = old(s)@;
    let after = final(s)@;
    assert(after == next_settings(before, row, dir as int, views(terms@), *catalog) || row == PrefRow::FontFamily);
    assert(dir as int * 1_000 == 1_000 * dir && dir as int * 50 == 50 * dir);
}

/// One step of a name leads to the name that is next to it in its own list; an empty list
/// leaves it alone.
pub proof fn a_step_leads_to_the_next_name<F: FnMut(&String) -> bool>(
    s: &mut Settings,
    row: PrefRow,
    dir: i32,
    families: &Vec<String>,
    terms: &Vec<String>,
    catalog: &Catalog,
    usable: &mut F,
    live: bool,
    list: &Vec<String>,
    now: &str,
    next: usize,
)
    requires
        call_ensures(step::<F>, (s, row, dir, families, terms, catalog, usable), ()),
        call_ensures(enabled, (&*old(s), row, catalog), live),
        live,
        list@.len() > 0,
        call_ensures(next_position, (list, now, dir), next),
    ensures
        row == PrefRow::Term && list == terms && now@ == old(s).term@ ==> final(s).term@ == list@[next as int]@,
        row == PrefRow::Chrome && *list == catalog.themes && now@ == old(s).chrome_theme@ ==> final(s).chrome_theme@
            == list@[next as int]@,
        row == PrefRow::GlassMaterial && list@.len() == catalog.materials@.len() && (forall|i: int|
            0 <= i < list@.len() ==> (#[trigger] list@[i])@ == catalog.materials@[i].name@) && now@
            == old(s).macos_glass_material@ ==> final(s).macos_glass_material@ == list@[next as int]@,
{
    reveal(next_settings);
    let before = old(s)@;
    let after = final(s)@;
    assert(next < list@.len());
    assert(views(list@)[next as int] == list@[next as int]@);
    if row == PrefRow::GlassMaterial && list@.len() == catalog.materials@.len() && (forall|i: int|
        0 <= i < list@.len() ==> (#[trigger] list@[i])@ == catalog.materials@[i].name@) {
        assert(views(list@) =~= crate::prefs_model::material_names(catalog.materials@));
    }
}

/// One step of the preset puts on the colours of the scheme next to the one that the row
/// names: its text, its background and all of its palette.
pub proof fn a_step_puts_on_the_next_scheme<F: FnMut(&String) -> bool>(
    s: &mut Settings,
    dir: i32,
    families: &Vec<String>,
    terms: &Vec<String>,
    catalog: &Catalog,
    usable: &mut F,
    worn: String,
    list: &Vec<String>,
    now: &str,
    next: usize,
)
    requires
        call_ensures(step::<F>, (s, PrefRow::Preset, dir, families, terms, catalog, usable), ()),
        call_ensures(preset_name, (&*old(s), catalog), worn),
        now@ == worn@,
        list@.len() > 0,
        list@.len() == catalog.schemes@.len(),
        forall|i: int| 0 <= i < list@.len() ==> (#[trigger] list@[i])@ == catalog.schemes@[i].name@,
        call_ensures(next_position, (list, now, dir), next),
    ensures
        final(s).foreground == catalog.schemes@[next as int].foreground,
        final(s).background == catalog.schemes@[next as int].background,
        forall|i: int| 0 <= i < 16 ==> final(s).palette@[i] == catalog.schemes@[next as int].palette@[i],
{
    reveal(next_settings);
    let after = final(s)@;
    assert(views(list@) =~= crate::prefs_model::scheme_names(catalog.schemes@));
    assert(after.palette == catalog.schemes@[next as int].palette@);
}

/// Putting on a scheme takes all of its colours and leaves the other settings alone.
pub proof fn a_scheme_is_put_on_whole(s: &mut Settings, scheme: &Scheme)
    requires
        call_ensures(apply_scheme, (s, scheme), ()),
    ensures
        final(s).foreground == scheme.foreground,
        final(s).background == scheme.background,
        forall|i: int| 0 <= i < 16 ==> final(s).palette@[i] == scheme.palette@[i],
        final(s)@ == (SettingsModel {
            foreground: final(s).foreground,
            background: final(s).background,
            palette: final(s).palette@,
            ..old(s)@
        }),
{
    let after = final(s)@;
    assert(after.palette == scheme.palette@);
}

proof fn lemma_worn(m: SettingsModel, schemes: Seq<Scheme>, r: Option<Seq<char>>)
    requires
        r == worn_scheme(m, schemes),
    ensures
        r is None ==> forall|i: int| 0 <= i < schemes.len() ==> !wears(m, #[trigger] schemes[i]),
        r is Some ==> exists|i: int|
            0 <= i < schemes.len() && wears(m, #[trigger] schemes[i]) && schemes[i].name@ == r->0 && forall|j: int|
                0 <= j < i ==> !wears(m, #[trigger] schemes[j]),
    decreases schemes.len(),
{
    if schemes.len() > 0 {
        let before = schemes.drop_last();
        lemma_worn(m, before, worn_scheme(m, before));
        match worn_scheme(m, before) {
            Some(_) => {
                let i = choose|i: int|
                    0 <= i < before.len() && wears(m, #[trigger] before[i]) && before[i].name@ == r->0
                        && forall|j: int| 0 <= j < i ==> !wears(m, #[trigger] before[j]);
                assert(schemes[i] == before[i]);
                assert forall|j: int| 0 <= j < i implies !wears(m, #[trigger] schemes[j]) by {
                    assert(schemes[j] == before[j]);
                }
            },
            None => {
                assert forall|j: int| 0 <= j < schemes.len() - 1 implies !wears(m, #[trigger] schemes[j]) by {
                    assert(schemes[j] == before[j]);
                }
                let last = schemes.len() - 1;
                assert(schemes[last] == schemes.last());
            },
        }
    }
}

/// Whether the colours of the settings are those of `scheme`, all eighteen of them.
pub open spec fn has_colours(s: Settings, scheme: Scheme) -> bool {
    s.foreground == scheme.foreground && s.background == scheme.background && forall|i: int|
        0 <= i < 16 ==> s.palette@[i] == scheme.palette@[i]
}

/// The preset row reads the first scheme that has the colours of the settings; one colour
/// that differs makes it read `custom`, unless another scheme has them all.
pub proof fn the_preset_row_reads_what_is_worn(s: &Settings, catalog: &Catalog, r: String)
    requires
        call_ensures(preset_name, (s, catalog), r),
    ensures
        (forall|i: int| 0 <= i < catalog.schemes@.len() ==> !has_colours(*s, #[trigger] catalog.schemes@[i]))
            ==> r@ =~= seq!['c', 'u', 's', 't', 'o', 'm'],
        (exists|i: int| 0 <= i < catalog.schemes@.len() && has_colours(*s, #[trigger] catalog.schemes@[i]))
            ==> exists|i: int|
            0 <= i < catalog.schemes@.len() && has_colours(*s, #[trigger] catalog.schemes@[i]) && r@
                == catalog.schemes@[i].name@ && forall|j: int|
                0 <= j < i ==> !has_colours(*s, #[trigger] catalog.schemes@[j]),
{
    reveal_strlit("custom");
    let schemes = catalog.schemes@;
    lemma_worn(s@, schemes, worn_scheme(s@, schemes));
    assert forall|i: int| 0 <= i < schemes.len() implies (wears(s@, #[trigger] schemes[i]) <==> has_colours(
        *s,
        schemes[i],
    )) by {
        if has_colours(*s, schemes[i]) {
            assert(s.palette@ =~= schemes[i].palette@);
        }
    }
}

/// However the colour picker is closed, what was edited in it stays.
pub proof fn every_way_out_of_the_picker_keeps_the_colour(way: PickerDismiss, r: Dismiss)
    requires
        call_ensures(picker_dismiss, (way,), r),
    ensures
        r is Commit,
{
}

/// An edit is applied once it has held still for long enough, and not before.
pub proof fn an_edit_is_applied_once_it_holds_still(pending: bool, since: u128, settle: u128, r: bool)
    requires
        call_ensures(settle_due, (pending, since, settle), r),
    ensures
        !pending ==> !r,
        pending && since >= settle ==> r,
        since < settle ==> !r,
{
}

/// A row's control is the one that suits what it edits: a flag has a switch, what is swept
/// by eye a slider, what is counted a stepper, a name a popup; the row that closes the
/// dialog has none.
pub proof fn a_control_suits_its_setting(
    s: &Settings,
    row: PrefRow,
    catalog: &Catalog,
    c: Control,
    f: Option<bool>,
    n: Option<i128>,
    l: Option<String>,
)
    requires
        call_ensures(control, (row,), c),
        call_ensures(flag, (s, row), f),
        call_ensures(number, (s, row), n),
        call_ensures(label, (s, row, catalog), l),
    ensures
        c == Control::Slider <==> row == PrefRow::Opacity || row == PrefRow::BlurRadius,
        c == Control::Stepper <==> row == PrefRow::FontSize || row == PrefRow::Scrollback || row
            == PrefRow::ArrowAccelMax,
        c == Control::PopUp <==> row == PrefRow::FontFamily || row == PrefRow::Preset || row == PrefRow::Chrome
            || row == PrefRow::GlassMaterial || row == PrefRow::Term,
        c == Control::Dismiss <==> row == PrefRow::Close,
        c != Control::Swatches,
        c == Control::Switch <==> f is Some,
        c == Control::Slider || c == Control::Stepper <==> n is Some,
        c == Control::PopUp <==> l is Some,
{
}

/// The palette becomes wells, a row that edits a setting becomes that setting's control, and
/// any other row is text alone.
pub proof fn a_line_has_the_control_of_its_setting(
    kind: RowKind,
    pref: Option<PrefRow>,
    c: Control,
    r: Option<Control>,
)
    requires
        pref is Some ==> call_ensures(control, (pref->0,), c),
        call_ensures(row_control, (kind, pref), r),
    ensures
        kind == RowKind::Swatches ==> r == Some(Control::Swatches),
        kind != RowKind::Swatches && pref is Some ==> r == Some(c),
        kind != RowKind::Swatches && pref is None ==> r is None,
{
}

/// A control shows the setting that a step on its row moves: where what a control shows
/// differs between two settings, so does the setting that its row names, and the other way
/// round.
pub proof fn a_control_shows_its_own_setting(
    s: &Settings,
    row: PrefRow,
    catalog: &Catalog,
    f: Option<bool>,
    n: Option<i128>,
    l: Option<String>,
    worn: String,
)
    requires
        call_ensures(flag, (s, row), f),
        call_ensures(number, (s, row), n),
        call_ensures(label, (s, row, catalog), l),
        call_ensures(preset_name, (s, catalog), worn),
    ensures
        row == PrefRow::Blur ==> f == Some(s.background_blur),
        row == PrefRow::Ffm ==> f == Some(s.focus_follows_mouse),
        row == PrefRow::Titlebar ==> f == Some(s.show_titlebar),
        row == PrefRow::InstOutput ==> f == Some(s.inst_output),
        row == PrefRow::InstHeat ==> f == Some(s.inst_heat),
        row == PrefRow::InstLatency ==> f == Some(s.inst_latency),
        row == PrefRow::Jacks ==> f == Some(s.show_jacks),
        row == PrefRow::InstRemote ==> f == Some(s.inst_remote),
        row == PrefRow::InstAnimate ==> f == Some(s.inst_animate),
        row == PrefRow::ArrowAccel ==> f == Some(s.arrow_accel),
        row == PrefRow::FontSize ==> n is Some && n->0 == s.font_size,
        row == PrefRow::Opacity ==> n is Some && n->0 == s.background_opacity,
        row == PrefRow::Scrollback ==> n is Some && n->0 == s.scrollback,
        row == PrefRow::BlurRadius ==> n is Some && n->0 == s.macos_blur_radius,
        row == PrefRow::ArrowAccelMax ==> n is Some && n->0 == s.arrow_accel_max,
        row == PrefRow::FontFamily ==> l is Some && l->0@ == s.font_family@,
        row == PrefRow::Chrome ==> l is Some && l->0@ == s.chrome_theme@,
        row == PrefRow::GlassMaterial ==> l is Some && l->0@ == s.macos_glass_material@,
        row == PrefRow::Term ==> l is Some && l->0@ == s.term@,
        row == PrefRow::Preset ==> l is Some && l->0@ == worn@,
{
}

/// Turning a switch leaves it as it was asked to be, unless its row is greyed; and it says
/// how it is afterwards. Asked to be as it is, it changes nothing.
pub proof fn a_switch_ends_as_it_was_asked<F: FnMut(&String) -> bool>(
    s: &mut Settings,
    row: PrefRow,
    target: bool,
    families: &Vec<String>,
    terms: &Vec<String>,
    catalog: &Catalog,
    usable: &mut F,
    live: bool,
    before: Option<bool>,
    after: Option<bool>,
    r: Option<bool>,
)
    requires
        call_ensures(apply_flag::<F>, (s, row, target, families, terms, catalog, usable), r),
        call_ensures(enabled, (&*old(s), row, catalog), live),
        call_ensures(flag, (&*old(s), row), before),
        call_ensures(flag, (&*final(s), row), after),
    ensures
        r == after,
        before is None ==> r is None,
        before is Some && live ==> r == Some(target),
        before is Some && !live ==> r == before,
        before == Some(target) || before is None || !live ==> final(s)@ == old(s)@,
{
    reveal(next_settings);
}

/// A slider or stepper says where it ended, which is where the setting is; a row without a
/// number changes nothing.
pub proof fn a_number_lands_within_half_a_rung<F: FnMut(&String) -> bool>(
    s: &mut Settings,
    row: PrefRow,
    target: i64,
    families: &Vec<String>,
    terms: &Vec<String>,
    catalog: &Catalog,
    usable: &mut F,
    live: bool,
    r: Option<i128>,
)
    requires
        call_ensures(apply_number::<F>, (s, row, target, families, terms, catalog, usable), r),
        call_ensures(enabled, (&*old(s), row, catalog), live),
        live,
    ensures
        row == PrefRow::FontSize && 8_000 <= old(s).font_size <= 48_000 ==> {
            &&& r is Some && r->0 == final(s).font_size
            &&& 8_000 <= target <= 48_000 ==> -500 <= r->0 - target <= 500
            &&& target < 8_000 ==> r->0 == 8_000
            &&& target > 48_000 ==> r->0 == 48_000
        },
        row == PrefRow::Opacity && (old(s).background_blur || old(s).background_opacity >= 50)
            && old(s).background_opacity <= 1_000 ==> {
            let least: int = if old(s).background_blur {
                0
            } else {
                50
            };
            &&& r is Some && r->0 == final(s).background_opacity
            &&& least <= target <= 1_000 ==> -25 <= r->0 - target <= 25
            &&& target < least ==> r->0 == least
            &&& target > 1_000 ==> r->0 == 1_000
        },
        row == PrefRow::BlurRadius && catalog.min_blur_radius <= old(s).macos_blur_radius
            <= catalog.max_blur_radius <= catalog.min_blur_radius + 4095 ==> {
            &&& r is Some && r->0 == final(s).macos_blur_radius
            &&& catalog.min_blur_radius <= target <= catalog.max_blur_radius ==> r->0 == target
            &&& target < catalog.min_blur_radius ==> r->0 == catalog.min_blur_radius
            &&& target > catalog.max_blur_radius ==> r->0 == catalog.max_blur_radius
        },
        row == PrefRow::ArrowAccelMax && 1 <= old(s).arrow_accel_max <= 30 ==> {
            &&& r is Some && r->0 == final(s).arrow_accel_max
            &&& 1 <= target <= 30 ==> r->0 == target
            &&& target < 1 ==> r->0 == 1
            &&& target > 30 ==> r->0 == 30
        },
{
    let m = old(s)@;
    if crate::prefs_laws::even_ladder(row) && crate::prefs_laws::lowest(m, row, *catalog)
        <= crate::prefs_native::number_of(m, row)->0 <= crate::prefs_laws::highest(row, *catalog)
        && crate::prefs_laws::highest(row, *catalog) - crate::prefs_laws::lowest(m, row, *catalog) <= 4095
        * crate::prefs_laws::rung(row) {
        crate::prefs_laws::a_request_lands_on_the_nearest_rung(m, row, target as int, views(terms@), *catalog);
    }
}

/// A request never makes a setting of another row change.
pub proof fn a_request_keeps_to_its_row<F: FnMut(&String) -> bool>(
    s: &mut Settings,
    row: PrefRow,
    target: i64,
    families: &Vec<String>,
    terms: &Vec<String>,
    catalog: &Catalog,
    usable: &mut F,
    r: Option<i128>,
)
    requires
        call_ensures(apply_number::<F>, (s, row, target, families, terms, catalog, usable), r),
    ensures
        final(s)@ == (SettingsModel {
            font_size: final(s).font_size as int,
            background_opacity: final(s).background_opacity as int,
            scrollback: final(s).scrollback as int,
            macos_blur_radius: final(s).macos_blur_radius as int,
            arrow_accel_max: final(s).arrow_accel_max as int,
            ..old(s)@
        }),
        final(s).font_size != old(s).font_size ==> row == PrefRow::FontSize,
        final(s).background_opacity != old(s).background_opacity ==> row == PrefRow::Opacity,
        final(s).scrollback != old(s).scrollback ==> row == PrefRow::Scrollback,
        final(s).macos_blur_radius != old(s).macos_blur_radius ==> row == PrefRow::BlurRadius,
        final(s).arrow_accel_max != old(s).arrow_accel_max ==> row == PrefRow::ArrowAccelMax,
        r is None ==> final(s)@ == old(s)@,
{
    reveal(kept);
    if crate::prefs_native::number_of(old(s)@, row) is Some {
        lemma_driven_keeps(old(s)@, row, target as int, views(terms@), *catalog, crate::prefs_native::MAX_STEPS as nat);
    }
    let after = final(s)@;
}

/// Whether `n` is `m` but for the quantity that `row` edits.
#[verifier::opaque]
spec fn kept(m: SettingsModel, n: SettingsModel, row: PrefRow) -> bool {
    n == SettingsModel {
        font_size: if row == PrefRow::FontSize { n.font_size } else { m.font_size },
        background_opacity: if row == PrefRow::Opacity { n.background_opacity } else { m.background_opacity },
        scrollback: if row == PrefRow::Scrollback { n.scrollback } else { m.scrollback },
        macos_blur_radius: if row == PrefRow::BlurRadius { n.macos_blur_radius } else { m.macos_blur_radius },
        arrow_accel_max: if row == PrefRow::ArrowAccelMax { n.arrow_accel_max } else { m.arrow_accel_max },
        ..m
    }
}

proof fn lemma_driven_keeps(
    m: SettingsModel,
    row: PrefRow,
    target: int,
    terms: Seq<Seq<char>>,
    catalog: Catalog,
    steps: nat,
)
    requires
        crate::prefs_native::number_of(m, row) is Some,
    ensures
        kept(m, crate::prefs_native::driven(m, row, target, terms, catalog, steps), row),
    decreases steps,
{
    if steps > 0 {
        let up = next_settings(m, row, 1, terms, catalog);
        let down = next_settings(m, row, -1, terms, catalog);
        lemma_step_keeps(m, row, 1, terms, catalog);
        lemma_step_keeps(m, row, -1, terms, catalog);
        lemma_driven_keeps(up, row, target, terms, catalog, (steps - 1) as nat);
        lemma_driven_keeps(down, row, target, terms, catalog, (steps - 1) as nat);
        lemma_kept_on(m, up, crate::prefs_native::driven(up, row, target, terms, catalog, (steps - 1) as nat), row);
        lemma_kept_on(
            m,
            down,
            crate::prefs_native::driven(down, row, target, terms, catalog, (steps - 1) as nat),
            row,
        );
    }
    assert(kept(m, m, row)) by {
        reveal(kept);
    }
}

proof fn lemma_kept_on(a: SettingsModel, b: SettingsModel, c: SettingsModel, row: PrefRow)
    requires
        kept(a, b, row),
        kept(b, c, row),
    ensures
        kept(a, c, row),
{
    reveal(kept);
}

proof fn lemma_step_keeps(m: SettingsModel, row: PrefRow, dir: int, terms: Seq<Seq<char>>, catalog: Catalog)
    requires
        crate::prefs_native::number_of(m, row) is Some,
    ensures
        kept(m, next_settings(m, row, dir, terms, catalog), row),
        crate::prefs_native::number_of(next_settings(m, row, dir, terms, catalog), row) is Some,
{
    reveal(next_settings);
    reveal(kept);
}

/// A slider travels over its whole ladder, even while its row is greyed.
pub proof fn a_slider_travels_over_its_ladder(
    s: &Settings,
    row: PrefRow,
    catalog: &Catalog,
    n: Option<i128>,
    r: Option<(i128, i128)>,
)
    requires
        call_ensures(number, (s, row), n),
        call_ensures(range, (s, row, catalog), r),
    ensures
        r is Some <==> n is Some,
        row == PrefRow::FontSize ==> r == Some((8_000i128, 48_000i128)),
        row == PrefRow::Opacity ==> r == Some(
            (
                if s.background_blur {
                    0i128
                } else {
                    50i128
                },
                1_000i128,
            ),
        ),
        row == PrefRow::ArrowAccelMax ==> r == Some((1i128, 30i128)),
{
    if row == PrefRow::FontSize || row == PrefRow::Opacity || row == PrefRow::ArrowAccelMax {
        crate::prefs_laws::the_travel_is_the_whole_ladder(s@, row, *catalog);
    }
}

/// The radius of the glass travels between the catalog's bounds, where the material has no
/// blur of its own.
pub proof fn the_radius_travels_between_its_bounds(
    s: &Settings,
    catalog: &Catalog,
    lo: i128,
    hi: i128,
)
    requires
        call_ensures(range, (s, PrefRow::BlurRadius, catalog), Some((lo, hi))),
        forall|i: int|
            0 <= i < catalog.materials@.len() && (#[trigger] catalog.materials@[i]).name@
                == s.macos_glass_material@ ==> !catalog.materials@[i].effect_view,
        catalog.min_blur_radius <= catalog.max_blur_radius <= catalog.min_blur_radius + 4094,
    ensures
        lo == catalog.min_blur_radius,
        hi == catalog.max_blur_radius,
{
    crate::prefs_laws::the_travel_is_the_whole_ladder(s@, PrefRow::BlurRadius, *catalog);
}

/// Picking from a popup over the themes, the materials or the terminal types ends on what
/// was picked and says so; what is not listed changes nothing and is not reported.
pub proof fn a_pick_ends_on_what_was_picked<F: FnMut(&String) -> bool>(
    s: &mut Settings,
    row: PrefRow,
    target: &str,
    families: &Vec<String>,
    terms: &Vec<String>,
    catalog: &Catalog,
    usable: &mut F,
    live: bool,
    list: &Vec<String>,
    i: int,
    j: int,
    r: Option<String>,
)
    requires
        call_ensures(apply_choice::<F>, (s, row, target, families, terms, catalog, usable), r),
        call_ensures(enabled, (&*old(s), row, catalog), live),
        live,
        row == PrefRow::Term && list == terms || row == PrefRow::Chrome && *list == catalog.themes,
        list@.len() <= 4096,
        forall|a: int, b: int| 0 <= a < b < list@.len() ==> (#[trigger] list@[a])@ != (#[trigger] list@[b])@,
        0 <= i < list@.len(),
        0 <= j < list@.len(),
        row == PrefRow::Term ==> list@[i]@ == old(s).term@,
        row == PrefRow::Chrome ==> list@[i]@ == old(s).chrome_theme@,
        list@[j]@ == target@,
    ensures
        r is Some && r->0@ == target@,
        row == PrefRow::Term ==> final(s).term@ == target@,
        row == PrefRow::Chrome ==> final(s).chrome_theme@ == target@,
{
    let m = old(s)@;
    let ring = views(list@);
    assert(ring[i] == list@[i]@ && ring[j] == list@[j]@);
    assert forall|a: int, b: int| 0 <= a < ring.len() && 0 <= b < ring.len() && a != b implies ring[a] != ring[b] by {
        if a < b {
            assert(list@[a]@ != list@[b]@);
        } else {
            assert(list@[b]@ != list@[a]@);
        }
    }
    assert(ring.no_duplicates());
    assert(ring == crate::prefs_laws::ring_of(row, views(terms@), *catalog));
    crate::prefs_laws::a_popup_lists_the_whole_ring(m, row, views(families@), views(terms@), *catalog);
    let all = crate::prefs_native::choices_of(m, row, views(families@), views(terms@), *catalog);
    assert(ring.contains(target@));
    assert(all.contains(target@));
    let cur = crate::prefs_native::label_of(m, row, *catalog)->0;
    if cur != target@ {
        let states = choose|states: Seq<SettingsModel>| #[trigger]
            crate::prefs_native::choice_walk(
                states,
                row,
                target@,
                all,
                families@,
                terms@,
                *catalog,
                *old(usable),
            ) && states[0] == old(s)@ && states.last() == final(s)@;
        crate::prefs_laws::picking_from_a_popup_reaches_every_entry(
            states,
            row,
            target@,
            families@,
            terms@,
            *catalog,
            *old(usable),
        );
    }
}

} // verus!

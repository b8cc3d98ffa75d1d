//! What holds of the parts that the rest is made of: settings and texts that are compared,
//! dialogs and search bars that open and close, wires that are taken out, and fonts that
//! are looked up.
use vstd::prelude::*;
use vstd::string::*;
use crate::commit::same_settings;
use crate::font_file::{be32, directory, trim};
use crate::fonts::{face_data, faces, has_family, monospace_families, Slant};
use crate::gestures::Cell;
use crate::menubar_model::{BarItem, BarModel};
use crate::mouse::Under;
use crate::native::{enabled_flags, Bridge, DropInbox};
use crate::overlays::Dialog;
use crate::patch_bay::{PatchBay, Wire};
use crate::prefs_model::{step, PickerDismiss, PrefRow};
use crate::prefs_native::{apply_number, choices};
use crate::render::{first_drawing, Style};
use crate::ring::position;
use crate::scale_policy::{ScaleArm, SettleWork};
use crate::search::Search;
use crate::settings::{Catalog, Settings};
use crate::settings_window::PrefLine;
use crate::text::{char_vec, is_digit, parse_whole, text_of, to_lower, views};

verus! {

/// Settings are the same where every setting is: one that differs tells them apart.
pub proof fn one_setting_tells_settings_apart(a: &Settings, b: &Settings, r: bool)
    requires
        call_ensures(same_settings, (a, b), r),
    ensures
        r <==> {
            &&& a.font_size == b.font_size
            &&& a.font_family@ == b.font_family@
            &&& a.background_opacity == b.background_opacity
            &&& a.background_blur == b.background_blur
            &&& a.scrim_strength == b.scrim_strength
            &&& a.macos_glass_material@ == b.macos_glass_material@
            &&& a.macos_blur_radius == b.macos_blur_radius
            &&& a.chrome_theme@ == b.chrome_theme@
            &&& a.foreground == b.foreground
            &&& a.background == b.background
            &&& a.palette@ == b.palette@
            &&& a.focus_follows_mouse == b.focus_follows_mouse
            &&& a.show_titlebar == b.show_titlebar
            &&& a.scrollback == b.scrollback
            &&& a.inst_output == b.inst_output
            &&& a.inst_heat == b.inst_heat
            &&& a.inst_latency == b.inst_latency
            &&& a.show_jacks == b.show_jacks
            &&& a.inst_remote == b.inst_remote
            &&& a.inst_animate == b.inst_animate
            &&& a.arrow_accel == b.arrow_accel
            &&& a.arrow_accel_max == b.arrow_accel_max
            &&& a.term@ == b.term@
        },
{
    let x = a@;
    let y = b@;
}

/// The program under a cell is told of the cell on the screen, however far its pane is
/// scrolled back.
pub proof fn a_program_is_told_of_the_cell_on_the_screen(cell: &Cell, r: Under)
    requires
        call_ensures(Cell::under, (cell,), r),
    ensures
        r.pane == cell.pane,
        r.col == cell.col,
        r.row == cell.row,
        r.wants == cell.wants,
{
}

/// A closed dialog has nothing selected, nothing scrolled and nothing pending.
pub proof fn a_closed_dialog_holds_nothing(r: Dialog)
    requires
        call_ensures(Dialog::closed, (), r),
    ensures
        !r.open && r.sel == 0 && r.scroll == 0 && r.edits == 0,
        r.pending is None,
{
}

/// Closing the preferences hands over what pends, once.
pub proof fn closing_strands_no_edit(d: &mut Dialog, r: Option<Settings>)
    requires
        call_ensures(Dialog::close, (d,), r),
    ensures
        !final(d).open,
        r is Some <==> old(d).pending is Some,
        r is Some ==> r->0@ == old(d).pending->0@,
        final(d).pending is None,
        r is Some ==> final(d).edits == 0,
        r is None ==> final(d).edits == old(d).edits,
{
}

/// So does closing the colour picker, whichever way; the preferences below it stay as they
/// are.
pub proof fn closing_the_picker_strands_no_edit(d: &mut Dialog, way: PickerDismiss, r: Option<Settings>)
    requires
        call_ensures(Dialog::close_picker, (d, way), r),
    ensures
        r is Some <==> old(d).pending is Some,
        r is Some ==> r->0@ == old(d).pending->0@,
        final(d).pending is None,
        final(d).open == old(d).open && final(d).sel == old(d).sel && final(d).scroll == old(d).scroll,
{
}

/// A step in the preferences moves the setting of the selected row, in the pending edits
/// where there are some and else in a copy of the settings, as a step on the row does; a
/// row without a setting moves nothing.
pub proof fn a_step_moves_the_selected_row<F: FnMut(&String) -> bool>(
    d: &mut Dialog,
    settings: &Settings,
    rows: &Vec<PrefLine>,
    dir: i32,
    families: &Vec<String>,
    terms: &Vec<String>,
    catalog: &Catalog,
    usable: &mut F,
    now: u64,
    s: &mut Settings,
    asked: &mut F,
    row: PrefRow,
)
    requires
        call_ensures(Dialog::prefs_step::<F>, (d, settings, rows, dir, families, terms, catalog, usable, now), ()),
        call_ensures(step::<F>, (s, row, dir, families, terms, catalog, asked), ()),
        *old(asked) == *old(usable),
        old(d).pending is Some ==> old(s)@ == old(d).pending->0@,
        old(d).pending is None ==> old(s)@ == settings@,
        row != PrefRow::FontFamily,
    ensures
        old(d).sel < rows@.len() && rows@[old(d).sel as int].pref == Some(row) && row != PrefRow::Close ==> {
            &&& final(d).pending is Some
            &&& final(d).pending->0@ == final(s)@
            &&& final(d).last_edit == now
            &&& old(d).edits < u64::MAX ==> final(d).edits == old(d).edits + 1
        },
        old(d).sel >= rows@.len() || rows@[old(d).sel as int].pref is None || rows@[old(d).sel as int].pref == Some(
            PrefRow::Close,
        ) ==> *final(d) == *old(d),
        final(d).open == old(d).open && final(d).sel == old(d).sel && final(d).scroll == old(d).scroll,
{
}

/// A search bar that is closed, or has been, holds no query, no hits and no pane.
pub proof fn a_closed_search_bar_holds_nothing(s: &mut Search, r: Search)
    requires
        call_ensures(Search::close, (s,), ()),
        call_ensures(Search::closed, (), r),
    ensures
        !final(s).open && final(s).query@.len() == 0 && final(s).matches@.len() == 0 && final(s).pane is None,
        !r.open && r.query@.len() == 0 && r.matches@.len() == 0 && r.pane is None,
        final(s).index == 0 && r.index == 0,
{
}

/// A name stands at the first place of a list that holds it.
pub proof fn a_name_is_found_at_its_first_place(list: &Vec<String>, name: &str, r: Option<usize>)
    requires
        call_ensures(position, (list, name), r),
    ensures
        r is None <==> forall|i: int| 0 <= i < list@.len() ==> (#[trigger] list@[i])@ != name@,
        r is Some ==> {
            &&& r->0 < list@.len()
            &&& list@[r->0 as int]@ == name@
            &&& forall|i: int| 0 <= i < r->0 ==> (#[trigger] list@[i])@ != name@
        },
{
    let all = views(list@);
    crate::ring::place_is_first(all, name@);
    assert forall|i: int| 0 <= i < list@.len() implies (#[trigger] list@[i])@ == all[i] by {}
    if forall|i: int| 0 <= i < list@.len() ==> (#[trigger] list@[i])@ != name@ {
        if all.contains(name@) {
            let i = choose|i: int| 0 <= i < all.len() && all[i] == name@;
            assert(list@[i]@ == all[i]);
        }
    }
    if r is None {
        assert forall|i: int| 0 <= i < list@.len() implies (#[trigger] list@[i])@ != name@ by {
            assert(list@[i]@ == all[i]);
        }
    }
}

/// Taking a pane's wires out takes out those that leave it or lead to it, and no others,
/// which keep their order.
pub proof fn only_a_panes_own_wires_are_taken_out(bay: &mut PatchBay, pane: u64, w: Wire)
    requires
        call_ensures(PatchBay::unwire, (bay, pane), ()),
    ensures
        w.src == pane || w.dst == pane ==> !final(bay).wires@.contains(w),
        w.src != pane && w.dst != pane ==> (final(bay).wires@.contains(w) <==> old(bay).wires@.contains(w)),
        final(bay).armed == old(bay).armed,
        (forall|i: int|
            0 <= i < old(bay).wires@.len() ==> (#[trigger] old(bay).wires@[i]).src != pane && old(bay).wires@[i].dst
                != pane) ==> final(bay).wires@ == old(bay).wires@,
{
    let keep = |x: Wire| x.src != pane && x.dst != pane;
    let before = old(bay).wires@;
    lemma_filter(before, keep, w);
    if forall|i: int| 0 <= i < before.len() ==> (#[trigger] before[i]).src != pane && before[i].dst != pane {
        lemma_filter_all(before, keep);
    }
}

proof fn lemma_filter(s: Seq<Wire>, keep: spec_fn(Wire) -> bool, w: Wire)
    ensures
        s.filter(keep).contains(w) <==> s.contains(w) && keep(w),
    decreases s.len(),
{
    reveal(Seq::filter);
    if s.len() > 0 {
        let before = s.drop_last();
        lemma_filter(before, keep, w);
        let rest = before.filter(keep);
        if s.contains(w) {
            let i = choose|i: int| 0 <= i < s.len() && s[i] == w;
            if i < before.len() {
                assert(before[i] == w);
            }
        }
        if before.contains(w) {
            let i = choose|i: int| 0 <= i < before.len() && before[i] == w;
            assert(s[i] == w);
        }
        assert(s[s.len() - 1] == s.last());
        if keep(s.last()) {
            let all = rest.push(s.last());
            assert(all[all.len() - 1] == s.last());
            if rest.contains(w) {
                let i = choose|i: int| 0 <= i < rest.len() && rest[i] == w;
                assert(all[i] == w);
            }
            if all.contains(w) {
                let i = choose|i: int| 0 <= i < all.len() && all[i] == w;
                if i < rest.len() {
                    assert(rest[i] == w);
                }
            }
        }
    }
}

proof fn lemma_filter_all(s: Seq<Wire>, keep: spec_fn(Wire) -> bool)
    requires
        forall|i: int| 0 <= i < s.len() ==> keep(#[trigger] s[i]),
    ensures
        s.filter(keep) =~= s,
    decreases s.len(),
{
    reveal(Seq::filter);
    if s.len() > 0 {
        lemma_filter_all(s.drop_last(), keep);
    }
}

/// A new patch bay has no wires, no jacks and nothing armed.
pub proof fn a_new_patch_bay_is_empty(r: PatchBay)
    requires
        call_ensures(PatchBay::new, (), r),
    ensures
        r.wires@.len() == 0 && r.jacked@.len() == 0,
        r.armed is None,
{
}

/// In a new inbox nothing hovers, nothing was dropped and nothing has changed.
pub proof fn a_new_inbox_is_empty(r: DropInbox)
    requires
        call_ensures(DropInbox::new, (), r),
    ensures
        r.hover is None && r.dropped is None,
        r.label@.len() == 0,
        !r.accepted && !r.changed,
{
}

/// A scale that changed nothing arms nothing.
pub proof fn nothing_is_armed_for_nothing(r: ScaleArm)
    requires
        call_ensures(ScaleArm::ignore, (), r),
    ensures
        !r.arm_settle && !r.reload_owed && !r.suspend_painting,
{
}

/// Work reflows the session once for a layout and once for a reload of the fonts.
pub proof fn a_layout_and_a_reload_reflow_once_each(w: &SettleWork, n: usize)
    requires
        call_ensures(SettleWork::reflow_count, (w,), n),
    ensures
        n == 0 <==> !w.relayout && !w.reload_fonts,
        n == 1 <==> w.relayout != w.reload_fonts,
        n == 2 <==> w.relayout && w.reload_fonts,
{
}

/// A text taken apart and put together again is the text; a part of it is its own characters.
pub proof fn a_text_is_its_characters(s: &str, v: Vec<char>, from: usize, to: usize, t: String, i: int)
    requires
        call_ensures(char_vec, (s,), v),
        from <= to <= v@.len(),
        call_ensures(text_of, (&v, from, to), t),
    ensures
        v@.len() == s@.len(),
        t@.len() == to - from,
        0 <= i < t@.len() ==> t@[i] == s@[from + i],
        from == 0 && to == v@.len() ==> t@ == s@,
{
    assert(v@.subrange(0, v@.len() as int) =~= v@);
}

/// The digits are ten, and the capitals that have a lower case are twenty-six.
pub proof fn digits_and_capitals(c: char, digit: bool, lower: char)
    requires
        call_ensures(is_digit, (c,), digit),
        call_ensures(to_lower, (c,), lower),
    ensures
        digit <==> 48 <= c as u32 <= 57,
        65 <= c as u32 <= 90 ==> lower as u32 == c as u32 + 32,
        !(65 <= c as u32 <= 90) ==> lower == c,
{
}

/// The characters from a place on spell the number that they would spell alone.
pub proof fn a_number_is_spelled_from_its_place_on(v: &Vec<char>, from: usize, max: u64, w: &Vec<char>, r: Option<u64>, q: Option<u64>)
    requires
        from <= v@.len(),
        w@ == v@.skip(from as int),
        call_ensures(parse_whole, (v, from, max), r),
        call_ensures(parse_whole, (w, 0, max), q),
    ensures
        r == q,
        r is Some ==> r->0 <= max,
{
    assert(w@.skip(0) =~= w@);
}

/// A row of the bar is a divider where it runs nothing.
pub proof fn a_row_that_runs_nothing_divides(item: &BarItem, r: bool)
    requires
        call_ensures(BarItem::is_separator, (item,), r),
    ensures
        r <==> item.action is None,
{
}

/// Which items are live is read off the bar item by item, and taken over as it is.
pub proof fn live_items_are_read_off_the_bar(
    bar: &BarModel,
    items: Vec<&BarItem>,
    flags: Vec<bool>,
    bridge: &mut Bridge,
    i: int,
)
    requires
        call_ensures(BarModel::items, (bar,), items),
        call_ensures(enabled_flags, (bar,), flags),
        call_ensures(Bridge::refresh, (bridge, flags), ()),
    ensures
        flags@.len() == items@.len(),
        0 <= i < flags@.len() ==> flags@[i] == items@[i].enabled,
        final(bridge).enabled@ == flags@,
        final(bridge).actions == old(bridge).actions,
        final(bridge).pending == old(bridge).pending,
{
    if 0 <= i < flags@.len() {
        assert(items@[i]@ == bar.all_items()[i]);
    }
}

/// Where a character is drawn among several chains: in the first that has a glyph for it,
/// by the first font there that has one.
pub proof fn the_first_glyph_draws(styles: &Vec<Style>, numbers: &Vec<Vec<u16>>, r: (Style, usize), k: int)
    requires
        styles@.len() == numbers@.len(),
        call_ensures(first_drawing, (styles, numbers), r),
        0 <= k < styles@.len(),
        forall|j: int, i: int| 0 <= j < k && 0 <= i < numbers@[j]@.len() ==> #[trigger] numbers@[j]@[i] == 0,
        exists|i: int| 0 <= i < numbers@[k]@.len() && #[trigger] numbers@[k]@[i] != 0,
    ensures
        r.0 == styles@[k],
        r.1 < numbers@[k]@.len(),
        numbers@[k]@[r.1 as int] != 0,
        forall|i: int| 0 <= i < r.1 ==> #[trigger] numbers@[k]@[i] == 0,
{
    lemma_drawn(styles@, numbers@, k);
    lemma_first(numbers@[k]@);
}

proof fn lemma_first(n: Seq<u16>)
    ensures
        match crate::render::first_glyph(n) {
            Some(i) => 0 <= i < n.len() && n[i] != 0 && forall|j: int| 0 <= j < i ==> #[trigger] n[j] == 0,
            None => forall|j: int| 0 <= j < n.len() ==> #[trigger] n[j] == 0,
        },
    decreases n.len(),
{
    if n.len() > 0 {
        let before = n.drop_last();
        lemma_first(before);
        assert forall|j: int| 0 <= j < before.len() implies #[trigger] n[j] == before[j] by {}
    }
}

proof fn lemma_drawn(styles: Seq<Style>, numbers: Seq<Vec<u16>>, k: int)
    requires
        styles.len() == numbers.len(),
        0 <= k < styles.len(),
        forall|j: int, i: int| 0 <= j < k && 0 <= i < numbers[j]@.len() ==> #[trigger] numbers[j]@[i] == 0,
        exists|i: int| 0 <= i < numbers[k]@.len() && #[trigger] numbers[k]@[i] != 0,
    ensures
        crate::render::first_glyph(numbers[k]@) is Some,
        crate::render::drawn_among(styles, numbers) == (styles[k], crate::render::first_glyph(numbers[k]@)->0),
    decreases k,
{
    lemma_first(numbers[k]@);
    lemma_first(numbers[0]@);
    if k > 0 {
        let fewer = numbers.skip(1);
        assert(crate::render::first_glyph(numbers[0]@) is None);
        assert forall|j: int, i: int| 0 <= j < k - 1 && 0 <= i < fewer[j]@.len() implies #[trigger] fewer[j]@[i]
            == 0 by {
            assert(numbers[j + 1]@[i] == 0);
        }
        assert(fewer[k - 1] == numbers[k]);
        let i = choose|i: int| 0 <= i < numbers[k]@.len() && #[trigger] numbers[k]@[i] != 0;
        assert(fewer[k - 1]@[i] != 0);
        lemma_drawn(styles.skip(1), fewer, k - 1);
    }
}

/// A family that is not installed has no face to read.
pub proof fn a_missing_family_has_no_face<F: FnMut(fontdb::ID) -> Option<Vec<u8>>>(
    db: &fontdb::Database,
    family: &str,
    weight: u16,
    slant: Slant,
    read: &mut F,
    r: Option<Vec<u8>>,
)
    requires
        call_ensures(face_data::<F>, (db, family, weight, slant, read), r),
    ensures
        !has_family(faces(*db), family@) ==> r is None,
        r is Some ==> exists|id: fontdb::ID|
            crate::fonts::best_face(faces(*db), family@, weight, slant) == Some(id) && #[trigger] call_ensures(
                *old(read),
                (id,),
                r,
            ),
{
    if r is Some {
        let id = crate::fonts::best_face(faces(*db), family@, weight, slant)->0;
        assert(call_ensures(*old(read), (id,), r));
    }
}

/// The picker offers a family of the database exactly where a monospaced face is listed
/// under it.
pub proof fn the_picker_offers_what_is_monospaced(db: &fontdb::Database, r: Vec<String>, i: int, k: int)
    requires
        call_ensures(monospace_families, (db,), r),
    ensures
        0 <= i < faces(*db).len() && faces(*db)[i].monospaced && faces(*db)[i].families.len() > 0 ==> views(
            r@,
        ).contains(faces(*db)[i].families[0]),
        0 <= k < r@.len() ==> exists|j: int|
            0 <= j < faces(*db).len() && (#[trigger] faces(*db)[j]).monospaced && faces(*db)[j].families.len() > 0
                && faces(*db)[j].families[0] == r@[k]@,
{
    let all = faces(*db);
    let list = crate::fonts::listing(all);
    if 0 <= i < all.len() && all[i].monospaced && all[i].families.len() > 0 {
        assert(list[i] == (Some(all[i].families[0]), true));
        assert(list.contains((Some(all[i].families[0]), true)));
    }
    if 0 <= k < r@.len() {
        let name = r@[k]@;
        assert(views(r@)[k] == name);
        assert(views(r@).contains(name));
        assert(list.contains((Some(name), true)));
        let j = choose|j: int| 0 <= j < list.len() && list[j] == (Some(name), true);
        assert(all[j].monospaced && all[j].families[0] == name);
    }
}

/// Whether four bytes spell the name of a table that text needs: `head`, `maxp`, `cmap`,
/// `glyf`, `loca`, `hhea`, `hmtx`, `vhea`, `vmtx`, `OS/2`, `kern` or `name`.
pub open spec fn names_needed(a: u8, b: u8, c: u8, d: u8) -> bool {
    ||| a == 104 && b == 101 && c == 97 && d == 100
    ||| a == 109 && b == 97 && c == 120 && d == 112
    ||| a == 99 && b == 109 && c == 97 && d == 112
    ||| a == 103 && b == 108 && c == 121 && d == 102
    ||| a == 108 && b == 111 && c == 99 && d == 97
    ||| a == 104 && b == 104 && c == 101 && d == 97
    ||| a == 104 && b == 109 && c == 116 && d == 120
    ||| a == 118 && b == 104 && c == 101 && d == 97
    ||| a == 118 && b == 109 && c == 116 && d == 120
    ||| a == 79 && b == 83 && c == 47 && d == 50
    ||| a == 107 && b == 101 && c == 114 && d == 110
    ||| a == 110 && b == 97 && c == 109 && d == 101
}

proof fn lemma_names_needed(a: u8, b: u8, c: u8, d: u8)
    ensures
        names_needed(a, b, c, d) <==> crate::font_file::needed(a * 0x100_0000 + b * 0x1_0000 + c * 0x100 + d),
{
}

/// A font file loses the lengths of the tables that text does not need, and nothing else:
/// every other byte stays where it is.
pub proof fn a_font_file_keeps_what_text_needs(b: &Vec<u8>, r: Vec<u8>, n: int, i: int, k: int, p: int)
    requires
        call_ensures(trim, (b,), r),
        12 <= b@.len() <= 0xff00_0000,
        b@[0] == 0 && b@[1] == 1 && b@[2] == 0 && b@[3] == 0,
        n == b@[4] * 256 + b@[5],
        12 + 16 * n <= b@.len(),
        0 <= i < n,
        0 <= k < 16,
        12 + 16 * n <= p < b@.len() || 0 <= p < 12,
    ensures
        r@.len() == b@.len(),
        r@[p] == b@[p],
        ({
            let at = 12 + 16 * i;
            if k >= 12 && !names_needed(b@[at], b@[at + 1], b@[at + 2], b@[at + 3]) {
                r@[at + k] == 0
            } else {
                r@[at + k] == b@[at + k]
            }
        }),
{
    let at = 12 + 16 * i;
    lemma_names_needed(b@[at], b@[at + 1], b@[at + 2], b@[at + 3]);
    assert(be32(b@, 0) == Some(0x0001_0000int));
    assert(directory(b@) == Some((12int, n)));
    assert((at + k - 12) / 16 == i && (at + k - 12) % 16 == k);
    if p >= 12 {
        assert((p - 12) / 16 >= n);
    }
}

/// A scrollback that is asked for lands between its bounds, and no nearer one can be had by
/// one more step either way.
pub proof fn a_scrollback_lands_as_near_as_it_can<F: FnMut(&String) -> bool>(
    s: &mut Settings,
    target: i64,
    families: &Vec<String>,
    terms: &Vec<String>,
    catalog: &Catalog,
    usable: &mut F,
    r: Option<i128>,
    more: &mut Settings,
    less: &mut Settings,
    a: &mut F,
    b: &mut F,
)
    requires
        1_000 <= old(s).scrollback <= 5_000_000,
        call_ensures(apply_number::<F>, (s, PrefRow::Scrollback, target, families, terms, catalog, usable), r),
        old(more)@ == final(s)@,
        old(less)@ == final(s)@,
        call_ensures(step::<F>, (more, PrefRow::Scrollback, 1, families, terms, catalog, a), ()),
        call_ensures(step::<F>, (less, PrefRow::Scrollback, -1i32, families, terms, catalog, b), ()),
    ensures
        r is Some && r->0 == final(s).scrollback,
        1_000 <= r->0 <= 5_000_000,
        gap(final(s).scrollback as int, target as int) <= gap(final(more).scrollback as int, target as int),
        gap(final(s).scrollback as int, target as int) <= gap(final(less).scrollback as int, target as int),
{
    crate::prefs_laws::a_scrollback_request_lands_on_the_nearest_rung(old(s)@, target as int, views(terms@), *catalog);
    let end = final(s)@;
    let up = final(more)@;
    let down = final(less)@;
    assert(up.scrollback == final(more).scrollback && down.scrollback == final(less).scrollback);
}

/// How far two numbers lie apart.
pub open spec fn gap(a: int, b: int) -> int {
    if a <= b {
        b - a
    } else {
        a - b
    }
}

/// A step over the font families ends on one that can be drawn or stays where it is, and
/// changes nothing but the family.
pub proof fn a_step_ends_on_a_family_that_can_be_drawn<F: FnMut(&String) -> bool>(
    s: &mut Settings,
    dir: i32,
    families: &Vec<String>,
    terms: &Vec<String>,
    catalog: &Catalog,
    usable: &mut F,
)
    requires
        call_ensures(step::<F>, (s, PrefRow::FontFamily, dir, families, terms, catalog, usable), ()),
    ensures
        final(s).font_family@ == old(s).font_family@ || exists|f: &String| #[trigger]
            call_ensures(*old(usable), (f,), true) && f@ == final(s).font_family@,
        families@.len() == 0 ==> final(s).font_family@ == old(s).font_family@,
{
    let before = old(s)@;
    let after = final(s)@;
    crate::prefs_laws::a_step_lands_on_a_family_that_can_be_drawn(
        before,
        dir as int,
        families@,
        terms@,
        *catalog,
        *old(usable),
        after,
    );
}

/// Where every family can be drawn, a step leads from one to the next of the list.
pub proof fn a_step_leads_to_the_next_family<F: FnMut(&String) -> bool>(
    s: &mut Settings,
    dir: i32,
    families: &Vec<String>,
    terms: &Vec<String>,
    catalog: &Catalog,
    usable: &mut F,
    now: &str,
    next: usize,
)
    requires
        call_ensures(step::<F>, (s, PrefRow::FontFamily, dir, families, terms, catalog, usable), ()),
        forall|f: &String| !call_ensures(*old(usable), (f,), false),
        families@.len() > 0,
        now@ == old(s).font_family@,
        call_ensures(crate::ring::next_position, (families, now, dir), next),
    ensures
        final(s).font_family@ == families@[next as int]@,
{
    let n = families@.len() as int;
    let start = crate::ring::next_place(views(families@), old(s)@.font_family, dir as int);
    assert(start == next);
    let zero = 0nat;
    assert(crate::prefs_model::visited(start, dir as int, zero, n) == start);
    assert(!call_ensures(*old(usable), (&families@[start],), false));
    assert forall|k: nat| k > 0 implies !#[trigger] crate::prefs_model::refused_before(
        families@,
        start,
        dir as int,
        k,
        *old(usable),
    ) by {
        assert(zero < k);
        assert(!call_ensures(
            *old(usable),
            (&families@[crate::prefs_model::visited(start, dir as int, zero, n)],),
            false,
        ));
    }
}

/// A popup over the font families lists them all, as they are; one over the themes or the
/// terminal types lists each of them once, the current one first.
pub proof fn a_popup_lists_what_can_be_picked(
    s: &Settings,
    row: PrefRow,
    families: &Vec<String>,
    terms: &Vec<String>,
    catalog: &Catalog,
    list: &Vec<String>,
    i: int,
    r: Vec<String>,
)
    requires
        call_ensures(choices, (s, row, families, terms, catalog), r),
        row == PrefRow::Term && list == terms || row == PrefRow::Chrome && *list == catalog.themes || row
            == PrefRow::FontFamily && list == families,
        list@.len() <= 4096,
        forall|a: int, b: int| 0 <= a < b < list@.len() ==> (#[trigger] list@[a])@ != (#[trigger] list@[b])@,
        0 <= i < list@.len(),
        row == PrefRow::Term ==> list@[i]@ == s.term@,
        row == PrefRow::Chrome ==> list@[i]@ == s.chrome_theme@,
        row == PrefRow::FontFamily ==> i == 0,
    ensures
        r@.len() == list@.len(),
        forall|k: int|
            0 <= k < r@.len() ==> (#[trigger] r@[k])@ == list@[if i + k < list@.len() {
                i + k
            } else {
                i + k - list@.len()
            }]@,
{
    let m = s@;
    let ring = views(list@);
    let all = views(r@);
    assert(ring[i] == list@[i]@);
    assert(all.len() == r@.len());
    if row != PrefRow::FontFamily {
        assert forall|a: int, b: int| 0 <= a < ring.len() && 0 <= b < ring.len() && a != b implies ring[a]
            != ring[b] by {
            if a < b {
                assert(list@[a]@ != list@[b]@);
            } else {
                assert(list@[b]@ != list@[a]@);
            }
        }
        assert(ring.no_duplicates());
        assert(ring.contains(ring[i]));
        crate::prefs_laws::a_popup_lists_the_whole_ring(m, row, views(families@), views(terms@), *catalog);
        crate::ring::place_is_first(ring, ring[i]);
        assert(crate::ring::place(ring, ring[i]) == Some(i));
        assert(all =~= ring.skip(i) + ring.take(i));
    }
    assert forall|k: int| 0 <= k < r@.len() implies (#[trigger] r@[k])@ == list@[if i + k < list@.len() {
        i + k
    } else {
        i + k - list@.len()
    }]@ by {
        assert(all[k] == r@[k]@);
    }
}

} // verus!

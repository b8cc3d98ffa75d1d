//! What is open over the terminal is for: who gets an event, and what it does in the
//! preferences, the colour picker, the manual, the menu and the search bar.
use vstd::prelude::*;
use vstd::string::*;
use crate::commit::{commit_settings, set_slot, slot_of_swatch, Slot, Work};
use crate::geometry::Area;
use crate::menu::{MenuPick, Row};
use crate::overlays::{
    dialog_event, manual_event, menu_event, picker_event, route, search_key, Dialog,
    DialogEvent, Drag, Kind, Layer, Manual, ManualEvent, Menu, MenuEvent, Open, Picker, PickerEvent, PickerHit,
    PickerTurn, SearchKey, SearchTurn,
};
use crate::prefs_model::{may_step, PrefRow};
use crate::prefs_native::RowKind;
use crate::ring::{cycle, next_position, ring_step};
use crate::search::{hit_marker_ys, marks_one, Match, Search};
use crate::settings::{Catalog, Rgb, Settings, SettingsModel};
use crate::settings_window::PrefLine;
use crate::text::{control, views};

verus! {

broadcast use vstd::string::group_string_axioms;

/// An event goes to the topmost of what is open: the colour picker, which leaves only the
/// other buttons to those below, the preferences, the manual, the menu; what is typed goes
/// to the search bar next, and everything else to the terminal. What happens to the window
/// itself always does.
pub proof fn the_topmost_gets_an_event(open: Open, k: Kind, r: Layer)
    requires
        call_ensures(route, (open, k), r),
    ensures
        ({
            let life = k == Kind::Lifecycle;
            let typed = k == Kind::Key || k == Kind::Ime || k == Kind::Modifiers;
            let picker = open.picker && k != Kind::OtherButton;
            &&& r == Layer::Picker <==> !life && picker
            &&& r == Layer::Prefs <==> !life && !picker && open.prefs
            &&& r == Layer::Manual <==> !life && !picker && !open.prefs && open.manual
            &&& r == Layer::Menu <==> !life && !picker && !open.prefs && !open.manual && open.menu
            &&& r == Layer::Search <==> typed && !picker && !open.prefs && !open.manual && !open.menu && open.search
        }),
{
}

/// Whether the row at `i` can be stepped: it edits a setting.
pub open spec fn edits_setting(rows: Seq<PrefLine>, i: int) -> bool {
    0 <= i < rows.len() && rows[i].pref is Some && rows[i].pref->0 != PrefRow::Close
}

/// Whether a dialog has stepped the row at `i`: in the pending edits alone, which it counts.
pub open spec fn has_stepped<F: FnMut(&String) -> bool>(
    before: Dialog,
    after: Dialog,
    settings: Settings,
    rows: Seq<PrefLine>,
    i: usize,
    dir: i32,
    families: Seq<String>,
    terms: Seq<String>,
    catalog: Catalog,
    usable: F,
    now: u64,
) -> bool {
    &&& after.open == before.open && after.sel == i && after.scroll == before.scroll
    &&& !edits_setting(rows, i as int) ==> after == (Dialog { sel: i, ..before })
    &&& edits_setting(rows, i as int) ==> {
        &&& after.pending is Some
        &&& may_step(
            if before.pending is Some { before.pending->0@ } else { settings@ },
            rows[i as int].pref->0,
            dir as int,
            families,
            terms,
            catalog,
            usable,
            after.pending->0@,
        )
        &&& after.last_edit == now
        &&& before.edits < u64::MAX ==> after.edits == before.edits + 1
    }
}

/// Whether a dialog has closed on the row at `i`, handing over what was pending.
pub open spec fn has_closed(before: Dialog, after: Dialog, i: usize, r: Option<Settings>) -> bool {
    &&& !after.open && after.pending is None && after.sel == i && after.scroll == before.scroll
    &&& r is Some <==> before.pending is Some
    &&& r is Some ==> r->0@ == before.pending->0@ && after.edits == 0
}

/// In the preferences Escape closes them, and so do Enter, Space and a press on the Close
/// row; whatever was edited is then handed over. Arrows select and step; a press on an arrow
/// steps its row its way, and one on a switch flips it. A press on any other row that edits
/// something selects it, and one on a heading does nothing.
pub proof fn the_preferences_do_what_is_asked<F: FnMut(&String) -> bool>(
    dialog: &mut Dialog,
    event: DialogEvent,
    settings: &Settings,
    rows: &Vec<PrefLine>,
    families: &Vec<String>,
    terms: &Vec<String>,
    catalog: &Catalog,
    usable: &mut F,
    now: u64,
    r: Option<Settings>,
)
    requires
        call_ensures(
            dialog_event::<F>,
            (dialog, event, settings, rows, families, terms, catalog, usable, now),
            r,
        ),
    ensures
        *final(usable) == *old(usable),
        ({
            let d = *old(dialog);
            let closing = |i: usize| i < rows@.len() && rows@[i as int].pref == Some(PrefRow::Close);
            let steps = |i: usize, dir: i32|
                r is None && has_stepped(
                    d,
                    *final(dialog),
                    *settings,
                    rows@,
                    i,
                    dir,
                    families@,
                    terms@,
                    *catalog,
                    *old(usable),
                    now,
                );
            match event {
                DialogEvent::Escape => has_closed(d, *final(dialog), d.sel, r),
                DialogEvent::Select(i, s) => r is None && *final(dialog) == (Dialog { sel: i, scroll: s, ..d }),
                DialogEvent::Step(dir) => steps(d.sel, dir),
                DialogEvent::Activate => if closing(d.sel) {
                    has_closed(d, *final(dialog), d.sel, r)
                } else {
                    steps(d.sel, 1)
                },
                DialogEvent::HitStep(i, dir) => steps(i, dir),
                DialogEvent::HitRow(i) => {
                    let row = rows@[i as int];
                    &&& i >= rows@.len() || row.pref is None ==> r is None && *final(dialog) == d
                    &&& i < rows@.len() && row.pref is Some && row.kind == RowKind::Toggle ==> steps(i, 1)
                    &&& i < rows@.len() && row.pref is Some && row.kind != RowKind::Toggle ==> if closing(i) {
                        has_closed(d, *final(dialog), i, r)
                    } else {
                        r is None && *final(dialog) == (Dialog { sel: i, ..d })
                    }
                },
                DialogEvent::Other => r is None && *final(dialog) == d,
            }
        }),
{
}

/// Opening the preferences selects the first row that can be, at the top, and keeps what is
/// pending.
pub proof fn the_preferences_open_on_a_row(dialog: &mut Dialog, selectable: &Vec<usize>)
    requires
        call_ensures(Dialog::open_on, (dialog, selectable), ()),
    ensures
        final(dialog).open,
        final(dialog).scroll == 0,
        selectable@.len() > 0 ==> final(dialog).sel == selectable@[0],
        final(dialog).pending == old(dialog).pending,
        final(dialog).edits == old(dialog).edits,
{
}

/// What is pending is handed over once, and then nothing is.
pub proof fn pending_edits_are_handed_over_once(
    first: &mut Dialog,
    second: &mut Dialog,
    r: Option<Settings>,
    again: Option<Settings>,
)
    requires
        call_ensures(Dialog::take_pending, (first, ), r),
        *old(second) == *final(first),
        call_ensures(Dialog::take_pending, (second, ), again),
    ensures
        r is Some <==> old(first).pending is Some,
        r is Some ==> r->0@ == old(first).pending->0@,
        again is None,
        final(first).open == old(first).open,
{
}

/// A press or a drag in the picker's square sets saturation and value, and one in its strip
/// the hue; what was grabbed stays grabbed until the release, wherever the pointer goes. Done,
/// Escape and a press outside close it.
pub proof fn the_picker_follows_what_was_grabbed(picker: &mut Option<Picker>, event: PickerEvent, r: PickerTurn)
    requires
        call_ensures(picker_event, (picker, event), r),
        *old(picker) is Some,
    ensures
        ({
            let p = old(picker)->0;
            let q = final(picker)->0;
            let closes = event == PickerEvent::Escape || event == PickerEvent::Press(PickerHit::Done) || event
                == PickerEvent::Press(PickerHit::Outside);
            &&& *final(picker) is None <==> closes
            &&& r == PickerTurn::Closed <==> closes
            &&& !closes ==> q.slot == p.slot
            &&& r == PickerTurn::Nothing ==> q == (Picker { drag: q.drag, ..p })
            &&& match event {
                PickerEvent::Press(PickerHit::Square(s, v)) => r == PickerTurn::Write && q.s == s && q.v == v && q.h
                    == p.h && q.drag == Some(Drag::Square),
                PickerEvent::Press(PickerHit::Strip(h)) => r == PickerTurn::Write && q.h == h && q.s == p.s && q.v
                    == p.v && q.drag == Some(Drag::Strip),
                PickerEvent::Motion(s, v, h) => {
                    &&& q.drag == p.drag
                    &&& r == PickerTurn::Write <==> p.drag is Some
                    &&& p.drag == Some(Drag::Square) ==> q.s == s && q.v == v && q.h == p.h
                    &&& p.drag == Some(Drag::Strip) ==> q.h == h && q.s == p.s && q.v == p.v
                    &&& p.drag is None ==> q == p
                },
                PickerEvent::Release => r == PickerTurn::Nothing && q.drag is None,
                PickerEvent::Press(PickerHit::Panel) => r == PickerTurn::Nothing && q == p,
                PickerEvent::Other => r == PickerTurn::Nothing && q == p,
                _ => true,
            }
        }),
{
}

/// A picked colour is written into the one colour that was picked, in the pending edits, and
/// nothing else of the settings changes.
pub proof fn a_picked_colour_goes_into_its_slot(s: &mut Settings, slot: Slot, rgb: Rgb, i: int)
    requires
        call_ensures(set_slot, (s, slot, rgb), ()),
        0 <= i < 16,
    ensures
        final(s).foreground == (if slot == Slot::Fg { rgb } else { old(s).foreground }),
        final(s).background == (if slot == Slot::Bg { rgb } else { old(s).background }),
        final(s).palette@[i] == (if slot is Palette && slot->Palette_0 == i { rgb } else { old(s).palette@[i] }),
        final(s)@ == (SettingsModel {
            foreground: final(s).foreground,
            background: final(s).background,
            palette: final(s).palette@,
            ..old(s)@
        }),
{
    let before = old(s)@;
    let after = final(s)@;
    assert(after.foreground == final(s).foreground && before.foreground == old(s).foreground);
    assert(after.palette == final(s).palette@ && before.palette == old(s).palette@);
}

/// The swatches show the text's colour, the background's, and then the palette in order.
pub proof fn swatches_go_through_the_colours(k: usize, r: Slot)
    requires
        call_ensures(slot_of_swatch, (k,), r),
    ensures
        r == Slot::Fg <==> k == 0,
        r == Slot::Bg <==> k == 1,
        r is Palette <==> k >= 2,
        r is Palette ==> r->Palette_0 + 2 == k,
{
}

/// Writing a picked colour pends it, on top of what was pending, and counts one edit.
pub proof fn a_picked_colour_pends(dialog: &mut Dialog, settings: &Settings, slot: Slot, rgb: Rgb, now: u64, i: int)
    requires
        call_ensures(Dialog::picker_write, (dialog, settings, slot, rgb, now), ()),
        0 <= i < 16,
    ensures
        final(dialog).pending is Some,
        ({
            let base = if old(dialog).pending is Some { old(dialog).pending->0@ } else { settings@ };
            let new = final(dialog).pending->0@;
            &&& new.foreground == (if slot == Slot::Fg { rgb } else { base.foreground })
            &&& new.background == (if slot == Slot::Bg { rgb } else { base.background })
            &&& base.palette.len() == 16 ==> new.palette[i] == (if slot is Palette && slot->Palette_0 == i {
                rgb
            } else {
                base.palette[i]
            })
            &&& new == (SettingsModel {
                foreground: new.foreground,
                background: new.background,
                palette: new.palette,
                ..base
            })
        }),
        final(dialog).last_edit == now,
        old(dialog).edits < u64::MAX ==> final(dialog).edits == old(dialog).edits + 1,
        final(dialog).open == old(dialog).open,
{
}

/// Changed settings take the place of the old ones, and ask for exactly the work that the
/// change needs; unchanged ones ask for none.
pub proof fn a_change_asks_for_its_own_work(current: &mut Settings, new: Settings, r: Option<Work>)
    requires
        call_ensures(commit_settings, (current, new), r),
    ensures
        final(current)@ == new@,
        r is None <==> old(current)@ == new@,
        r is Some ==> {
            let a = old(current)@;
            let b = new@;
            let work = r->0;
            &&& work.titlebar <==> a.show_titlebar != b.show_titlebar
            &&& work.family <==> a.font_family != b.font_family
            &&& work.fonts <==> work.family || a.font_size != b.font_size
            &&& work.colours <==> a.foreground != b.foreground || a.background != b.background || a.palette
                != b.palette
            &&& work.blur <==> (a.background_blur && a.background_opacity < 1_000) != (b.background_blur
                && b.background_opacity < 1_000)
        },
{
}

/// In the manual Escape and its like close it, a key scrolls by so many lines and the wheel
/// the other way round, never beyond either end; any key paints again.
pub proof fn the_manual_scrolls_between_its_ends(manual: &mut Manual, event: ManualEvent, last: usize, r: bool)
    requires
        call_ensures(manual_event, (manual, event, last), r),
        old(manual).scroll <= last <= 0x7fff_ffff,
    ensures
        final(manual).open <==> old(manual).open && event != ManualEvent::Close,
        r <==> event != ManualEvent::Other,
        final(manual).scroll <= last,
        ({
            let lines = match event {
                ManualEvent::Scroll(n) => n as int,
                ManualEvent::Wheel(n) => -n,
                _ => 0,
            };
            let to = old(manual).scroll + lines;
            &&& 0 <= to <= last ==> final(manual).scroll == to
            &&& to < 0 ==> final(manual).scroll == 0
            &&& to > last ==> final(manual).scroll == last
        }),
{
}

/// A click on a row of the menu that is enabled closes it and does what that row says; on
/// any other it changes nothing. Escape and a press outside close it, and the pointer marks
/// the row that it is over.
pub proof fn a_click_picks_the_row_it_is_on(menu: &mut Option<Menu>, event: MenuEvent, rows: &Vec<Row>, r: Option<MenuPick>)
    requires
        call_ensures(menu_event, (menu, event, rows), r),
        *old(menu) is Some,
    ensures
        match event {
            MenuEvent::Motion(row) => r is None && *final(menu) is Some && final(menu)->0.hover == row
                && final(menu)->0.at == old(menu)->0.at,
            MenuEvent::Escape => r is None && *final(menu) is None,
            MenuEvent::Outside => r is None && *final(menu) is None,
            MenuEvent::Click(Some(i)) => if i < rows@.len() && rows@[i as int].enabled {
                &&& *final(menu) is None
                &&& r is Some <==> rows@[i as int].action is Some
                &&& r is Some ==> r->0@ == rows@[i as int].action->0@
            } else {
                r is None && *final(menu) == *old(menu)
            },
            MenuEvent::Click(None) => r is None && *final(menu) == *old(menu),
            MenuEvent::Other => r is None && *final(menu) == *old(menu),
        },
{
}

/// In the search bar Escape closes it and forgets everything, text is added to the query and
/// Backspace takes its last character away, and either searches again. Text that cannot be
/// seen, and any other key, does nothing.
pub proof fn the_search_bar_edits_its_query(search: &mut Search, key: SearchKey, r: SearchTurn)
    requires
        call_ensures(search_key, (search, key), r),
    ensures
        ({
            let before = old(search).query@;
            let after = final(search).query@;
            match key {
                SearchKey::Escape => r is Closed && !final(search).open && after.len() == 0
                    && final(search).matches@.len() == 0 && final(search).pane is None,
                SearchKey::Backspace => r is Again && if before.len() == 0 {
                    after == before
                } else {
                    after == before.take(before.len() - 1)
                },
                SearchKey::Text(t) => {
                    let seen = t@.len() > 0 && forall|i: int| 0 <= i < t@.len() ==> !control(#[trigger] t@[i]);
                    &&& seen ==> r is Again && after == before + t@
                    &&& !seen ==> r is Nothing && after == before
                },
                SearchKey::Enter(_) => r is Show && after == before,
                SearchKey::Other => r is Nothing && after == before,
            }
        }),
        !(key is Escape) ==> final(search).open == old(search).open && final(search).matches
            == old(search).matches && final(search).pane == old(search).pane,
        !(key is Escape) && !(key is Enter) ==> final(search).index == old(search).index,
{
}

proof fn lemma_around(cur: int, n: int)
    requires
        0 <= cur < n,
    ensures
        (cur + 1) % n == (if cur + 1 < n { cur + 1 } else { 0 }),
        (cur - 1) % n == (if cur > 0 { cur - 1 } else { n - 1 }),
{
    if cur + 1 < n {
        vstd::arithmetic::div_mod::lemma_small_mod((cur + 1) as nat, n as nat);
    } else {
        vstd::arithmetic::div_mod::lemma_mod_self_0(n);
    }
    if cur > 0 {
        vstd::arithmetic::div_mod::lemma_small_mod((cur - 1) as nat, n as nat);
    } else {
        vstd::arithmetic::div_mod::lemma_mod_add_multiples_vanish(-1, n);
        vstd::arithmetic::div_mod::lemma_small_mod((n - 1) as nat, n as nat);
    }
}

/// Enter goes to the next hit and with Shift to the one before, round the ends, and brings
/// the line of the one that it went to into view.
pub proof fn enter_goes_from_hit_to_hit(search: &mut Search, shift: bool, r: SearchTurn)
    requires
        call_ensures(search_key, (search, SearchKey::Enter(shift)), r),
        old(search).wf(),
    ensures
        ({
            let n = old(search).matches@.len();
            let i = old(search).index as int;
            let j = final(search).index as int;
            &&& n == 0 ==> r == SearchTurn::Show(None) && j == i
            &&& n > 0 ==> r == SearchTurn::Show(Some(old(search).matches@[j].line))
            &&& n > 0 && !shift ==> j == (if i + 1 < n { i + 1 } else { 0 })
            &&& n > 0 && shift ==> j == (if i > 0 { i - 1 } else { n - 1 })
        }),
{
    let n = old(search).matches@.len() as int;
    if n > 0 {
        lemma_around(old(search).index as int, n);
    }
}

/// A new query goes to its first hit; new output keeps the hit that was gone to, as far as
/// there still are so many, and scrolls nowhere.
pub proof fn hits_are_taken_over(search: &mut Search, pane: u64, matches: Vec<Match>, jump: bool, r: Option<i32>)
    requires
        call_ensures(Search::take_matches, (search, pane, matches, jump), r),
    ensures
        final(search).matches@ == matches@,
        final(search).pane == Some(pane),
        final(search).query == old(search).query,
        r is Some <==> jump && matches@.len() > 0,
        r is Some ==> r->0 == matches@[0].line,
        jump ==> final(search).index == 0,
        !jump && old(search).index < matches@.len() ==> final(search).index == old(search).index,
        !jump && 0 < matches@.len() <= old(search).index ==> final(search).index + 1 == matches@.len(),
{
}

/// Opening the search bar begins anew, on the pane that it is opened for.
pub proof fn a_search_begins_anew(search: &mut Search, pane: u64)
    requires
        call_ensures(Search::start, (search, pane), ()),
    ensures
        final(search).open,
        final(search).pane == Some(pane),
        final(search).query@.len() == 0,
        final(search).matches@.len() == 0,
        final(search).index == 0,
{
}

/// Whether a mark is at the pixel nearest to where a line lies on a track: as far down it as
/// there are lines of the buffer above. Half a pixel goes away from zero.
pub open spec fn marks_line(line: int, history: int, screen: int, rect: Area, m: int) -> bool {
    let total = if history + screen > 0 { history + screen } else { 1 };
    let above = if line + history < 0 {
        0
    } else if line + history > total {
        total
    } else {
        line + history
    };
    let exact = rect.y * total + above * rect.h;
    let off = 64 * total * m - exact;
    &&& -32 * total <= off <= 32 * total
    &&& off == 32 * total ==> exact >= 0
    &&& off == -32 * total ==> exact < 0
}

proof fn lemma_nearest(num: int, den: int)
    requires
        den > 0,
    ensures
        ({
            let off = 2 * (den * crate::search::nearest(num, den) - num);
            -den <= off <= den && (off == den ==> num >= 0) && (off == -den ==> num < 0)
        }),
{
    let m = if num >= 0 { num } else { -num };
    let q = (2 * m + den) / (2 * den);
    vstd::arithmetic::div_mod::lemma_fundamental_div_mod(2 * m + den, 2 * den);
    vstd::arithmetic::div_mod::lemma_mod_bound(2 * m + den, 2 * den);
    assert((2 * den) * q == 2 * (den * q)) by (nonlinear_arith);
    assert(den * (-q) == -(den * q)) by (nonlinear_arith);
}

/// Every hit has a mark on the scrollbar, at the pixel nearest to where it lies in the
/// buffer; every mark is of a hit; and they come in order, none twice.
pub proof fn every_hit_is_marked_where_it_lies(
    lines: &Vec<i32>,
    history: usize,
    screen: usize,
    rect: Area,
    r: Vec<i64>,
    i: int,
    j: int,
)
    requires
        call_ensures(hit_marker_ys, (lines, history, screen, rect), r),
        rect.wf(),
        history <= 0x7fff_ffff,
        screen <= 0x7fff_ffff,
    ensures
        0 <= i < lines@.len() ==> exists|k: int|
            0 <= k < r@.len() && marks_line(
                lines@[i] as int,
                history as int,
                screen as int,
                rect,
                #[trigger] r@[k] as int,
            ),
        0 <= j < r@.len() ==> exists|k: int|
            0 <= k < lines@.len() && marks_line(
                #[trigger] lines@[k] as int,
                history as int,
                screen as int,
                rect,
                r@[j] as int,
            ),
        0 < j < r@.len() ==> r@[j - 1] < r@[j],
{
    let total = crate::search::track_lines(history as int, screen as int);
    let n = lines@.len() as int;
    if 0 <= i < lines@.len() {
        lemma_is_mark(lines@[i] as int, history as int, screen as int, rect);
        crate::search::lemma_mark_on_track(lines@[i] as int, history as int, total, rect);
        let m = crate::search::mark_of(lines@[i] as int, history as int, total, rect);
        lemma_pixels_fit(rect);
        assert(m == (m as i64) as int);
        assert(marks_one(lines@, n, history as int, screen as int, rect, m as i64));
        assert(r@.contains(m as i64));
        let k = choose|k: int| 0 <= k < r@.len() && r@[k] == m as i64;
        assert(marks_line(lines@[i] as int, history as int, screen as int, rect, r@[k] as int));
    }
    if 0 <= j < r@.len() {
        assert(r@.contains(r@[j]));
        assert(marks_one(lines@, n, history as int, screen as int, rect, r@[j]));
        let k = choose|k: int|
            0 <= k < n && r@[j] == crate::search::mark_of(
                #[trigger] lines@[k] as int,
                history as int,
                total,
                rect,
            );
        lemma_is_mark(lines@[k] as int, history as int, screen as int, rect);
        assert(marks_line(lines@[k] as int, history as int, screen as int, rect, r@[j] as int));
    }
}

proof fn lemma_pixels_fit(rect: Area)
    requires
        rect.wf(),
    ensures
        -0x1_0000_0000_0000 <= crate::search::nearest(rect.y as int, 64) <= 0x1_0000_0000_0000,
        -0x1_0000_0000_0000 <= crate::search::nearest(rect.y + rect.h, 64) <= 0x1_0000_0000_0000,
{
    lemma_nearest(rect.y as int, 64);
    lemma_nearest(rect.y + rect.h, 64);
}

proof fn lemma_is_mark(line: int, history: int, screen: int, rect: Area)
    requires
        0 <= history,
        0 <= screen,
    ensures
        marks_line(
            line,
            history,
            screen,
            rect,
            crate::search::mark_of(line, history, crate::search::track_lines(history, screen), rect),
        ),
{
    let total = crate::search::track_lines(history, screen);
    let down = crate::settings::clamped(line + history, 0, total);
    let exact = rect.y * total + down * rect.h;
    lemma_nearest(exact, 64 * total);
}

/// Going round a ring by so many steps lands as many places on, whole turns aside.
pub proof fn a_ring_goes_round(cur: usize, dir: i32, n: usize, r: usize)
    requires
        call_ensures(ring_step, (cur, dir, n), r),
        cur < n,
    ensures
        r < n,
        (cur + dir - r) % (n as int) == 0,
        dir == 1 ==> r == (if cur + 1 < n { cur + 1 } else { 0 }),
        dir == -1 ==> r == (if cur > 0 { cur - 1 } else { n - 1 }),
        dir == 0 ==> r == cur,
{
    lemma_around(cur as int, n as int);
    let x = cur + dir;
    let m = n as int;
    vstd::arithmetic::div_mod::lemma_fundamental_div_mod(x, m);
    vstd::arithmetic::div_mod::lemma_mod_multiples_basic(x / m, m);
    assert(x - x % m == (x / m) * m) by (nonlinear_arith)
        requires
            x == m * (x / m) + x % m,
    ;
    if dir == 0 {
        vstd::arithmetic::div_mod::lemma_small_mod(cur as nat, n as nat);
    }
}

/// From a name in a list the next is the one behind it, or the one before it going back,
/// round the ends; from a name that is not in it, it is the first, or going back the last.
pub proof fn a_list_goes_on_from_a_name(list: &Vec<String>, name: &str, dir: i32, r: usize, at: int)
    requires
        call_ensures(next_position, (list, name, dir), r),
        list@.len() > 0,
        dir == 1 || dir == -1,
        0 <= at < list@.len() ==> list@[at]@ == name@ && forall|j: int|
            0 <= j < at ==> (#[trigger] list@[j])@ != name@,
        at == list@.len() ==> forall|j: int| 0 <= j < list@.len() ==> (#[trigger] list@[j])@ != name@,
        0 <= at <= list@.len(),
    ensures
        at < list@.len() && dir == 1 ==> r == (if at + 1 < list@.len() { at + 1 } else { 0 }),
        at < list@.len() && dir == -1 ==> r == (if at > 0 { at - 1 } else { list@.len() - 1 }),
        at == list@.len() && dir == 1 ==> r == 0,
        at == list@.len() && dir == -1 ==> r == list@.len() - 1,
{
    let all = views(list@);
    crate::ring::place_is_first(all, name@);
    let found = crate::ring::place(all, name@);
    if at < list@.len() {
        assert(all[at] == name@);
        assert(all.contains(name@));
        let p = found->0;
        if p < at {
            assert(list@[p]@ != name@);
        }
        if at < p {
            assert(all[at] != name@);
        }
        lemma_around(at, list@.len() as int);
    } else {
        if found is Some {
            assert(list@[found->0]@ != name@);
        }
    }
}

/// Walking a list leaves the name that is next in it; an empty list leaves the name as it is.
pub proof fn a_walk_leaves_the_next_name(list: &Vec<String>, name: &mut String, was: &str, dir: i32, p: usize)
    requires
        call_ensures(cycle, (list, name, dir), ()),
        was@ == old(name)@,
        list@.len() > 0 ==> call_ensures(next_position, (list, was, dir), p),
    ensures
        list@.len() == 0 ==> final(name)@ == old(name)@,
        list@.len() > 0 ==> p < list@.len() && final(name)@ == list@[p as int]@,
{
}

} // verus!

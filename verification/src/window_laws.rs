//! What holds of the settings window and the manual: where the rows and their controls
//! stand, what is written into them, what their actions ask for, and how a line is set.
use vstd::prelude::*;
use crate::manual::{document, document_runs, line_runs, manual_lines, run_views, Line, Role};
use crate::prefs_model::PrefRow;
use crate::prefs_native::{choices, control, flag, label, number, range, Control, RowKind};
use crate::settings::{Catalog, Rgb, Settings};
use crate::settings_window::{
    build, colour_edit, edit_for, is_popup, row_elements, row_height, row_wiring, same_shape, sync, top_of, wells_at,
    Edit, Element, Frame, Plan, PrefLine, Reading, Write,
};
use crate::text::{split_lines, views};

verus! {

proof fn lemma_top(a: Seq<PrefLine>, b: Seq<PrefLine>, n: int)
    requires
        0 <= n <= a.len(),
        n <= b.len(),
        forall|i: int| 0 <= i < n ==> (#[trigger] a[i]).kind == b[i].kind,
    ensures
        top_of(a, n) == top_of(b, n),
        20 <= top_of(a, n) <= 20 + 58 * n,
    decreases n,
{
    if n > 0 {
        lemma_top(a, b, n - 1);
        assert(a[n - 1].kind == b[n - 1].kind);
    }
}

/// A window without rows is its margin alone, and each row makes it taller by the row's
/// height.
pub proof fn rows_stand_one_below_the_other(
    rows: &Vec<PrefLine>,
    more: &Vec<PrefLine>,
    s: &Settings,
    families: &Vec<String>,
    terms: &Vec<String>,
    catalog: &Catalog,
    plan: Plan,
    taller: Plan,
    h: u32,
)
    requires
        more@.len() == rows@.len() + 1,
        forall|i: int| 0 <= i < rows@.len() ==> (#[trigger] rows@[i]).kind == more@[i].kind,
        call_ensures(build, (rows, s, families, terms, catalog), plan),
        call_ensures(build, (more, s, families, terms, catalog), taller),
        call_ensures(row_height, (more@.last().kind,), h),
    ensures
        taller.height == plan.height + h,
        rows@.len() == 0 ==> plan.height == 40,
{
    lemma_top(rows@, more@, rows@.len() as int);
}

/// A heading has more room than a line that can be set, and that more than a readout; the
/// palette has room for two rows of wells. What closes the dialog takes none.
pub proof fn rows_are_as_tall_as_what_they_hold(kind: RowKind, r: u32)
    requires
        call_ensures(row_height, (kind,), r),
    ensures
        r == 34 <==> kind == RowKind::Section,
        r == 20 <==> kind == RowKind::Display,
        r == 58 <==> kind == RowKind::Swatches,
        r == 28 <==> kind == RowKind::Toggle || kind == RowKind::Step,
        r == 0 <==> kind == RowKind::Action,
{
}

/// The frame of an element.
pub open spec fn frame_of(e: Element) -> Frame {
    match e {
        Element::Heading(f) => f,
        Element::Readout(f) => f,
        Element::Label(f) => f,
        Element::Well(_, f) => f,
        Element::Switch(f) => f,
        Element::Slider(f) => f,
        Element::StepperField(f) => f,
        Element::Stepper(f) => f,
        Element::PopUp(f) => f,
    }
}

proof fn lemma_row_in_plan(
    rows: Seq<PrefLine>,
    above: Seq<PrefLine>,
    i: int,
)
    requires
        0 <= i < rows.len(),
        above.len() == i,
        forall|j: int| 0 <= j < i ==> (#[trigger] above[j]).kind == rows[j].kind,
    ensures
        top_of(rows, i) == top_of(above, i),
{
    lemma_top(above, rows, i);
}

/// Everything that a row holds lies where the rows above it end and within the row's height
/// and the window's width; a popup alone stands two points higher, as it is taller than the
/// text beside it.
pub proof fn what_a_row_holds_lies_in_it(
    rows: &Vec<PrefLine>,
    above: &Vec<PrefLine>,
    s: &Settings,
    families: &Vec<String>,
    terms: &Vec<String>,
    catalog: &Catalog,
    plan: Plan,
    upper: Plan,
    h: u32,
    i: int,
    k: int,
)
    requires
        0 <= i < rows@.len(),
        58 * rows@.len() + 40 <= u32::MAX,
        above@.len() == i,
        forall|j: int| 0 <= j < i ==> (#[trigger] above@[j]).kind == rows@[j].kind,
        call_ensures(build, (rows, s, families, terms, catalog), plan),
        call_ensures(build, (above, s, families, terms, catalog), upper),
        call_ensures(row_height, (rows@[i].kind,), h),
        rows@[i].kind != RowKind::Action,
        0 <= k < plan.elements@[i]@.len(),
    ensures
        ({
            let e = plan.elements@[i]@[k];
            let f = frame_of(e);
            let top = upper.height - 20;
            &&& 20 <= f.x && f.x + f.w <= 540
            &&& f.y >= top - 2
            &&& f.y < top ==> e is PopUp
            &&& f.y + f.h <= top + h
            &&& f.w > 0 && f.h > 0
        }),
{
    lemma_row_in_plan(rows@, above@, i);
    lemma_top(above@, above@, i);
    let y = top_of(rows@, i);
    let row = rows@[i];
    assert(plan.elements@[i]@ == row_elements(row, y));
    if row.kind == RowKind::Swatches && k > 0 {
        assert(row_elements(row, y)[k] == wells_at(y)[k - 1]);
        let n = k - 1;
        assert(0 <= n % 9 < 9 && 0 <= n / 9 < 2);
    }
}

/// A heading or a readout is all there is to its row. The palette has its label and eighteen
/// wells, in two lines of nine, each a step to the right of the one before.
pub proof fn wells_stand_in_two_lines_of_nine(
    rows: &Vec<PrefLine>,
    s: &Settings,
    families: &Vec<String>,
    terms: &Vec<String>,
    catalog: &Catalog,
    plan: Plan,
    i: int,
    k: int,
)
    requires
        0 <= i < rows@.len(),
        58 * rows@.len() + 40 <= u32::MAX,
        call_ensures(build, (rows, s, families, terms, catalog), plan),
        rows@[i].pref is None,
        0 <= k < 18,
    ensures
        rows@[i].kind == RowKind::Section ==> plan.elements@[i]@.len() == 1 && plan.elements@[i]@[0] is Heading,
        rows@[i].kind == RowKind::Display ==> plan.elements@[i]@.len() == 1 && plan.elements@[i]@[0] is Readout,
        rows@[i].kind == RowKind::Swatches ==> {
            let e = plan.elements@[i]@;
            let first = frame_of(e[1]);
            let f = frame_of(e[k + 1]);
            &&& e.len() == 19
            &&& e[0] is Label
            &&& e[k + 1] == Element::Well(k as usize, f)
            &&& first.x == 242 && first.y + 4 == frame_of(e[0]).y
            &&& f.w == 22 && f.h == 22
            &&& k < 9 ==> f.y == first.y && f.x == first.x + 26 * k
            &&& k >= 9 ==> f.y == first.y + 26 && f.x == first.x + 26 * (k - 9)
        },
        rows@[i].kind == RowKind::Toggle || rows@[i].kind == RowKind::Step || rows@[i].kind == RowKind::Action
            ==> plan.elements@[i]@.len() == 0,
        plan.kinds@[i] is None,
{
    let y = top_of(rows@, i);
    lemma_top(rows@, rows@, i);
    assert(plan.elements@[i]@ == row_elements(rows@[i], y));
    assert(plan.kinds@[i] == row_wiring(rows@[i]));
    if rows@[i].kind == RowKind::Swatches {
        assert(row_elements(rows@[i], y)[k + 1] == wells_at(y)[k]);
        assert(row_elements(rows@[i], y)[1] == wells_at(y)[0]);
    }
}

/// A row that edits a setting has its label at the left and the setting's control at the
/// right of it, and an action of the control means that setting. The row that closes the
/// dialog has nothing.
pub proof fn a_row_has_its_label_and_its_control(
    rows: &Vec<PrefLine>,
    s: &Settings,
    families: &Vec<String>,
    terms: &Vec<String>,
    catalog: &Catalog,
    plan: Plan,
    i: int,
    c: Control,
    items: Vec<String>,
)
    requires
        0 <= i < rows@.len(),
        58 * rows@.len() + 40 <= u32::MAX,
        call_ensures(build, (rows, s, families, terms, catalog), plan),
        rows@[i].kind == RowKind::Toggle || rows@[i].kind == RowKind::Step || rows@[i].kind == RowKind::Action,
        rows@[i].pref is Some,
        call_ensures(control, (rows@[i].pref->0,), c),
        call_ensures(choices, (s, rows@[i].pref->0, families, terms, catalog), items),
    ensures
        ({
            let e = plan.elements@[i]@;
            &&& c == Control::Dismiss ==> e.len() == 0 && plan.kinds@[i] is None
            &&& c != Control::Dismiss ==> {
                &&& plan.kinds@[i] == Some((rows@[i].pref->0, c))
                &&& e.len() == (if c == Control::Stepper {
                    3nat
                } else {
                    2nat
                })
                &&& e[0] is Label && frame_of(e[0]).x == 20 && frame_of(e[0]).w == 210 && frame_of(e[0]).h == 18
                &&& frame_of(e[1]).x == 242
                &&& c == Control::Switch <==> e[1] is Switch
                &&& c == Control::Slider <==> e[1] is Slider
                &&& c == Control::PopUp <==> e[1] is PopUp
                &&& c == Control::Stepper <==> e[1] is StepperField
                &&& c == Control::Stepper ==> {
                    &&& e[2] is Stepper
                    &&& frame_of(e[1]).y == frame_of(e[0]).y && frame_of(e[1]).w == 90 && frame_of(e[1]).h == 18
                    &&& frame_of(e[2]).x == frame_of(e[1]).x + frame_of(e[1]).w + 6
                    &&& frame_of(e[2]).y + 3 == frame_of(e[0]).y
                    &&& frame_of(e[2]).w == 19 && frame_of(e[2]).h == 24
                }
                &&& c == Control::Switch ==> frame_of(e[1]).y + 3 == frame_of(e[0]).y && frame_of(e[1]).w == 40
                    && frame_of(e[1]).h == 22
                &&& c == Control::Slider ==> frame_of(e[1]).y + 3 == frame_of(e[0]).y && frame_of(e[1]).w == 280
                    && frame_of(e[1]).h == 22
                &&& c == Control::PopUp ==> frame_of(e[1]).y + 5 == frame_of(e[0]).y && frame_of(e[1]).w == 280
                    && frame_of(e[1]).h == 25
            }
            &&& c == Control::PopUp ==> views(plan.menus@[i]@) == views(items@)
            &&& c != Control::PopUp ==> plan.menus@[i]@.len() == 0
        }),
{
    let y = top_of(rows@, i);
    lemma_top(rows@, rows@, i);
    assert(plan.elements@[i]@ == row_elements(rows@[i], y));
    assert(plan.kinds@[i] == row_wiring(rows@[i]));
    assert(views(plan.menus@[i]@).len() == plan.menus@[i]@.len());
}

/// What is written into a control is what its setting is: a switch is on where the flag is
/// set, a slider stands at the number and travels over its range, a popup has the current
/// name selected and is filled anew only where its names have changed. Each is live where
/// its row is.
pub proof fn a_control_is_written_what_its_setting_is(
    rows: &Vec<PrefLine>,
    s: &Settings,
    families: &Vec<String>,
    terms: &Vec<String>,
    catalog: &Catalog,
    menus: &mut Vec<Vec<String>>,
    r: Vec<Option<Write>>,
    i: int,
    c: Control,
    f: Option<bool>,
    n: Option<i128>,
    travel: Option<(i128, i128)>,
    l: Option<String>,
    items: Vec<String>,
)
    requires
        old(menus)@.len() == rows@.len(),
        call_ensures(sync, (rows, s, families, terms, catalog, menus), r),
        0 <= i < rows@.len(),
        rows@[i].kind == RowKind::Toggle || rows@[i].kind == RowKind::Step || rows@[i].kind == RowKind::Action,
        rows@[i].pref is Some,
        call_ensures(control, (rows@[i].pref->0,), c),
        call_ensures(flag, (s, rows@[i].pref->0), f),
        call_ensures(number, (s, rows@[i].pref->0), n),
        call_ensures(range, (s, rows@[i].pref->0, catalog), travel),
        call_ensures(label, (s, rows@[i].pref->0, catalog), l),
        call_ensures(choices, (s, rows@[i].pref->0, families, terms, catalog), items),
    ensures
        r@.len() == rows@.len(),
        c == Control::Switch ==> r@[i] is Some && r@[i]->0 == (Write::Switch {
            on: f == Some(true),
            enabled: rows@[i].enabled,
        }),
        c == Control::Slider ==> r@[i] is Some && r@[i]->0 == (Write::Slider {
            travel,
            value: n,
            enabled: rows@[i].enabled,
        }),
        c == Control::Stepper ==> r@[i] is Some && r@[i]->0 == (Write::Stepper { enabled: rows@[i].enabled }),
        c == Control::Dismiss ==> r@[i] is None,
        c == Control::PopUp ==> {
            &&& r@[i] is Some && r@[i]->0 is PopUp
            &&& r@[i]->0->PopUp_enabled == rows@[i].enabled
            &&& r@[i]->0->refill <==> views(old(menus)@[i]@) != views(items@)
            &&& views(final(menus)@[i]@) == views(items@)
            &&& r@[i]->0->select is Some ==> {
                &&& r@[i]->0->select->0 < items@.len()
                &&& items@[r@[i]->0->select->0 as int]@ == l->0@
            }
            &&& r@[i]->0->select is None ==> forall|k: int|
                0 <= k < items@.len() ==> (#[trigger] items@[k])@ != l->0@
        },
        c != Control::PopUp ==> views(final(menus)@[i]@) == views(old(menus)@[i]@),
{
    let m = final(menus)@[i];
    let w = r@[i];
    if c == Control::PopUp {
        crate::ring::place_is_first(views(items@), l->0@);
        assert(is_popup(rows@[i]));
        assert forall|k: int| 0 <= k < items@.len() implies views(items@)[k] == (#[trigger] items@[k])@ by {}
        if w->0->select is None {
            assert forall|k: int| 0 <= k < items@.len() implies (#[trigger] items@[k])@ != l->0@ by {
                assert(views(items@)[k] == items@[k]@);
            }
        }
    }
}

/// A readout is written its value; a heading and the palette are written nothing.
pub proof fn text_is_written_its_value(
    rows: &Vec<PrefLine>,
    s: &Settings,
    families: &Vec<String>,
    terms: &Vec<String>,
    catalog: &Catalog,
    menus: &mut Vec<Vec<String>>,
    r: Vec<Option<Write>>,
    i: int,
)
    requires
        old(menus)@.len() == rows@.len(),
        call_ensures(sync, (rows, s, families, terms, catalog, menus), r),
        0 <= i < rows@.len(),
        rows@[i].pref is None,
    ensures
        rows@[i].kind == RowKind::Display <==> r@[i] is Some,
        rows@[i].kind == RowKind::Display ==> r@[i]->0 is Text,
        views(final(menus)@[i]@) == views(old(menus)@[i]@),
{
    let m = final(menus)@[i];
    let w = r@[i];
}

/// A window serves other rows where there are as many of them, of the same kinds, with the
/// same labels and for the same settings; their values do not matter.
pub proof fn a_window_serves_rows_of_its_shape(built: &Vec<PrefLine>, rows: &Vec<PrefLine>, r: bool)
    requires
        call_ensures(same_shape, (built, rows), r),
    ensures
        r ==> built@.len() == rows@.len(),
        r ==> forall|i: int|
            #![trigger built@[i]]
            0 <= i < built@.len() ==> built@[i].kind == rows@[i].kind && built@[i].label@ == rows@[i].label@
                && built@[i].pref == rows@[i].pref,
        !r ==> built@.len() != rows@.len() || exists|i: int|
            #![trigger built@[i]]
            0 <= i < built@.len() && (built@[i].kind != rows@[i].kind || built@[i].label@ != rows@[i].label@
                || built@[i].pref != rows@[i].pref),
{
}

/// The action of a control asks for what the control reads, of the setting that it is wired
/// to: a switch whether it is on, a slider its number, a stepper its notches unless it has
/// not moved, a popup the name selected. A tag that is no row's asks for nothing.
pub proof fn an_action_asks_for_what_the_control_reads(
    tag: i64,
    kinds: &Vec<Option<(PrefRow, Control)>>,
    menus: &Vec<Vec<String>>,
    reading: Reading,
    r: Option<Edit>,
    row: PrefRow,
    c: Control,
)
    requires
        call_ensures(edit_for, (tag, kinds, menus, reading), r),
        menus@.len() == kinds@.len(),
    ensures
        !(0 <= tag < kinds@.len()) ==> r is None,
        0 <= tag < kinds@.len() && kinds@[tag as int] is None ==> r is None,
        0 <= tag < kinds@.len() && kinds@[tag as int] == Some((row, c)) ==> {
            &&& c == Control::Switch ==> r == Some(Edit::Flag(row, !(reading.state == 0)))
            &&& c == Control::Slider ==> r == Some(Edit::Number(row, reading.number))
            &&& c == Control::Stepper && reading.notches != 0 ==> r == Some(Edit::Step(row, reading.notches))
            &&& c == Control::Stepper && reading.notches == 0 ==> r is None
            &&& c == Control::PopUp ==> {
                let menu = menus@[tag as int]@;
                &&& r is Some <==> 0 <= reading.selected < menu.len()
                &&& r is Some ==> r->0 is Choice && r->0->Choice_0 == row && r->0->Choice_1@
                    == menu[reading.selected as int]@
            }
            &&& c == Control::Swatches || c == Control::Dismiss ==> r is None
        },
{
}

/// The wells are tagged from ten thousand on, in the order of the swatches; a colour that
/// cannot be read asks for nothing.
pub proof fn a_well_asks_for_its_own_swatch(tag: i64, colour: Option<Rgb>, r: Option<Edit>)
    requires
        call_ensures(colour_edit, (tag, colour), r),
        tag <= 0x3fff_ffff,
    ensures
        r is Some <==> tag >= 10_000 && colour is Some,
        r is Some ==> r->0 is Colour && r->0->Colour_0 + 10_000 == tag && r->0->Colour_1 == colour->0,
{
}

/// The manual of a Mac begins with the manual of any other machine, line for line.
pub proof fn a_mac_only_adds_to_the_manual(plain: Vec<String>, mac: Vec<String>, all: Vec<String>, i: int)
    requires
        call_ensures(manual_lines, (false,), plain),
        call_ensures(manual_lines, (true,), mac),
        call_ensures(split_lines, (crate::manual::MANUAL,), all),
    ensures
        plain@.len() == all@.len(),
        0 <= i < plain@.len() ==> plain@[i]@ == all@[i]@,
        plain@.len() <= mac@.len(),
        0 <= i < plain@.len() ==> mac@[i]@ == plain@[i]@,
{
    let p = views(plain@);
    let m = views(mac@);
    let a = views(all@);
    assert(p =~= a);
    assert(p.len() == plain@.len() && m.len() == mac@.len() && a.len() == all@.len());
    assert(p.len() <= m.len());
    if 0 <= i < plain@.len() {
        assert(p[i] == plain@[i]@);
        assert(a[i] == all@[i]@);
        assert(m[i] == mac@[i]@);
        assert(m[i] == p[i]);
    }
}

/// One line more adds its own runs behind the others and a newline at its end. The version
/// and a heading are bold; so is the key of a row with a key, and what stands beside it is
/// dimmed; any other line is plain.
pub proof fn a_line_is_set_by_what_it_is(
    lines: &Vec<Line>,
    more: &Vec<Line>,
    r: Vec<(Role, String)>,
    s: Vec<(Role, String)>,
    i: int,
)
    requires
        more@.len() == lines@.len() + 1,
        forall|k: int| 0 <= k < lines@.len() ==> #[trigger] more@[k] == lines@[k],
        call_ensures(document, (lines,), r),
        call_ensures(document, (more,), s),
    ensures
        lines@.len() == 0 ==> r@.len() == 0,
        0 <= i < r@.len() ==> same_run(s@[i], r@[i]),
        ({
            let l = more@.last();
            let n = r@.len() as int;
            let keyed = l.kind is Body && l.key_end is Some;
            &&& s@.len() == n + (if keyed {
                3int
            } else {
                2int
            })
            &&& is_run(s@.last(), Role::Body, seq!['\n'])
            &&& !(l.kind is Body) ==> is_run(s@[n], Role::Head, l.text@)
            &&& l.kind is Body && l.key_end is None ==> is_run(s@[n], Role::Body, l.text@)
            &&& keyed && l.key_end->0 <= l.text@.len() ==> {
                &&& is_run(s@[n], Role::Key, l.text@.take(l.key_end->0 as int))
                &&& is_run(s@[n + 1], Role::Dim, l.text@.skip(l.key_end->0 as int))
            }
            &&& keyed && l.key_end->0 > l.text@.len() ==> {
                &&& is_run(s@[n], Role::Key, l.text@)
                &&& is_run(s@[n + 1], Role::Dim, Seq::empty())
            }
        }),
{
    reveal_strlit("\n");
    assert("\n"@ =~= seq!['\n']);
    let l = more@.last();
    let n = r@.len() as int;
    let a = run_views(r@);
    let b = run_views(s@);
    lemma_same_document(lines@, more@, lines@.len());
    assert(b =~= a + line_runs(l).push((Role::Body, "\n"@)));
    assert(b[n] == line_runs(l)[0] || line_runs(l).len() == 0);
    if line_runs(l).len() == 2 {
        assert(b[n + 1] == line_runs(l)[1]);
    }
    assert(b[b.len() - 1] == (Role::Body, "\n"@));
    assert(l.text@.take(l.text@.len() as int) =~= l.text@);
    assert(l.text@.skip(l.text@.len() as int) =~= Seq::<char>::empty());
    if 0 <= i < r@.len() {
        assert(b[i] == a[i]);
    }
}

/// Whether a run has this role and this text.
pub open spec fn is_run(run: (Role, String), role: Role, text: Seq<char>) -> bool {
    let (has, t) = run;
    has == role && t@ == text
}

/// Whether two runs are of one role and one text.
pub open spec fn same_run(a: (Role, String), b: (Role, String)) -> bool {
    let (role, text) = b;
    is_run(a, role, text@)
}

proof fn lemma_same_document(a: Seq<Line>, b: Seq<Line>, n: nat)
    requires
        n <= a.len(),
        n <= b.len(),
        forall|k: int| 0 <= k < a.len() ==> #[trigger] b[k] == a[k],
    ensures
        document_runs(a, n) == document_runs(b, n),
    decreases n,
{
    if n > 0 {
        lemma_same_document(a, b, (n - 1) as nat);
        assert(b[n - 1] == a[n - 1]);
    }
}

} // verus!

//! The native settings window: what it is made of, what is written into it, and what
//! its controls ask for.
//!
//! The window shows the rows of the preferences dialog. Each row becomes a native
//! control ([`crate::prefs_native`]); a control's action becomes an [`Edit`], which is
//! a request and never a value that the model has already accepted.
use vstd::prelude::*;
use vstd::string::*;
use crate::prefs_model::PrefRow;
use crate::prefs_native::{
    choices, choices_of, control, control_of, flag, flag_of, label, label_of, number, number_of, range,
    row_control, row_control_of, span_of, Control, RowKind,
};
use crate::ring::{place, position};
use crate::settings::{Catalog, Settings, SettingsModel};
use crate::text::{same_text, views};

verus! {

broadcast use vstd::string::group_string_axioms;

/// The width of the window's contents.
pub const WIN_W: u32 = 560;

/// The margin round the rows.
pub const PAD: u32 = 20;

/// The width of a row's label.
pub const LABEL_W: u32 = 210;

/// Where the controls begin, and how wide they are: the margin, the gap and the room
/// for the scroller taken off.
pub const CTRL_X: u32 = 242;

pub const CTRL_W: u32 = 280;

/// The side of a colour well.
pub const SWATCH: u32 = 22;

/// The distance from one colour well to the next.
pub const WELL_STEP: u32 = 26;

/// The number of colour wells: text, background, and the sixteen of the palette.
pub const WELLS: usize = 18;

/// One row of the preferences dialog.
#[derive(Debug, Clone)]
pub struct PrefLine {
    pub kind: RowKind,
    pub label: String,
    pub value: String,
    pub pref: Option<PrefRow>,
    pub enabled: bool,
}

/// Where something stands, from the top left.
#[derive(Debug, Clone, Copy, PartialEq, Eq, Structural)]
pub struct Frame {
    pub x: u32,
    pub y: u32,
    pub w: u32,
    pub h: u32,
}

/// One thing to put into the window. Each carries its frame; the control of a row
/// carries nothing else, since its tag is the row's position.
#[derive(Debug, Clone, Copy, PartialEq, Eq, Structural)]
pub enum Element {
    /// A heading, in bold: the row's label.
    Heading(Frame),
    /// A read-only line, dimmed: the row's value.
    Readout(Frame),
    /// The row's label.
    Label(Frame),
    /// The colour well of a swatch.
    Well(usize, Frame),
    Switch(Frame),
    Slider(Frame),
    /// The read-only field beside a stepper: the row's value.
    StepperField(Frame),
    Stepper(Frame),
    PopUp(Frame),
}

/// How tall a row is. The row that closes the dialog has no control and no height.
pub open spec fn height_of(kind: RowKind) -> nat {
    match kind {
        RowKind::Section => 34,
        RowKind::Display => 20,
        RowKind::Swatches => 58,
        RowKind::Action => 0,
        RowKind::Toggle | RowKind::Step => 28,
    }
}

/// How tall a row is.
pub fn row_height(kind: RowKind) -> (r: u32)
    ensures
        r == height_of(kind),
{
    match kind {
        RowKind::Section => 34,
        RowKind::Display => 20,
        RowKind::Swatches => 58,
        RowKind::Action => 0,
        RowKind::Toggle | RowKind::Step => 28,
    }
}

/// Where a row of `rows` begins: below the margin and the rows above it.
pub open spec fn top_of(rows: Seq<PrefLine>, i: int) -> nat
    decreases i,
{
    if i <= 0 {
        PAD as nat
    } else {
        top_of(rows, i - 1) + height_of(rows[i - 1].kind)
    }
}

/// The colour wells of a palette row at `y`: two rows of nine.
pub open spec fn wells_at(y: nat) -> Seq<Element> {
    Seq::new(
        WELLS as nat,
        |k: int| Element::Well(
            k as usize,
            Frame {
                x: (CTRL_X + (k % 9) * WELL_STEP) as u32,
                y: (y + (k / 9) * WELL_STEP) as u32,
                w: SWATCH,
                h: SWATCH,
            },
        ),
    )
}

/// The control a row holds, with its label before it.
pub open spec fn control_elements(control: Control, y: nat) -> Seq<Element> {
    let name = Element::Label(Frame { x: PAD, y: (y + 3) as u32, w: LABEL_W, h: 18 });
    match control {
        Control::Switch => seq![
            name,
            Element::Switch(Frame { x: CTRL_X, y: y as u32, w: 40, h: 22 }),
        ],
        Control::Slider => seq![
            name,
            Element::Slider(Frame { x: CTRL_X, y: y as u32, w: CTRL_W, h: 22 }),
        ],
        Control::Stepper => seq![
            name,
            Element::StepperField(Frame { x: CTRL_X, y: (y + 3) as u32, w: 90, h: 18 }),
            Element::Stepper(Frame { x: (CTRL_X + 96) as u32, y: y as u32, w: 19, h: 24 }),
        ],
        Control::PopUp => seq![
            name,
            Element::PopUp(Frame { x: CTRL_X, y: (y - 2) as u32, w: CTRL_W, h: 25 }),
        ],
        Control::Swatches | Control::Dismiss => seq![name],
    }
}

/// What a row at `y` is made of.
pub open spec fn row_elements(row: PrefLine, y: nat) -> Seq<Element> {
    if row_control_of(row.kind, row.pref) == Some(Control::Dismiss) {
        Seq::empty()
    } else {
        match row.kind {
            RowKind::Section => seq![
                Element::Heading(
                    Frame { x: PAD, y: (y + 10) as u32, w: (WIN_W - PAD * 2) as u32, h: 18 },
                ),
            ],
            RowKind::Display => seq![
                Element::Readout(
                    Frame { x: PAD, y: y as u32, w: (WIN_W - PAD * 2 - 18) as u32, h: 16 },
                ),
            ],
            RowKind::Swatches => seq![
                Element::Label(Frame { x: PAD, y: (y + 4) as u32, w: LABEL_W, h: 18 }),
            ] + wells_at(y),
            RowKind::Toggle | RowKind::Step | RowKind::Action => match row.pref {
                None => Seq::empty(),
                Some(pref) => control_elements(control_of(pref), y),
            },
        }
    }
}

/// What an action on a row's control means: the row's setting and how to read the
/// control. A row without a control of its own has none.
pub open spec fn row_wiring(row: PrefLine) -> Option<(PrefRow, Control)> {
    if row.kind == RowKind::Section || row.kind == RowKind::Display || row.kind == RowKind::Swatches {
        None
    } else {
        match row.pref {
            Some(pref) => if control_of(pref) == Control::Dismiss {
                None
            } else {
                Some((pref, control_of(pref)))
            },
            None => None,
        }
    }
}

/// Whether a row's control is a popup.
pub open spec fn is_popup(row: PrefLine) -> bool {
    match row_wiring(row) {
        Some((_, Control::PopUp)) => true,
        _ => false,
    }
}

/// The items of a row's popup: none, where it is no popup.
pub open spec fn row_menu(
    row: PrefLine,
    m: SettingsModel,
    families: Seq<Seq<char>>,
    terms: Seq<Seq<char>>,
    catalog: Catalog,
) -> Seq<Seq<char>> {
    match row_wiring(row) {
        Some((pref, Control::PopUp)) => choices_of(m, pref, families, terms, catalog),
        _ => Seq::empty(),
    }
}

/// The window's contents.
pub struct Plan {
    /// How tall the contents are.
    pub height: u32,
    /// Per row, what to put into the window for it.
    pub elements: Vec<Vec<Element>>,
    /// Per row, what an action on its control means.
    pub kinds: Vec<Option<(PrefRow, Control)>>,
    /// Per row, the items of its popup.
    pub menus: Vec<Vec<String>>,
}

/// Whether `plan` is the window for `rows`.
pub open spec fn plan_fits(
    plan: Plan,
    rows: Seq<PrefLine>,
    m: SettingsModel,
    families: Seq<Seq<char>>,
    terms: Seq<Seq<char>>,
    catalog: Catalog,
) -> bool {
    &&& plan.height == top_of(rows, rows.len() as int) + PAD
    &&& plan.elements@.len() == rows.len()
    &&& plan.kinds@.len() == rows.len()
    &&& plan.menus@.len() == rows.len()
    &&& forall|i: int|
        #![trigger plan.elements@[i]]
        0 <= i < rows.len() ==> plan.elements@[i]@ == row_elements(rows[i], top_of(rows, i))
    &&& forall|i: int|
        #![trigger plan.kinds@[i]]
        0 <= i < rows.len() ==> plan.kinds@[i] == row_wiring(rows[i])
    &&& forall|i: int|
        #![trigger plan.menus@[i]]
        0 <= i < rows.len() ==> views(plan.menus@[i]@) == row_menu(rows[i], m, families, terms, catalog)
}

fn wells(y: u32, out: &mut Vec<Element>)
    requires
        y <= u32::MAX - 58,
    ensures
        final(out)@ == old(out)@ + wells_at(y as nat),
{
    let mut k: usize = 0;
    assert(out@ =~= old(out)@ + wells_at(y as nat).take(0));
    while k < WELLS
        invariant
            k <= WELLS,
            y <= u32::MAX - 58,
            out@ == old(out)@ + wells_at(y as nat).take(k as int),
        decreases WELLS - k,
    {
        let col: u32 = (k % 9) as u32;
        let line: u32 = (k / 9) as u32;
        out.push(
            Element::Well(
                k,
                Frame {
                    x: CTRL_X + col * WELL_STEP,
                    y: y + line * WELL_STEP,
                    w: SWATCH,
                    h: SWATCH,
                },
            ),
        );
        assert(wells_at(y as nat).take(k + 1) =~= wells_at(y as nat).take(k as int).push(
            wells_at(y as nat)[k as int],
        ));
        k = k + 1;
        assert(out@ =~= old(out)@ + wells_at(y as nat).take(k as int));
    }
    assert(wells_at(y as nat).take(k as int) =~= wells_at(y as nat));
}

fn elements_for(row: &PrefLine, y: u32) -> (r: Vec<Element>)
    requires
        PAD <= y <= u32::MAX - 58,
    ensures
        r@ == row_elements(*row, y as nat),
{
    let mut out: Vec<Element> = Vec::new();
    if row_control(row.kind, row.pref) == Some(Control::Dismiss) {
        assert(out@ =~= row_elements(*row, y as nat));
        return out;
    }
    match row.kind {
        RowKind::Section => {
            out.push(Element::Heading(Frame { x: PAD, y: y + 10, w: WIN_W - PAD * 2, h: 18 }));
        },
        RowKind::Display => {
            out.push(Element::Readout(Frame { x: PAD, y, w: WIN_W - PAD * 2 - 18, h: 16 }));
        },
        RowKind::Swatches => {
            out.push(Element::Label(Frame { x: PAD, y: y + 4, w: LABEL_W, h: 18 }));
            wells(y, &mut out);
        },
        RowKind::Toggle | RowKind::Step | RowKind::Action => {
            if let Some(pref) = row.pref {
                out.push(Element::Label(Frame { x: PAD, y: y + 3, w: LABEL_W, h: 18 }));
                match control(pref) {
                    Control::Switch => {
                        out.push(Element::Switch(Frame { x: CTRL_X, y, w: 40, h: 22 }));
                    },
                    Control::Slider => {
                        out.push(Element::Slider(Frame { x: CTRL_X, y, w: CTRL_W, h: 22 }));
                    },
                    Control::Stepper => {
                        out.push(Element::StepperField(Frame { x: CTRL_X, y: y + 3, w: 90, h: 18 }));
                        out.push(Element::Stepper(Frame { x: CTRL_X + 96, y, w: 19, h: 24 }));
                    },
                    Control::PopUp => {
                        out.push(Element::PopUp(Frame { x: CTRL_X, y: y - 2, w: CTRL_W, h: 25 }));
                    },
                    Control::Swatches | Control::Dismiss => {},
                }
            }
        },
    }
    assert(out@ =~= row_elements(*row, y as nat));
    out
}

fn wiring(row: &PrefLine) -> (r: Option<(PrefRow, Control)>)
    ensures
        r == row_wiring(*row),
{
    match row.kind {
        RowKind::Section | RowKind::Display | RowKind::Swatches => None,
        _ => match row.pref {
            Some(pref) => {
                let c: Control = control(pref);
                if c == Control::Dismiss {
                    None
                } else {
                    Some((pref, c))
                }
            },
            None => None,
        },
    }
}

proof fn lemma_top_bound(rows: Seq<PrefLine>, i: int)
    requires
        0 <= i,
    ensures
        PAD <= top_of(rows, i) <= PAD + 58 * i,
    decreases i,
{
    if i > 0 {
        lemma_top_bound(rows, i - 1);
    }
}

/// Plan the window for `rows`: the frames of everything in it, what each control's
/// action means, and what each popup lists.
pub fn build(
    rows: &Vec<PrefLine>,
    s: &Settings,
    families: &Vec<String>,
    terms: &Vec<String>,
    catalog: &Catalog,
) -> (r: Plan)
    requires
        58 * rows@.len() + 2 * PAD <= u32::MAX,
    ensures
        plan_fits(r, rows@, s@, views(families@), views(terms@), *catalog),
{
    let mut elements: Vec<Vec<Element>> = Vec::new();
    let mut kinds: Vec<Option<(PrefRow, Control)>> = Vec::new();
    let mut menus: Vec<Vec<String>> = Vec::new();
    let mut y: u32 = PAD;
    let mut i: usize = 0;
    while i < rows.len()
        invariant
            i <= rows@.len(),
            58 * rows@.len() + 2 * PAD <= u32::MAX,
            y == top_of(rows@, i as int),
            y <= PAD + 58 * i,
            elements@.len() == i,
            kinds@.len() == i,
            menus@.len() == i,
            forall|j: int|
                #![trigger elements@[j]]
                0 <= j < i ==> elements@[j]@ == row_elements(rows@[j], top_of(rows@, j)),
            forall|j: int| #![trigger kinds@[j]] 0 <= j < i ==> kinds@[j] == row_wiring(rows@[j]),
            forall|j: int|
                #![trigger menus@[j]]
                0 <= j < i ==> views(menus@[j]@) == row_menu(
                    rows@[j],
                    s@,
                    views(families@),
                    views(terms@),
                    *catalog,
                ),
        decreases rows@.len() - i,
    {
        let row: &PrefLine = &rows[i];
        proof {
            lemma_top_bound(rows@, i as int);
        }
        elements.push(elements_for(row, y));
        let wired: Option<(PrefRow, Control)> = wiring(row);
        kinds.push(wired);
        let none: Vec<String> = Vec::new();
        assert(views(none@) =~= Seq::<Seq<char>>::empty());
        let menu: Vec<String> = match wired {
            Some((pref, c)) => if c == Control::PopUp {
                choices(s, pref, families, terms, catalog)
            } else {
                none
            },
            None => none,
        };
        menus.push(menu);
        y = y + row_height(row.kind);
        i = i + 1;
    }
    Plan { height: y + PAD, elements, kinds, menus }
}

/// What to write into the widget that a row already has.
#[derive(Debug, Clone)]
pub enum Write {
    /// Show the row's value, in the read-only line.
    Text,
    /// Set the switch.
    Switch { on: bool, enabled: bool },
    /// Set the slider's travel and, where it differs, its value.
    Slider { travel: Option<(i128, i128)>, value: Option<i128>, enabled: bool },
    /// Show the row's value, in the field beside the stepper.
    Stepper { enabled: bool },
    /// Fill the popup anew where its items have changed, and select one of them.
    PopUp { refill: bool, select: Option<usize>, enabled: bool },
}

/// The value of a place that may be missing.
pub open spec fn place_view(p: Option<usize>) -> Option<int> {
    match p {
        Some(p) => Some(p as int),
        None => None,
    }
}

/// Whether `w` is what to write for a row, `shown` being the items its popup lists so
/// far.
pub open spec fn write_fits(
    w: Option<Write>,
    row: PrefLine,
    m: SettingsModel,
    families: Seq<Seq<char>>,
    terms: Seq<Seq<char>>,
    catalog: Catalog,
    shown: Seq<Seq<char>>,
) -> bool {
    if row.kind == RowKind::Display && row_control_of(row.kind, row.pref) != Some(Control::Dismiss) {
        w == Some(Write::Text)
    } else {
        match row_wiring(row) {
            None => w is None,
            Some((pref, Control::Switch)) => w == Some(
                Write::Switch { on: flag_of(m, pref) == Some(true), enabled: row.enabled },
            ),
            Some((pref, Control::Slider)) => {
                &&& w is Some && w->0 is Slider
                &&& (match w->0->Slider_travel {
                    Some((lo, hi)) => Some((lo as int, hi as int)),
                    None => None,
                }) == span_of(m, pref, catalog)
                &&& crate::prefs_native::int_view(w->0->Slider_value) == number_of(m, pref)
                &&& w->0->Slider_enabled == row.enabled
            },
            Some((_, Control::Stepper)) => w == Some(Write::Stepper { enabled: row.enabled }),
            Some((pref, Control::PopUp)) => {
                let items = choices_of(m, pref, families, terms, catalog);
                &&& w is Some && w->0 is PopUp
                &&& w->0->refill == (items != shown)
                &&& place_view(w->0->select) == place(items, label_of(m, pref, catalog)->0)
                &&& w->0->PopUp_enabled == row.enabled
            },
            Some(_) => w is None,
        }
    }
}

/// Whether two lists of texts are the same.
fn same_texts(a: &Vec<String>, b: &Vec<String>) -> (r: bool)
    ensures
        r == (views(a@) == views(b@)),
{
    if a.len() != b.len() {
        assert(views(a@).len() != views(b@).len());
        return false;
    }
    let mut i: usize = 0;
    while i < a.len()
        invariant
            i <= a@.len() == b@.len(),
            forall|j: int| 0 <= j < i ==> (#[trigger] a@[j])@ == b@[j]@,
        decreases a@.len() - i,
    {
        if !same_text(a[i].as_str(), b[i].as_str()) {
            assert(views(a@)[i as int] != views(b@)[i as int]);
            return false;
        }
        i = i + 1;
    }
    assert(views(a@) =~= views(b@));
    true
}

fn write_for(
    row: &PrefLine,
    s: &Settings,
    families: &Vec<String>,
    terms: &Vec<String>,
    catalog: &Catalog,
    menu: &mut Vec<String>,
) -> (r: Option<Write>)
    ensures
        write_fits(
            r,
            *row,
            s@,
            views(families@),
            views(terms@),
            *catalog,
            views(old(menu)@),
        ),
        views(final(menu)@) == (if is_popup(*row) {
            row_menu(*row, s@, views(families@), views(terms@), *catalog)
        } else {
            views(old(menu)@)
        }),
{
    if row.kind == RowKind::Display {
        if row_control(row.kind, row.pref) == Some(Control::Dismiss) {
            return None;
        }
        return Some(Write::Text);
    }
    let (pref, c): (PrefRow, Control) = match wiring(row) {
        Some((pref, c)) => (pref, c),
        None => return None,
    };
    match c {
        Control::Switch => {
            let on: bool = match flag(s, pref) {
                Some(on) => on,
                None => false,
            };
            Some(Write::Switch { on, enabled: row.enabled })
        },
        Control::Slider => Some(
            Write::Slider {
                travel: range(s, pref, catalog),
                value: number(s, pref),
                enabled: row.enabled,
            },
        ),
        Control::Stepper => Some(Write::Stepper { enabled: row.enabled }),
        Control::PopUp => {
            let items: Vec<String> = choices(s, pref, families, terms, catalog);
            let refill: bool = !same_texts(&items, menu);
            let select: Option<usize> = match label(s, pref, catalog) {
                Some(now) => position(&items, now.as_str()),
                None => None,
            };
            *menu = items;
            Some(Write::PopUp { refill, select, enabled: row.enabled })
        },
        Control::Swatches | Control::Dismiss => None,
    }
}

/// What to write into the widgets already on screen, per row; `menus` is what each
/// popup lists, and is brought up to date.
pub fn sync(
    rows: &Vec<PrefLine>,
    s: &Settings,
    families: &Vec<String>,
    terms: &Vec<String>,
    catalog: &Catalog,
    menus: &mut Vec<Vec<String>>,
) -> (r: Vec<Option<Write>>)
    requires
        old(menus)@.len() == rows@.len(),
    ensures
        r@.len() == rows@.len(),
        final(menus)@.len() == rows@.len(),
        forall|i: int|
            #![trigger r@[i]]
            0 <= i < rows@.len() ==> write_fits(
                r@[i],
                rows@[i],
                s@,
                views(families@),
                views(terms@),
                *catalog,
                views(old(menus)@[i]@),
            ),
        forall|i: int|
            #![trigger final(menus)@[i]]
            0 <= i < rows@.len() ==> views(final(menus)@[i]@) == (if is_popup(rows@[i]) {
                row_menu(rows@[i], s@, views(families@), views(terms@), *catalog)
            } else {
                views(old(menus)@[i]@)
            }),
{
    let mut out: Vec<Option<Write>> = Vec::new();
    let mut i: usize = 0;
    while i < rows.len()
        invariant
            i <= rows@.len() == menus@.len(),
            old(menus)@.len() == rows@.len(),
            out@.len() == i,
            forall|j: int| #![trigger menus@[j]] i <= j < rows@.len() ==> menus@[j] == old(menus)@[j],
            forall|j: int|
                #![trigger out@[j]]
                0 <= j < i ==> write_fits(
                    out@[j],
                    rows@[j],
                    s@,
                    views(families@),
                    views(terms@),
                    *catalog,
                    views(old(menus)@[j]@),
                ),
            forall|j: int|
                #![trigger menus@[j]]
                0 <= j < i ==> views(menus@[j]@) == (if is_popup(rows@[j]) {
                    row_menu(rows@[j], s@, views(families@), views(terms@), *catalog)
                } else {
                    views(old(menus)@[j]@)
                }),
        decreases rows@.len() - i,
    {
        let w: Option<Write> = write_for(&rows[i], s, families, terms, catalog, &mut menus[i]);
        out.push(w);
        i = i + 1;
    }
    out
}

/// Whether two lists of rows have the same shape, so that the widgets built for one
/// serve the other: kinds, labels and settings, but not the values.
pub open spec fn same_rows(a: Seq<PrefLine>, b: Seq<PrefLine>) -> bool {
    &&& a.len() == b.len()
    &&& forall|i: int|
        #![trigger a[i]]
        0 <= i < a.len() ==> a[i].kind == b[i].kind && a[i].label@ == b[i].label@ && a[i].pref == b[i].pref
}

/// Whether the window built for `built` can show `rows`, or must be built anew.
pub fn same_shape(built: &Vec<PrefLine>, rows: &Vec<PrefLine>) -> (r: bool)
    ensures
        r == same_rows(built@, rows@),
{
    if built.len() != rows.len() {
        return false;
    }
    let mut i: usize = 0;
    while i < rows.len()
        invariant
            i <= rows@.len() == built@.len(),
            forall|j: int|
                #![trigger built@[j]]
                0 <= j < i ==> built@[j].kind == rows@[j].kind && built@[j].label@ == rows@[j].label@
                    && built@[j].pref == rows@[j].pref,
        decreases rows@.len() - i,
    {
        if built[i].kind != rows[i].kind || built[i].pref != rows[i].pref || !same_text(
            built[i].label.as_str(),
            rows[i].label.as_str(),
        ) {
            assert(built@[i as int].kind == built@[i as int].kind);
            return false;
        }
        i = i + 1;
    }
    true
}

/// What a native control asks the model for.
#[derive(Clone, Debug)]
pub enum Edit {
    /// A switch was flipped.
    Flag(PrefRow, bool),
    /// A slider was dragged to this value.
    Number(PrefRow, i64),
    /// A stepper was clicked this many notches. It speaks the model's own language, so
    /// its notches are passed on as steps.
    Step(PrefRow, i32),
    /// An item of a popup was picked.
    Choice(PrefRow, String),
    /// A colour well changed its swatch: the text's, the background's, then those of
    /// the palette.
    Colour(usize, crate::settings::Rgb),
}

/// What a control reads when its action arrives.
#[derive(Clone, Copy, Debug)]
pub struct Reading {
    /// A switch: on where it is not zero.
    pub state: i64,
    /// A slider, in the setting's own unit.
    pub number: i64,
    /// A stepper: the notches turned since the last action.
    pub notches: i32,
    /// A popup: the position of the selected item, negative where there is none.
    pub selected: i64,
}

/// Tags below this are positions of rows; from here on, of swatches.
pub const WELL_TAG_BASE: i64 = 10_000;

/// What a control's action means, or `None` where it means nothing: a tag without a
/// row, a stepper that did not move, a popup without a selection.
pub fn edit_for(
    tag: i64,
    kinds: &Vec<Option<(PrefRow, Control)>>,
    menus: &Vec<Vec<String>>,
    reading: Reading,
) -> (r: Option<Edit>)
    ensures
        ({
            let wired = if 0 <= tag < kinds@.len() {
                kinds@[tag as int]
            } else {
                None
            };
            match wired {
                Some((row, Control::Switch)) => r == Some(Edit::Flag(row, reading.state != 0)),
                Some((row, Control::Slider)) => r == Some(Edit::Number(row, reading.number)),
                Some((row, Control::Stepper)) => r == if reading.notches == 0 {
                    None
                } else {
                    Some(Edit::Step(row, reading.notches))
                },
                Some((row, Control::PopUp)) => if tag < menus@.len() && 0 <= reading.selected
                    < menus@[tag as int]@.len() {
                    r is Some && r->0 is Choice && r->0->Choice_0 == row && r->0->Choice_1@
                        == menus@[tag as int]@[reading.selected as int]@
                } else {
                    r is None
                },
                _ => r is None,
            }
        }),
{
    if tag < 0 || tag as u64 >= kinds.len() as u64 {
        return None;
    }
    let at: usize = tag as usize;
    match kinds[at] {
        Some((row, c)) => match c {
            Control::Switch => Some(Edit::Flag(row, reading.state != 0)),
            Control::Slider => Some(Edit::Number(row, reading.number)),
            Control::Stepper => if reading.notches == 0 {
                None
            } else {
                Some(Edit::Step(row, reading.notches))
            },
            Control::PopUp => {
                if at >= menus.len() || reading.selected < 0 || reading.selected as u64
                    >= menus[at].len() as u64 {
                    return None;
                }
                Some(Edit::Choice(row, menus[at][reading.selected as usize].clone()))
            },
            Control::Swatches | Control::Dismiss => None,
        },
        None => None,
    }
}

/// What a colour well's action means: nothing, where its colour has no red, green and
/// blue, or its tag is not that of a well.
pub fn colour_edit(tag: i64, colour: Option<crate::settings::Rgb>) -> (r: Option<Edit>)
    ensures
        r == (if tag >= WELL_TAG_BASE && tag - WELL_TAG_BASE <= usize::MAX && colour is Some {
            Some(Edit::Colour((tag - WELL_TAG_BASE) as usize, colour->0))
        } else {
            None
        }),
{
    if tag < WELL_TAG_BASE {
        return None;
    }
    let at: i64 = tag - WELL_TAG_BASE;
    if at as u64 > usize::MAX as u64 {
        return None;
    }
    match colour {
        Some(rgb) => Some(Edit::Colour(at as usize, rgb)),
        None => None,
    }
}

/// The window's controls are the rows': the action of every control that the plan puts
/// into the window has a meaning, which is its row's setting; and only those have one.
pub proof fn every_control_is_wired(row: PrefLine, y: nat)
    ensures
        row_wiring(row) is Some <==> exists|k: int|
            0 <= k < row_elements(row, y).len() && (row_elements(row, y)[k] is Switch || row_elements(
                row,
                y,
            )[k] is Slider || row_elements(row, y)[k] is Stepper || row_elements(row, y)[k] is PopUp),
{
    let e = row_elements(row, y);
    if let Some((_, c)) = row_wiring(row) {
        if c == Control::Stepper {
            assert(e[2] is Stepper);
        } else {
            assert(e[1] is Switch || e[1] is Slider || e[1] is PopUp);
        }
    } else if row.kind == RowKind::Swatches {
        assert forall|k: int| 0 <= k < e.len() implies !((#[trigger] e[k]) is Switch || e[k] is Slider
            || e[k] is Stepper || e[k] is PopUp) by {
            if k > 0 {
                assert(e[k] == wells_at(y)[k - 1]);
            }
        }
    }
}

} // verus!

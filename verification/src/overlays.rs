//! What is open over the terminal, and which of it gets an event.
//!
//! From the top: the colour picker, the preferences, the manual, the menu, the search
//! bar. What is open takes the keyboard, so that nothing typed into it reaches a shell;
//! all but the search bar take the pointer, too.
use vstd::prelude::*;
use vstd::string::*;
use crate::commit::{set_slot, with_slot, Slot};
use crate::geometry::Point;
use crate::menu::{MenuPick, Meaning, Row, RowAction};
use crate::prefs_model::{may_step, picker_dismiss, step, Dismiss, PickerDismiss, PrefRow};
use crate::prefs_native::RowKind;
use crate::search::Search;
use crate::settings::{Catalog, Rgb, Settings, SettingsModel};
use crate::settings_window::PrefLine;
use crate::text::{control, is_control};

verus! {

broadcast use vstd::string::group_string_axioms;

/// The kinds of events, as far as it matters who gets them.
#[derive(Debug, Clone, Copy, PartialEq, Eq, Structural)]
pub enum Kind {
    LeftPress,
    LeftRelease,
    /// A press or release of another button.
    OtherButton,
    Motion,
    Wheel,
    Key,
    /// Text composed from several keys.
    Ime,
    Modifiers,
    /// The window is closed, resized, to be painted, or the like.
    Lifecycle,
}

/// What is open.
#[derive(Debug, Clone, Copy, PartialEq, Eq, Structural)]
pub struct Open {
    pub picker: bool,
    pub prefs: bool,
    pub manual: bool,
    pub menu: bool,
    pub search: bool,
}

/// Who gets an event.
#[derive(Debug, Clone, Copy, PartialEq, Eq, Structural)]
pub enum Layer {
    Picker,
    Prefs,
    Manual,
    Menu,
    Search,
    /// The terminal.
    Main,
}

/// Whether an event is typed: keys, composed text, and modifiers.
pub open spec fn is_typed(k: Kind) -> bool {
    k == Kind::Key || k == Kind::Ime || k == Kind::Modifiers
}

/// Whether an event is of the pointer.
pub open spec fn is_pointer(k: Kind) -> bool {
    k == Kind::LeftPress || k == Kind::LeftRelease || k == Kind::OtherButton || k == Kind::Motion || k
        == Kind::Wheel
}

/// Who gets an event: the topmost of what is open that takes its kind.
pub open spec fn layer_for(open: Open, k: Kind) -> Layer {
    if k == Kind::Lifecycle {
        Layer::Main
    } else if open.picker && k != Kind::OtherButton {
        Layer::Picker
    } else if open.prefs {
        Layer::Prefs
    } else if open.manual {
        Layer::Manual
    } else if open.menu {
        Layer::Menu
    } else if open.search && is_typed(k) {
        Layer::Search
    } else {
        Layer::Main
    }
}

/// Who gets an event.
pub fn route(open: Open, k: Kind) -> (r: Layer)
    ensures
        r == layer_for(open, k),
{
    if k == Kind::Lifecycle {
        return Layer::Main;
    }
    if open.picker && k != Kind::OtherButton {
        Layer::Picker
    } else if open.prefs {
        Layer::Prefs
    } else if open.manual {
        Layer::Manual
    } else if open.menu {
        Layer::Menu
    } else if open.search && (k == Kind::Key || k == Kind::Ime || k == Kind::Modifiers) {
        Layer::Search
    } else {
        Layer::Main
    }
}

/// Nothing typed reaches the terminal while anything is open over it; nor does the
/// pointer, unless it is the search bar alone; and what happens to the window itself
/// always does.
pub proof fn what_is_open_takes_the_keyboard(open: Open, k: Kind)
    ensures
        is_typed(k) && (open.picker || open.prefs || open.manual || open.menu || open.search) ==> layer_for(
            open,
            k,
        ) != Layer::Main,
        is_pointer(k) && (open.prefs || open.manual || open.menu) ==> layer_for(open, k) != Layer::Main,
        is_pointer(k) && !(open.picker || open.prefs || open.manual || open.menu) ==> layer_for(open, k)
            == Layer::Main,
        k == Kind::Lifecycle ==> layer_for(open, k) == Layer::Main,
{
}

/// The preferences dialog: the row that is selected, how far it is scrolled, and the edits
/// that have not been applied yet.
pub struct Dialog {
    pub open: bool,
    pub sel: usize,
    pub scroll: usize,
    pub pending: Option<Settings>,
    /// How many edits are in `pending`.
    pub edits: u64,
    /// When the last of them was made, in milliseconds.
    pub last_edit: u64,
}

/// What the pending edits make of the settings: the settings themselves, without any.
pub open spec fn edited(pending: Option<Settings>, settings: Settings) -> SettingsModel {
    match pending {
        Some(s) => s@,
        None => settings@,
    }
}

/// The contents of settings that may be missing.
pub open spec fn settings_view(s: Option<Settings>) -> Option<SettingsModel> {
    match s {
        Some(s) => Some(s@),
        None => None,
    }
}

/// The setting that a row edits, if it edits any.
pub open spec fn editable(rows: Seq<PrefLine>, i: int) -> Option<PrefRow> {
    if 0 <= i < rows.len() && rows[i].pref is Some && rows[i].pref != Some(PrefRow::Close) {
        rows[i].pref
    } else {
        None
    }
}

/// Whether the row at `i` closes the dialog.
pub open spec fn closes(rows: Seq<PrefLine>, i: int) -> bool {
    0 <= i < rows.len() && rows[i].pref == Some(PrefRow::Close)
}

/// The count of edits after one more, as far as it goes.
pub open spec fn one_more(edits: u64) -> u64 {
    if edits < u64::MAX {
        (edits + 1) as u64
    } else {
        edits
    }
}

/// The count of edits once those that are pending have been handed over.
pub open spec fn edits_left(d: Dialog) -> u64 {
    if d.pending is Some {
        0
    } else {
        d.edits
    }
}

impl Dialog {
    /// A closed dialog.
    pub fn closed() -> (r: Dialog)
        ensures
            !r.open,
            r.sel == 0,
            r.scroll == 0,
            r.pending is None,
            r.edits == 0,
    {
        Dialog { open: false, sel: 0, scroll: 0, pending: None, edits: 0, last_edit: 0 }
    }

    /// Open the dialog on the first row that can be selected, by the positions of those
    /// that can. A heading cannot, and the first row is one.
    pub fn open_on(&mut self, selectable: &Vec<usize>)
        ensures
            final(self).open,
            final(self).sel == (if selectable@.len() > 0 {
                selectable@[0]
            } else {
                0
            }),
            final(self).scroll == 0,
            final(self).pending == old(self).pending,
            final(self).edits == old(self).edits,
            final(self).last_edit == old(self).last_edit,
    {
        self.open = true;
        self.sel = if selectable.len() > 0 {
            selectable[0]
        } else {
            0
        };
        self.scroll = 0;
    }

    /// Keep `s` as the pending edits.
    fn hold(&mut self, s: Settings, now: u64)
        ensures
            settings_view(final(self).pending) == Some(s@),
            final(self).edits == one_more(old(self).edits),
            final(self).last_edit == now,
            final(self).open == old(self).open,
            final(self).sel == old(self).sel,
            final(self).scroll == old(self).scroll,
    {
        self.pending = Some(s);
        if self.edits < u64::MAX {
            self.edits = self.edits + 1;
        }
        self.last_edit = now;
    }

    /// A copy of the settings as the pending edits make them.
    fn latest(&self, settings: &Settings) -> (r: Settings)
        ensures
            r@ == edited(self.pending, *settings),
    {
        match &self.pending {
            Some(s) => s.copy(),
            None => settings.copy(),
        }
    }

    /// Step the setting of the selected row, in the pending edits alone: nothing is
    /// applied until they have held still.
    pub fn prefs_step<F: FnMut(&String) -> bool>(
        &mut self,
        settings: &Settings,
        rows: &Vec<PrefLine>,
        dir: i32,
        families: &Vec<String>,
        terms: &Vec<String>,
        catalog: &Catalog,
        usable: &mut F,
        now: u64,
    )
        requires
            forall|f: &String| call_requires(*old(usable), (f,)),
        ensures
            *final(usable) == *old(usable),
            final(self).open == old(self).open,
            final(self).sel == old(self).sel,
            final(self).scroll == old(self).scroll,
            match editable(rows@, old(self).sel as int) {
                None => *final(self) == *old(self),
                Some(row) => {
                    &&& final(self).pending is Some
                    &&& may_step(
                        edited(old(self).pending, *settings),
                        row,
                        dir as int,
                        families@,
                        terms@,
                        *catalog,
                        *old(usable),
                        final(self).pending->0@,
                    )
                    &&& final(self).last_edit == now
                    &&& final(self).edits == one_more(old(self).edits)
                },
            },
    {
        if self.sel >= rows.len() {
            return;
        }
        let row: PrefRow = match rows[self.sel].pref {
            Some(row) => row,
            None => return,
        };
        if row == PrefRow::Close {
            return;
        }
        let mut s: Settings = self.latest(settings);
        step(&mut s, row, dir, families, terms, catalog, usable);
        self.hold(s, now);
    }

    /// Close the dialog, and hand over the pending edits to be applied: none is
    /// stranded.
    pub fn close(&mut self) -> (r: Option<Settings>)
        ensures
            settings_view(r) == settings_view(old(self).pending),
            !final(self).open,
            final(self).pending is None,
            final(self).edits == edits_left(*old(self)),
            final(self).sel == old(self).sel,
            final(self).scroll == old(self).scroll,
            final(self).last_edit == old(self).last_edit,
    {
        self.open = false;
        self.take_pending()
    }

    /// Hand over the pending edits to be applied.
    pub fn take_pending(&mut self) -> (r: Option<Settings>)
        ensures
            settings_view(r) == settings_view(old(self).pending),
            final(self).pending is None,
            final(self).edits == edits_left(*old(self)),
            final(self).open == old(self).open,
            final(self).sel == old(self).sel,
            final(self).scroll == old(self).scroll,
            final(self).last_edit == old(self).last_edit,
    {
        let mut taken: Option<Settings> = None;
        if let Some(s) = &self.pending {
            taken = Some(s.copy());
            self.edits = 0;
        }
        self.pending = None;
        taken
    }
}

/// What happens in the dialog.
#[derive(Debug, Clone, Copy, PartialEq, Eq, Structural)]
pub enum DialogEvent {
    /// Escape.
    Escape,
    /// An arrow moves the selection to this row, the dialog being scrolled so far.
    Select(usize, usize),
    /// An arrow steps the selected row.
    Step(i32),
    /// Enter or Space on the selected row.
    Activate,
    /// A press on an arrow of this row.
    HitStep(usize, i32),
    /// A press on this row.
    HitRow(usize),
    /// Any other key or press.
    Other,
}

/// What an event asks of the dialog: to close, to step a row, to select one, or nothing.
#[derive(Debug, Clone, Copy, PartialEq, Eq, Structural)]
pub enum DialogMove {
    /// Select this row, and close the dialog.
    Close(usize),
    /// Select this row, and step it.
    StepRow(usize, i32),
    /// Select this row, the dialog being scrolled so far.
    SelectRow(usize, usize),
    Nothing,
}

/// What an event asks of the dialog. A press on a row that can be selected selects it; on
/// a toggle it also steps it, and on the Close row it closes the dialog.
pub open spec fn dialog_move(
    rows: Seq<PrefLine>,
    sel: usize,
    scroll: usize,
    event: DialogEvent,
) -> DialogMove {
    match event {
        DialogEvent::Escape => DialogMove::Close(sel),
        DialogEvent::Select(i, s) => DialogMove::SelectRow(i, s),
        DialogEvent::Step(dir) => DialogMove::StepRow(sel, dir),
        DialogEvent::Activate => if closes(rows, sel as int) {
            DialogMove::Close(sel)
        } else {
            DialogMove::StepRow(sel, 1)
        },
        DialogEvent::HitStep(i, dir) => DialogMove::StepRow(i, dir),
        DialogEvent::HitRow(i) => if i >= rows.len() || rows[i as int].pref is None {
            DialogMove::Nothing
        } else if rows[i as int].kind == RowKind::Toggle {
            DialogMove::StepRow(i, 1)
        } else if closes(rows, i as int) {
            DialogMove::Close(i)
        } else {
            DialogMove::SelectRow(i, scroll)
        },
        DialogEvent::Other => DialogMove::Nothing,
    }
}

fn next_move(rows: &Vec<PrefLine>, sel: usize, scroll: usize, event: DialogEvent) -> (r: DialogMove)
    ensures
        r == dialog_move(rows@, sel, scroll, event),
{
    match event {
        DialogEvent::Escape => DialogMove::Close(sel),
        DialogEvent::Select(i, s) => DialogMove::SelectRow(i, s),
        DialogEvent::Step(dir) => DialogMove::StepRow(sel, dir),
        DialogEvent::Activate => if sel < rows.len() && rows[sel].pref == Some(PrefRow::Close) {
            DialogMove::Close(sel)
        } else {
            DialogMove::StepRow(sel, 1)
        },
        DialogEvent::HitStep(i, dir) => DialogMove::StepRow(i, dir),
        DialogEvent::HitRow(i) => if i >= rows.len() || rows[i].pref.is_none() {
            DialogMove::Nothing
        } else if rows[i].kind == RowKind::Toggle {
            DialogMove::StepRow(i, 1)
        } else if rows[i].pref == Some(PrefRow::Close) {
            DialogMove::Close(i)
        } else {
            DialogMove::SelectRow(i, scroll)
        },
        DialogEvent::Other => DialogMove::Nothing,
    }
}

/// What an event does in the dialog: it may close it, and then hands over the pending
/// edits to be applied; or select a row; or step one, in the pending edits alone.
pub fn dialog_event<F: FnMut(&String) -> bool>(
    dialog: &mut Dialog,
    event: DialogEvent,
    settings: &Settings,
    rows: &Vec<PrefLine>,
    families: &Vec<String>,
    terms: &Vec<String>,
    catalog: &Catalog,
    usable: &mut F,
    now: u64,
) -> (r: Option<Settings>)
    requires
        forall|f: &String| call_requires(*old(usable), (f,)),
    ensures
        *final(usable) == *old(usable),
        match dialog_move(rows@, old(dialog).sel, old(dialog).scroll, event) {
            DialogMove::Close(i) => {
                &&& settings_view(r) == settings_view(old(dialog).pending)
                &&& !final(dialog).open
                &&& final(dialog).pending is None
                &&& final(dialog).sel == i
                &&& final(dialog).scroll == old(dialog).scroll
                &&& final(dialog).last_edit == old(dialog).last_edit
                &&& final(dialog).edits == edits_left(*old(dialog))
            },
            DialogMove::SelectRow(i, s) => {
                &&& r is None
                &&& *final(dialog) == (Dialog { sel: i, scroll: s, ..*old(dialog) })
            },
            DialogMove::Nothing => r is None && *final(dialog) == *old(dialog),
            DialogMove::StepRow(i, dir) => {
                &&& r is None
                &&& final(dialog).sel == i
                &&& final(dialog).open == old(dialog).open
                &&& final(dialog).scroll == old(dialog).scroll
                &&& match editable(rows@, i as int) {
                    None => *final(dialog) == (Dialog { sel: i, ..*old(dialog) }),
                    Some(row) => {
                        &&& final(dialog).pending is Some
                        &&& may_step(
                            edited(old(dialog).pending, *settings),
                            row,
                            dir as int,
                            families@,
                            terms@,
                            *catalog,
                            *old(usable),
                            final(dialog).pending->0@,
                        )
                        &&& final(dialog).last_edit == now
                        &&& final(dialog).edits == one_more(old(dialog).edits)
                    },
                }
            },
        },
{
    match next_move(rows, dialog.sel, dialog.scroll, event) {
        DialogMove::Close(i) => {
            dialog.sel = i;
            dialog.close()
        },
        DialogMove::SelectRow(i, s) => {
            dialog.sel = i;
            dialog.scroll = s;
            None
        },
        DialogMove::StepRow(i, dir) => {
            dialog.sel = i;
            dialog.prefs_step(settings, rows, dir, families, terms, catalog, usable, now);
            None
        },
        DialogMove::Nothing => None,
    }
}

/// Which part of the picker a drag moves.
#[derive(Debug, Clone, Copy, PartialEq, Eq, Structural)]
pub enum Drag {
    /// Saturation and value, in the square.
    Square,
    /// The hue, in the strip.
    Strip,
}

/// The colour picker: the colour it edits, its hue, saturation and value in 65535ths, and
/// what is being dragged.
#[derive(Debug, Clone, Copy, PartialEq, Eq, Structural)]
pub struct Picker {
    pub slot: Slot,
    pub h: u16,
    pub s: u16,
    pub v: u16,
    pub drag: Option<Drag>,
}

/// What a press of the left button hits in the picker.
#[derive(Debug, Clone, Copy, PartialEq, Eq, Structural)]
pub enum PickerHit {
    /// Outside its panel.
    Outside,
    /// The Done button.
    Done,
    /// The square, at this saturation and value.
    Square(u16, u16),
    /// The strip, at this hue.
    Strip(u16),
    /// Anything else of the panel.
    Panel,
}

/// What happens in the picker.
#[derive(Debug, Clone, Copy, PartialEq, Eq, Structural)]
pub enum PickerEvent {
    Press(PickerHit),
    /// A motion: the saturation and value, and the hue, nearest to the pointer.
    Motion(u16, u16, u16),
    Release,
    /// The Escape key.
    Escape,
    /// Any other key, the wheel, composed text, modifiers: swallowed.
    Other,
}

/// How an event dismisses the picker, if it does.
pub open spec fn dismissed_by(event: PickerEvent) -> Option<PickerDismiss> {
    match event {
        PickerEvent::Press(PickerHit::Outside) => Some(PickerDismiss::ClickedOutside),
        PickerEvent::Press(PickerHit::Done) => Some(PickerDismiss::Done),
        PickerEvent::Escape => Some(PickerDismiss::Escape),
        _ => None,
    }
}

/// The picker after an event that does not dismiss it.
pub open spec fn picker_after(p: Picker, event: PickerEvent) -> Picker {
    match event {
        PickerEvent::Press(PickerHit::Square(s, v)) => Picker { drag: Some(Drag::Square), s, v, ..p },
        PickerEvent::Press(PickerHit::Strip(h)) => Picker { drag: Some(Drag::Strip), h, ..p },
        PickerEvent::Motion(s, v, h) => match p.drag {
            Some(Drag::Square) => Picker { s, v, ..p },
            Some(Drag::Strip) => Picker { h, ..p },
            None => p,
        },
        PickerEvent::Release => Picker { drag: None, ..p },
        _ => p,
    }
}

/// Whether an event writes the picker's colour into the pending edits.
pub open spec fn picker_writes(p: Picker, event: PickerEvent) -> bool {
    match event {
        PickerEvent::Press(PickerHit::Square(_, _)) => true,
        PickerEvent::Press(PickerHit::Strip(_)) => true,
        PickerEvent::Motion(_, _, _) => p.drag is Some,
        _ => false,
    }
}

/// What an event in the picker comes to.
#[derive(Debug, Clone, Copy, PartialEq, Eq, Structural)]
pub enum PickerTurn {
    /// The picker closes, and the pending edits are to be applied.
    Closed,
    /// The picker's colour is to be written into the pending edits.
    Write,
    Nothing,
}

/// What an event does in the picker.
pub fn picker_event(picker: &mut Option<Picker>, event: PickerEvent) -> (r: PickerTurn)
    requires
        *old(picker) is Some,
    ensures
        match dismissed_by(event) {
            Some(_) => r is Closed && *final(picker) is None,
            None => {
                &&& *final(picker) == Some(picker_after(old(picker)->0, event))
                &&& r == (if picker_writes(old(picker)->0, event) {
                    PickerTurn::Write
                } else {
                    PickerTurn::Nothing
                })
            },
        },
{
    let mut p: Picker = match *picker {
        Some(p) => p,
        None => return PickerTurn::Nothing,
    };
    let mut write: bool = false;
    match event {
        PickerEvent::Press(hit) => match hit {
            PickerHit::Outside | PickerHit::Done => {
                *picker = None;
                return PickerTurn::Closed;
            },
            PickerHit::Square(s, v) => {
                p.drag = Some(Drag::Square);
                p.s = s;
                p.v = v;
                write = true;
            },
            PickerHit::Strip(h) => {
                p.drag = Some(Drag::Strip);
                p.h = h;
                write = true;
            },
            PickerHit::Panel => {},
        },
        PickerEvent::Motion(s, v, h) => match p.drag {
            Some(Drag::Square) => {
                p.s = s;
                p.v = v;
                write = true;
            },
            Some(Drag::Strip) => {
                p.h = h;
                write = true;
            },
            None => {},
        },
        PickerEvent::Release => {
            p.drag = None;
        },
        PickerEvent::Escape => {
            *picker = None;
            return PickerTurn::Closed;
        },
        PickerEvent::Other => {},
    }
    *picker = Some(p);
    if write {
        PickerTurn::Write
    } else {
        PickerTurn::Nothing
    }
}

impl Dialog {
    /// Write the picker's colour into its slot, in the pending edits alone.
    pub fn picker_write(&mut self, settings: &Settings, slot: Slot, rgb: Rgb, now: u64)
        ensures
            settings_view(final(self).pending) == Some(
                with_slot(edited(old(self).pending, *settings), slot, rgb),
            ),
            final(self).last_edit == now,
            final(self).edits == one_more(old(self).edits),
            final(self).open == old(self).open,
            final(self).sel == old(self).sel,
            final(self).scroll == old(self).scroll,
    {
        let mut s: Settings = self.latest(settings);
        set_slot(&mut s, slot, rgb);
        self.hold(s, now);
    }

    /// The picker was dismissed: hand over the pending edits to be applied, whichever way
    /// it was.
    pub fn close_picker(&mut self, way: PickerDismiss) -> (r: Option<Settings>)
        ensures
            settings_view(r) == settings_view(old(self).pending),
            final(self).pending is None,
            final(self).edits == edits_left(*old(self)),
            final(self).last_edit == old(self).last_edit,
            final(self).open == old(self).open,
            final(self).sel == old(self).sel,
            final(self).scroll == old(self).scroll,
    {
        match picker_dismiss(way) {
            Dismiss::Commit => self.take_pending(),
            Dismiss::Discard => {
                self.pending = None;
                self.edits = 0;
                None
            },
        }
    }
}

/// The manual: whether it is open, and the first line shown.
#[derive(Debug, Clone, Copy, PartialEq, Eq, Structural)]
pub struct Manual {
    pub open: bool,
    pub scroll: usize,
}

/// What happens in the manual.
#[derive(Debug, Clone, Copy, PartialEq, Eq, Structural)]
pub enum ManualEvent {
    /// Escape, F1 or `q`.
    Close,
    /// A key that scrolls by so many lines, down if positive.
    Scroll(i32),
    /// The wheel, by so many lines, up if positive.
    Wheel(i32),
    /// A press of any other key, which changes nothing.
    Key,
    /// Anything else: swallowed.
    Other,
}

/// A scroll moved by so many lines, no further than to either end.
pub open spec fn scrolled(scroll: int, lines: int, last: int) -> int {
    crate::settings::clamped(scroll + lines, 0, last)
}

/// What an event does in the manual, whose last scroll position is `last`. Says whether
/// the window must be painted again.
pub fn manual_event(manual: &mut Manual, event: ManualEvent, last: usize) -> (r: bool)
    requires
        last <= 0x7fff_ffff,
        old(manual).scroll <= 0x7fff_ffff,
    ensures
        match event {
            ManualEvent::Close => r && *final(manual) == (Manual { open: false, ..*old(manual) }),
            ManualEvent::Scroll(n) => r && *final(manual) == (Manual {
                scroll: scrolled(old(manual).scroll as int, n as int, last as int) as usize,
                ..*old(manual)
            }),
            ManualEvent::Wheel(n) => r && *final(manual) == (Manual {
                scroll: scrolled(old(manual).scroll as int, -n, last as int) as usize,
                ..*old(manual)
            }),
            ManualEvent::Key => r && *final(manual) == *old(manual),
            ManualEvent::Other => !r && *final(manual) == *old(manual),
        },
        final(manual).scroll <= 0x7fff_ffff,
{
    match event {
        ManualEvent::Close => {
            manual.open = false;
            true
        },
        ManualEvent::Scroll(n) => {
            let to: i64 = crate::settings::clamp(manual.scroll as i64 + n as i64, 0, last as i64);
            manual.scroll = to as usize;
            true
        },
        ManualEvent::Wheel(n) => {
            let to: i64 = crate::settings::clamp(manual.scroll as i64 - n as i64, 0, last as i64);
            manual.scroll = to as usize;
            true
        },
        ManualEvent::Key => true,
        ManualEvent::Other => false,
    }
}

/// An open menu: where it was opened, and the row under the pointer.
#[derive(Debug, Clone, Copy, PartialEq, Eq, Structural)]
pub struct Menu {
    pub at: Point,
    pub hover: Option<usize>,
}

/// What happens in the menu.
#[derive(Debug, Clone, Copy, PartialEq, Eq, Structural)]
pub enum MenuEvent {
    /// A motion, to over this row if any.
    Motion(Option<usize>),
    Escape,
    /// A press outside the menu's panel.
    Outside,
    /// A press of the left button in the panel, on this row if any.
    Click(Option<usize>),
    /// Anything else: swallowed.
    Other,
}

/// Whether a row can be clicked: it is there, and enabled.
pub open spec fn clickable(rows: Seq<Row>, row: Option<usize>) -> bool {
    row is Some && row->0 < rows.len() && rows[row->0 as int].enabled
}

/// What is done about a click on a row: nothing, where the row does nothing.
pub open spec fn picked(rows: Seq<Row>, row: Option<usize>) -> Option<Meaning> {
    if clickable(rows, row) {
        rows[row->0 as int]@.action
    } else {
        None
    }
}

/// The meaning of a pick that may be missing.
pub open spec fn pick_view(p: Option<MenuPick>) -> Option<Meaning> {
    match p {
        Some(p) => Some(p@),
        None => None,
    }
}

/// The menu after an event.
pub open spec fn menu_after(menu: Option<Menu>, event: MenuEvent, rows: Seq<Row>) -> Option<Menu> {
    match event {
        MenuEvent::Motion(row) => Some(Menu { hover: row, ..menu->0 }),
        MenuEvent::Escape => None,
        MenuEvent::Outside => None,
        MenuEvent::Click(row) => if clickable(rows, row) {
            None
        } else {
            menu
        },
        MenuEvent::Other => menu,
    }
}

fn copy_action(a: &RowAction) -> (r: RowAction)
    ensures
        r@ == a@,
{
    match a {
        RowAction::Do(a) => RowAction::Do(*a),
        RowAction::Copy => RowAction::Copy,
        RowAction::Paste => RowAction::Paste,
        RowAction::OpenUrl(u) => RowAction::OpenUrl(u.clone()),
        RowAction::CopyUrl(u) => RowAction::CopyUrl(u.clone()),
        RowAction::MoveToWindow(i) => RowAction::MoveToWindow(*i),
    }
}

/// What an event does in the menu: a click on an enabled row closes it and hands over what
/// the row does; a click on another row leaves it open; Escape and a press outside
/// dismiss it.
pub fn menu_event(menu: &mut Option<Menu>, event: MenuEvent, rows: &Vec<Row>) -> (r: Option<MenuPick>)
    requires
        *old(menu) is Some,
    ensures
        pick_view(r) == (match event {
            MenuEvent::Click(row) => picked(rows@, row),
            _ => None,
        }),
        *final(menu) == menu_after(*old(menu), event, rows@),
{
    match event {
        MenuEvent::Motion(row) => {
            if let Some(m) = *menu {
                *menu = Some(Menu { at: m.at, hover: row });
            }
            None
        },
        MenuEvent::Escape | MenuEvent::Outside => {
            *menu = None;
            None
        },
        MenuEvent::Click(row) => {
            if let Some(i) = row {
                if i < rows.len() && rows[i].enabled {
                    *menu = None;
                    return match &rows[i].action {
                        Some(a) => Some(copy_action(a).into_pick()),
                        None => None,
                    };
                }
            }
            None
        },
        MenuEvent::Other => None,
    }
}

/// What happens in the search bar.
pub enum SearchKey {
    Escape,
    /// Enter, with or without Shift.
    Enter(bool),
    Backspace,
    /// A key that made this text.
    Text(String),
    /// Anything else: swallowed.
    Other,
}

/// Whether a text can be searched for: it is there, and can be seen.
pub open spec fn printable(s: Seq<char>) -> bool {
    s.len() > 0 && forall|i: int| 0 <= i < s.len() ==> !control(#[trigger] s[i])
}

fn is_printable(s: &str) -> (r: bool)
    ensures
        r == printable(s@),
{
    if s.is_empty() {
        return false;
    }
    let mut fine: bool = true;
    for c in it: s.chars()
        invariant
            it.seq() == s@,
            fine <==> forall|i: int| 0 <= i < it.index() ==> !control(#[trigger] s@[i]),
    {
        if is_control(c) {
            fine = false;
        }
    }
    fine
}

/// What a key in the search bar asks for.
#[derive(Debug, Clone, Copy, PartialEq, Eq, Structural)]
pub enum SearchTurn {
    /// The bar closed.
    Closed,
    /// The query changed: search again.
    Again,
    /// Another hit is the current one: bring its line into view.
    Show(Option<i32>),
    Nothing,
}

/// The query after a key.
pub open spec fn query_after(query: Seq<char>, key: SearchKey) -> Seq<char> {
    match key {
        SearchKey::Backspace => if query.len() > 0 {
            query.drop_last()
        } else {
            query
        },
        SearchKey::Text(t) => if printable(t@) {
            query + t@
        } else {
            query
        },
        _ => query,
    }
}

/// What a key does in the search bar: Escape closes it; Enter goes to the next hit, with
/// Shift to the previous one; anything else edits the query.
pub fn search_key(search: &mut Search, key: SearchKey) -> (r: SearchTurn)
    requires
        old(search).wf(),
    ensures
        final(search).wf(),
        match key {
            SearchKey::Escape => r is Closed && final(search).is_closed(),
            SearchKey::Enter(shift) => {
                let n = old(search).matches@.len() as int;
                &&& final(search).query == old(search).query
                &&& final(search).matches == old(search).matches
                &&& final(search).open == old(search).open
                &&& final(search).pane == old(search).pane
                &&& if n == 0 {
                    r == SearchTurn::Show(None) && final(search).index == old(search).index
                } else {
                    &&& final(search).index == crate::ring::stepped(
                        old(search).index as int,
                        if shift {
                            -1
                        } else {
                            1
                        },
                        n,
                    )
                    &&& r == SearchTurn::Show(
                        Some(old(search).matches@[final(search).index as int].line),
                    )
                }
            },
            _ => {
                let edits = match key {
                    SearchKey::Backspace => true,
                    SearchKey::Text(t) => printable(t@),
                    _ => false,
                };
                &&& final(search).query@ == query_after(old(search).query@, key)
                &&& final(search).matches == old(search).matches
                &&& final(search).index == old(search).index
                &&& final(search).open == old(search).open
                &&& final(search).pane == old(search).pane
                &&& r == (if edits {
                    SearchTurn::Again
                } else {
                    SearchTurn::Nothing
                })
            },
        },
{
    match key {
        SearchKey::Escape => {
            search.close();
            SearchTurn::Closed
        },
        SearchKey::Enter(shift) => {
            let line: Option<i32> = search.step(
                if shift {
                    -1
                } else {
                    1
                },
            );
            SearchTurn::Show(line)
        },
        SearchKey::Backspace => {
            let n: usize = search.query.as_str().unicode_len();
            if n > 0 {
                let kept: String = search.query.as_str().substring_char(0, n - 1).to_string();
                assert(kept@ =~= search.query@.drop_last());
                search.query = kept;
            }
            SearchTurn::Again
        },
        SearchKey::Text(t) => {
            if is_printable(t.as_str()) {
                search.query.append(t.as_str());
                SearchTurn::Again
            } else {
                SearchTurn::Nothing
            }
        },
        SearchKey::Other => SearchTurn::Nothing,
    }
}

/// A key deleted what a key before it had typed: typing one character and deleting it
/// leaves the query as it was.
pub proof fn backspace_undoes_a_character(query: Seq<char>, typed: String)
    requires
        typed@.len() == 1,
        printable(typed@),
    ensures
        query_after(query_after(query, SearchKey::Text(typed)), SearchKey::Backspace) == query,
{
    assert((query + typed@).drop_last() =~= query);
}

} // verus!

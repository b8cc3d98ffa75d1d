//! The pointer over the terminal: wiring, resizing, scrolling, selecting, and passing
//! the pointer on to the program underneath.
//!
//! One gesture owns the pointer at a time, in a fixed order of precedence. Shift always
//! keeps the pointer from the program, so that text can be selected over any.
use vstd::prelude::*;
use crate::geometry::{Area, Point, FAR};
use crate::keymap::Mods;
use crate::mouse::{
    delivers, end_mouse_report, forward_hover, forward_mouse, goes_to_program, place_of, pressed_after,
    releases_at_home, Delivery, MouseReport, Pointer, Under, Wants,
};
use crate::patch_bay::{fresh_wire, PatchBay, Stream, Wire};
use crate::selection::{Run, Selection, Spot};

verus! {

/// How soon a press must follow another to count as part of a double click, in
/// milliseconds.
pub const MULTI_CLICK: u64 = 400;

/// How close to the other it must be, in units: five pixels.
pub const CLICK_SLOP: i64 = 320;

/// The least time between two lines of scrolling while a drag is beyond the edge, in
/// milliseconds.
pub const AUTOSCROLL_TICK: u64 = 35;

/// A cell under the pointer: which, how far its pane is scrolled back, and what its
/// program wants.
#[derive(Debug, Clone, Copy, PartialEq, Eq, Structural)]
pub struct Cell {
    pub pane: u64,
    pub col: usize,
    pub row: usize,
    pub offset: i32,
    pub wants: Wants,
}

impl Cell {
    /// Whether the cell can be one of a buffer.
    pub open spec fn wf(&self) -> bool {
        self.row <= 0x3fff_ffff && 0 <= self.offset <= 0x3fff_ffff
    }

    /// The cell, as a place in the buffer.
    pub open spec fn spot_of(&self) -> Spot {
        Spot { col: self.col, line: (self.row - self.offset) as i32 }
    }

    /// The cell, as a place in the buffer.
    pub fn spot(&self) -> (r: Spot)
        requires
            self.wf(),
        ensures
            r == self.spot_of(),
    {
        Spot { col: self.col, line: self.row as i32 - self.offset }
    }

    /// The cell, as far as the program under it is concerned.
    pub open spec fn under_of(&self) -> Under {
        Under { pane: self.pane, col: self.col, row: self.row, wants: self.wants }
    }

    /// The cell, as far as the program under it is concerned.
    pub fn under(&self) -> (r: Under)
        ensures
            r == self.under_of(),
    {
        Under { pane: self.pane, col: self.col, row: self.row, wants: self.wants }
    }
}

/// What of a cell that may be missing concerns the program under it.
pub open spec fn under_cell(cell: Option<Cell>) -> Option<Under> {
    match cell {
        Some(c) => Some(c.under_of()),
        None => None,
    }
}

fn under(cell: Option<Cell>) -> (r: Option<Under>)
    ensures
        r == under_cell(cell),
{
    match cell {
        Some(c) => Some(c.under()),
        None => None,
    }
}

/// The divider between two panes, as the layout hands it out: which, whether it moves
/// sideways, and where the split begins and how long it is along that axis.
#[derive(Debug, Clone, Copy, PartialEq, Eq, Structural)]
pub struct Divider {
    pub id: u64,
    pub horizontal: bool,
    pub start: i64,
    pub len: i64,
}

impl Divider {
    /// Whether the divider can be one of a window.
    pub open spec fn wf(&self) -> bool {
        -FAR <= self.start <= FAR && 0 < self.len <= FAR
    }
}

/// A scrollbar being dragged: its pane, where the thumb was grabbed, and the grid.
#[derive(Debug, Clone, Copy, PartialEq, Eq, Structural)]
pub struct ScrollDrag {
    pub pane: u64,
    pub grab: i64,
    pub rect: Area,
}

/// A press of the left button: when, in milliseconds, and where.
#[derive(Debug, Clone, Copy, PartialEq, Eq, Structural)]
pub struct Click {
    pub at: u64,
    pub place: Point,
}

/// The shape of the pointer where it is not the ordinary one.
#[derive(Debug, Clone, Copy, PartialEq, Eq, Structural)]
pub enum Icon {
    /// A wire can be pulled from here.
    Grab,
    /// A wire is being pulled.
    Grabbing,
    ColResize,
    RowResize,
}

/// Everything the pointer is in the middle of.
pub struct Desk {
    pub mouse: Point,
    pub mods: Mods,
    pub pointer: Pointer,
    pub bay: PatchBay,
    /// Where a wire that is being pulled ends for now.
    pub drag_cursor: Option<Point>,
    pub scroll_drag: Option<ScrollDrag>,
    pub divider: Option<Divider>,
    pub selection: Option<Selection>,
    /// The left button is held, and its drag selects.
    pub selecting: bool,
    /// The keyboard drives the selection.
    pub composing: bool,
    /// The left button was pressed with Shift held, and has not moved since.
    pub shift_press: bool,
    pub last_click: Option<Click>,
    pub click_count: u8,
    pub icon: Option<Icon>,
    pub last_autoscroll: u64,
    /// The next frame must be painted whole.
    pub force_full: bool,
}

impl Desk {
    /// What holds of every state of the pointer.
    pub open spec fn wf(&self) -> bool {
        &&& self.mouse.wf()
        &&& self.pointer.wf()
        &&& self.bay.wf()
        &&& self.divider is Some ==> self.divider->0.wf()
        &&& self.scroll_drag is Some ==> self.scroll_drag->0.rect.wf() && -FAR
            <= self.scroll_drag->0.grab <= FAR
        &&& self.last_click is Some ==> self.last_click->0.place.wf()
        &&& self.click_count <= 3
    }

    /// Whether a gesture other than a wire owns the pointer, so that its shape must not
    /// change.
    pub open spec fn busy(&self) -> bool {
        self.divider is Some || self.scroll_drag is Some || self.pointer.pressed is Some
            || self.bay.armed is Some || self.selecting
    }
}

/// The shape of the pointer over what it is over: a jack, which a press would grab
/// first, or a divider.
pub open spec fn icon_over(jack: bool, divider: Option<Divider>) -> Option<Icon> {
    if jack {
        Some(Icon::Grab)
    } else {
        match divider {
            Some(d) => Some(
                if d.horizontal {
                    Icon::ColResize
                } else {
                    Icon::RowResize
                },
            ),
            None => None,
        }
    }
}

/// Decide the pointer's shape, and say whether it changed: asking for it anew at every
/// motion would cost a round trip each.
pub fn update_cursor(desk: &mut Desk, jack: bool, divider: Option<Divider>) -> (r: bool)
    ensures
        *final(desk) == (if old(desk).busy() {
            *old(desk)
        } else {
            Desk { icon: icon_over(jack, divider), ..*old(desk) }
        }),
        r == (final(desk).icon != old(desk).icon),
{
    if desk.divider.is_some() || desk.scroll_drag.is_some() || desk.pointer.pressed.is_some()
        || desk.bay.armed.is_some() || desk.selecting {
        return false;
    }
    let want: Option<Icon> = if jack {
        Some(Icon::Grab)
    } else {
        match divider {
            Some(d) => if d.horizontal {
                Some(Icon::ColResize)
            } else {
                Some(Icon::RowResize)
            },
            None => None,
        }
    };
    if want != desk.icon {
        desk.icon = want;
        true
    } else {
        false
    }
}

/// Whether a press now is one more of a double or triple click.
pub open spec fn continues_click(last: Option<Click>, now: int, p: Point) -> bool {
    match last {
        Some(c) => now - c.at < MULTI_CLICK && -CLICK_SLOP < p.x - c.place.x < CLICK_SLOP && -CLICK_SLOP < p.y
            - c.place.y < CLICK_SLOP,
        None => false,
    }
}

fn continues(last: Option<Click>, now: u64, p: Point) -> (r: bool)
    requires
        p.wf(),
        last is Some ==> last->0.place.wf() && last->0.at <= now,
    ensures
        r == continues_click(last, now as int, p),
{
    match last {
        Some(c) => {
            let dx: i64 = p.x - c.place.x;
            let dy: i64 = p.y - c.place.y;
            now - c.at < MULTI_CLICK && -CLICK_SLOP < dx && dx < CLICK_SLOP && -CLICK_SLOP < dy && dy < CLICK_SLOP
        },
        None => false,
    }
}

/// The split's ratio, in billionths, that puts a divider under the pointer: never so
/// far that a pane vanishes.
pub open spec fn split_ratio(d: Divider, p: Point) -> int {
    let axis = if d.horizontal {
        p.x
    } else {
        p.y
    };
    crate::settings::clamped((axis - d.start) * 1_000_000_000 / d.len as int, 50_000_000, 950_000_000)
}

/// What a motion of the pointer came to.
#[derive(Debug, Clone)]
pub enum Motion {
    /// The scrollbar being dragged follows the pointer.
    Scrolling,
    /// The held button's program is told, if the pointer is over a cell of one.
    Dragging(Option<Delivery>),
    /// Shift keeps the motion from the program that has the button.
    Held,
    /// The wire being pulled follows the pointer.
    Wiring,
    /// The divider moves: the split gets this ratio, in billionths. The panes' grids
    /// follow once it holds still.
    Resizing(Divider, u32),
    /// The selection's free end is under the pointer, if it is over the selection's
    /// pane.
    Selecting(bool),
    /// A program that watches all motion has it, and is told if it is a new cell.
    Hovering(Option<Delivery>),
    /// The pane under the pointer gets the focus.
    Focus,
    Nothing,
}

/// What a motion of the pointer does. The pointer's new place is `to`; `cell` is the cell
/// there; `follow` says that the focus follows the pointer, and `cheap` that a frame is
/// cheap enough to paint a wire while it is being pulled.
pub fn pointer_moved(desk: &mut Desk, to: Point, cell: Option<Cell>, follow: bool, cheap: bool) -> (r: Motion)
    requires
        old(desk).wf(),
        to.wf(),
        cell is Some ==> cell->0.wf(),
    ensures
        final(desk).wf(),
        ({
            let before = Desk { mouse: to, ..*old(desk) };
            let shift = before.mods.shift;
            if before.scroll_drag is Some {
                r is Scrolling && *final(desk) == before
            } else if before.pointer.pressed is Some {
                &&& *final(desk) == before
                &&& if shift {
                    r is Held
                } else {
                    let button = before.pointer.pressed->0.button;
                    &&& r is Dragging
                    &&& if goes_to_program(under_cell(cell)) {
                        r->Dragging_0 is Some && delivers(
                            r->Dragging_0->0,
                            MouseReport::Drag(button),
                            cell->0.under_of(),
                            before.mods,
                        )
                    } else {
                        r->Dragging_0 is None
                    }
                }
            } else if before.bay.armed is Some {
                r is Wiring && *final(desk) == (Desk {
                    drag_cursor: Some(to),
                    force_full: before.force_full || cheap,
                    ..before
                })
            } else if before.divider is Some {
                &&& r is Resizing
                &&& r->Resizing_0 == before.divider->0
                &&& r->Resizing_1 == split_ratio(before.divider->0, to)
                &&& *final(desk) == (Desk { force_full: true, ..before })
            } else if before.selecting {
                if cell is Some && before.selection is Some && before.selection->0.pane == cell->0.pane {
                    &&& r == Motion::Selecting(true)
                    &&& *final(desk) == (Desk {
                        selection: Some(
                            Selection { head: cell->0.spot_of(), ..before.selection->0 },
                        ),
                        shift_press: false,
                        force_full: true,
                        ..before
                    })
                } else {
                    r == Motion::Selecting(false) && *final(desk) == before
                }
            } else if !shift && cell is Some && cell->0.wants.motion {
                &&& r is Hovering
                &&& final(desk).pointer.hover == Some(place_of(cell->0.under_of()))
                &&& *final(desk) == (Desk {
                    pointer: Pointer { hover: final(desk).pointer.hover, ..before.pointer },
                    ..before
                })
                &&& if before.pointer.hover == Some(place_of(cell->0.under_of()))
                    || !cell->0.wants.mouse {
                    r->Hovering_0 is None
                } else {
                    r->Hovering_0 is Some && delivers(
                        r->Hovering_0->0,
                        MouseReport::Move,
                        cell->0.under_of(),
                        before.mods,
                    )
                }
            } else {
                &&& r == (if follow {
                    Motion::Focus
                } else {
                    Motion::Nothing
                })
                &&& *final(desk) == (Desk {
                    pointer: if shift {
                        before.pointer
                    } else {
                        Pointer { hover: None, ..before.pointer }
                    },
                    ..before
                })
            }
        }),
{
    desk.mouse = to;
    let shift: bool = desk.mods.shift;
    if desk.scroll_drag.is_some() {
        return Motion::Scrolling;
    }
    if let Some(press) = desk.pointer.pressed {
        if shift {
            return Motion::Held;
        }
        let sent: Option<Delivery> = forward_mouse(
            &mut desk.pointer,
            MouseReport::Drag(press.button),
            under(cell),
            desk.mods,
        );
        return Motion::Dragging(sent);
    }
    if desk.bay.armed.is_some() {
        desk.drag_cursor = Some(to);
        if cheap {
            desk.force_full = true;
        }
        return Motion::Wiring;
    }
    if let Some(d) = desk.divider {
        let axis: i64 = if d.horizontal {
            to.x
        } else {
            to.y
        };
        let along: i64 = axis - d.start;
        let ratio: u32 = if along <= 0 {
            proof {
                assert(along * 1_000_000_000 / d.len as int <= 0) by (nonlinear_arith)
                    requires
                        along <= 0,
                        d.len > 0,
                ;
            }
            50_000_000
        } else {
            let share: i128 = along as i128 * 1_000_000_000 / d.len as i128;
            if share < 50_000_000 {
                50_000_000
            } else if share > 950_000_000 {
                950_000_000
            } else {
                share as u32
            }
        };
        desk.force_full = true;
        return Motion::Resizing(d, ratio);
    }
    if desk.selecting {
        if let Some(c) = cell {
            if let Some(sel) = desk.selection {
                if sel.pane == c.pane {
                    desk.selection = Some(
                        Selection { pane: sel.pane, anchor: sel.anchor, head: c.spot(), block: sel.block },
                    );
                    desk.shift_press = false;
                    desk.force_full = true;
                    return Motion::Selecting(true);
                }
            }
        }
        return Motion::Selecting(false);
    }
    if !shift {
        let (owned, sent): (bool, Option<Delivery>) = forward_hover(
            &mut desk.pointer,
            under(cell),
            desk.mods,
        );
        if owned {
            return Motion::Hovering(sent);
        }
    }
    if follow {
        Motion::Focus
    } else {
        Motion::Nothing
    }
}

/// What a press of the right button came to.
#[derive(Debug, Clone)]
pub enum RightPress {
    /// A wire that was being pulled is dropped.
    Dropped,
    /// The wires that left the jack under the pointer are taken out.
    Unplugged,
    /// The program under the pointer gets it, and its pane the focus.
    Deliver(Delivery),
    /// The pane under the pointer gets the focus, and its menu opens there.
    Menu,
}

/// The wires without those that leave a jack.
pub open spec fn unplugged(wires: Seq<Wire>, pane: u64, stream: Stream) -> Seq<Wire> {
    wires.filter(|w: Wire| !(w.src == pane && w.stream == stream))
}

fn unplug(bay: &mut PatchBay, pane: u64, stream: Stream)
    requires
        old(bay).wf(),
    ensures
        final(bay).wf(),
        final(bay).armed == old(bay).armed,
        final(bay).jacked == old(bay).jacked,
        final(bay).wires@ == unplugged(old(bay).wires@, pane, stream),
{
    let ghost keep = |w: Wire| !(w.src == pane && w.stream == stream);
    let ghost before = bay.wires@;
    let mut kept: Vec<Wire> = Vec::new();
    let mut i: usize = 0;
    proof {
        reveal(Seq::filter);
        assert(before.take(0) =~= Seq::empty());
    }
    while i < bay.wires.len()
        invariant
            i <= bay.wires@.len(),
            bay.wires@ == before,
            bay.armed == old(bay).armed,
            bay.jacked == old(bay).jacked,
            keep == (|w: Wire| !(w.src == pane && w.stream == stream)),
            kept@ == before.take(i as int).filter(keep),
            forall|k: int| 0 <= k < before.len() ==> (#[trigger] before[k]).src != before[k].dst,
            forall|k: int| 0 <= k < kept@.len() ==> (#[trigger] kept@[k]).src != kept@[k].dst,
        decreases bay.wires@.len() - i,
    {
        let w: Wire = bay.wires[i];
        proof {
            reveal(Seq::filter);
            assert(before.take(i + 1).drop_last() =~= before.take(i as int));
            assert(before.take(i + 1).last() == w);
        }
        if !(w.src == pane && w.stream == stream) {
            kept.push(w);
        }
        i = i + 1;
    }
    assert(before.take(i as int) =~= before);
    bay.wires = kept;
}

/// What a press of the right button does: it drops a wire being pulled, or takes out
/// those of the jack under the pointer, or goes to the program there; otherwise the menu
/// opens. Whether the pointer's shape must be decided anew is the first's business.
pub fn right_press(desk: &mut Desk, jack: Option<(u64, Stream)>, cell: Option<Cell>) -> (r: RightPress)
    requires
        old(desk).wf(),
    ensures
        final(desk).wf(),
        if old(desk).bay.armed is Some {
            &&& r is Dropped
            &&& *final(desk) == (Desk {
                bay: PatchBay { armed: None, ..old(desk).bay },
                drag_cursor: None,
                force_full: true,
                ..*old(desk)
            })
        } else if jack is Some {
            let (pane, stream) = jack->0;
            &&& r is Unplugged
            &&& final(desk).bay.wires@ == unplugged(old(desk).bay.wires@, pane, stream)
            &&& final(desk).bay.armed is None
            &&& final(desk).bay.jacked == old(desk).bay.jacked
            &&& *final(desk) == (Desk { bay: final(desk).bay, force_full: true, ..*old(desk) })
        } else if !old(desk).mods.shift && goes_to_program(under_cell(cell)) {
            &&& r is Deliver
            &&& delivers(
                r->Deliver_0,
                MouseReport::Press(2),
                cell->0.under_of(),
                old(desk).mods,
            )
            &&& *final(desk) == (Desk {
                pointer: Pointer {
                    pressed: pressed_after(
                        old(desk).pointer.pressed,
                        MouseReport::Press(2),
                        cell->0.under_of(),
                    ),
                    ..old(desk).pointer
                },
                ..*old(desk)
            })
        } else {
            r is Menu && *final(desk) == *old(desk)
        },
        old(desk).mods.shift ==> !(r is Deliver),
{
    if desk.bay.armed.is_some() {
        desk.bay.armed = None;
        desk.drag_cursor = None;
        desk.force_full = true;
        return RightPress::Dropped;
    }
    if let Some((pane, stream)) = jack {
        unplug(&mut desk.bay, pane, stream);
        desk.force_full = true;
        return RightPress::Unplugged;
    }
    if !desk.mods.shift {
        if let Some(d) = forward_mouse(&mut desk.pointer, MouseReport::Press(2), under(cell), desk.mods) {
            return RightPress::Deliver(d);
        }
    }
    RightPress::Menu
}

/// What a press of the middle button came to.
#[derive(Debug, Clone)]
pub enum MiddlePress {
    /// The program under the pointer gets it.
    Deliver(Delivery),
    /// What was last selected is pasted.
    Paste,
}

/// What a press of the middle button does: it goes to the program under the pointer, or
/// pastes what was last selected.
pub fn middle_press(desk: &mut Desk, cell: Option<Cell>) -> (r: MiddlePress)
    requires
        old(desk).wf(),
    ensures
        final(desk).wf(),
        if !old(desk).mods.shift && goes_to_program(under_cell(cell)) {
            &&& r is Deliver
            &&& delivers(
                r->Deliver_0,
                MouseReport::Press(1),
                cell->0.under_of(),
                old(desk).mods,
            )
            &&& *final(desk) == (Desk {
                pointer: Pointer {
                    pressed: pressed_after(
                        old(desk).pointer.pressed,
                        MouseReport::Press(1),
                        cell->0.under_of(),
                    ),
                    ..old(desk).pointer
                },
                ..*old(desk)
            })
        } else {
            r is Paste && *final(desk) == *old(desk)
        },
        old(desk).mods.shift ==> !(r is Deliver),
{
    if !desk.mods.shift {
        if let Some(d) = forward_mouse(&mut desk.pointer, MouseReport::Press(1), under(cell), desk.mods) {
            return MiddlePress::Deliver(d);
        }
    }
    MiddlePress::Paste
}

/// What a press of the left button finds under the pointer.
pub struct Found {
    pub jack: Option<(u64, Stream)>,
    pub divider: Option<Divider>,
    /// The scrollbar: its pane and grid, and where its thumb is.
    pub bar: Option<BarFound>,
    /// The tab, by its first pane.
    pub tab: Option<u64>,
    pub cell: Option<Cell>,
    /// Whether an address is there.
    pub link: bool,
    /// The word there, for a double click.
    pub word: Option<Run>,
    /// The first row, the last row and the last column of the line there, for a triple
    /// click.
    pub line: LineFound,
}

/// A scrollbar under the pointer.
#[derive(Debug, Clone, Copy, PartialEq, Eq, Structural)]
pub struct BarFound {
    pub pane: u64,
    pub rect: Area,
    pub thumb_y: i64,
    pub thumb_h: i64,
}

/// A line under the pointer.
#[derive(Debug, Clone, Copy, PartialEq, Eq, Structural)]
pub struct LineFound {
    pub first_row: usize,
    pub last_row: usize,
    pub last_col: usize,
}

impl Found {
    /// Whether everything found can be in a window.
    pub open spec fn wf(&self) -> bool {
        &&& self.cell is Some ==> self.cell->0.wf()
        &&& self.divider is Some ==> self.divider->0.wf()
        &&& self.bar is Some ==> {
            &&& self.bar->0.rect.wf()
            &&& -FAR <= self.bar->0.thumb_y <= FAR
            &&& 0 <= self.bar->0.thumb_h <= FAR
        }
        &&& self.word is Some ==> self.word->0.start_row <= 0x3fff_ffff && self.word->0.end_row
            <= 0x3fff_ffff
        &&& self.line.first_row <= 0x3fff_ffff
        &&& self.line.last_row <= 0x3fff_ffff
    }
}

/// Where a scrollbar is grabbed: on the thumb, the pointer keeps its place in it; on the
/// track, the thumb's middle comes under the pointer.
pub open spec fn grab_of(bar: BarFound, y: int) -> int {
    if bar.thumb_y <= y <= bar.thumb_y + bar.thumb_h {
        y - bar.thumb_y
    } else {
        bar.thumb_h / 2
    }
}

/// What a press of the left button came to.
#[derive(Debug, Clone)]
pub enum LeftPress {
    /// The selection that the keyboard drove is finished, and copied.
    Finished,
    /// The selection that the keyboard drove is given up.
    GivenUp,
    /// A wire is pulled out of the jack.
    Wiring,
    /// The divider is grabbed.
    Resizing,
    /// The scrollbar is grabbed, and the pane gets the focus.
    Scrolling,
    /// The tab is shown.
    Tab(u64),
    /// The pane gets the focus, and the address is opened.
    Link,
    /// The pane gets the focus, and its program the press.
    Deliver(Delivery),
    /// The pane gets the focus, and a drag begins to select.
    Select,
    /// The pane gets the focus, and a word or a line is selected and can be pasted.
    Selected,
    /// The pane gets the focus.
    Focus,
}

/// How many presses a press now is the last of: one, two or three.
pub open spec fn clicks_now(desk: Desk, now: int) -> u8 {
    if continues_click(desk.last_click, now, desk.mouse) {
        (desk.click_count % 3 + 1) as u8
    } else {
        1
    }
}

/// The selection that a word is.
pub open spec fn word_selection(c: Cell, w: Run) -> Selection {
    Selection {
        pane: c.pane,
        anchor: Spot { col: w.start_col, line: (w.start_row - c.offset) as i32 },
        head: Spot { col: w.end_col, line: (w.end_row - c.offset) as i32 },
        block: false,
    }
}

/// The selection that a line is.
pub open spec fn line_selection(c: Cell, l: LineFound) -> Selection {
    Selection {
        pane: c.pane,
        anchor: Spot { col: 0, line: (l.first_row - c.offset) as i32 },
        head: Spot { col: l.last_col, line: (l.last_row - c.offset) as i32 },
        block: false,
    }
}

/// The state after a click on the text that no program takes: one begins to select, the
/// second selects the word, the third the line.
pub open spec fn after_click(desk: Desk, found: Found, now: u64) -> Desk {
    let count = clicks_now(desk, now as int);
    let counted = Desk {
        last_click: Some(Click { at: now, place: desk.mouse }),
        click_count: count,
        ..desk
    };
    match found.cell {
        None => counted,
        Some(c) => if count == 2 {
            Desk {
                selection: match found.word {
                    Some(w) => Some(word_selection(c, w)),
                    None => desk.selection,
                },
                selecting: false,
                force_full: true,
                ..counted
            }
        } else if count == 3 {
            Desk {
                selection: Some(line_selection(c, found.line)),
                selecting: false,
                force_full: true,
                ..counted
            }
        } else {
            Desk {
                selection: Some(
                    Selection {
                        pane: c.pane,
                        anchor: c.spot_of(),
                        head: c.spot_of(),
                        block: desk.mods.control,
                    },
                ),
                selecting: true,
                shift_press: desk.mods.shift,
                force_full: true,
                ..counted
            }
        },
    }
}

/// What such a click came to.
pub open spec fn click_outcome(desk: Desk, found: Found, now: u64) -> LeftPress {
    let count = clicks_now(desk, now as int);
    if found.cell is None {
        LeftPress::Focus
    } else if count == 1 {
        LeftPress::Select
    } else {
        LeftPress::Selected
    }
}

fn click(desk: &mut Desk, found: &Found, now: u64) -> (r: LeftPress)
    requires
        old(desk).wf(),
        found.wf(),
        old(desk).last_click is Some ==> old(desk).last_click->0.at <= now,
    ensures
        final(desk).wf(),
        *final(desk) == after_click(*old(desk), *found, now),
        r == click_outcome(*old(desk), *found, now),
{
    let count: u8 = if continues(desk.last_click, now, desk.mouse) {
        desk.click_count % 3 + 1
    } else {
        1
    };
    desk.last_click = Some(Click { at: now, place: desk.mouse });
    desk.click_count = count;
    let c: Cell = match found.cell {
        Some(c) => c,
        None => return LeftPress::Focus,
    };
    if count == 2 {
        if let Some(w) = found.word {
            desk.selection = Some(
                Selection {
                    pane: c.pane,
                    anchor: Spot { col: w.start_col, line: w.start_row as i32 - c.offset },
                    head: Spot { col: w.end_col, line: w.end_row as i32 - c.offset },
                    block: false,
                },
            );
        }
        desk.selecting = false;
        desk.force_full = true;
        LeftPress::Selected
    } else if count == 3 {
        let l: LineFound = found.line;
        desk.selection = Some(
            Selection {
                pane: c.pane,
                anchor: Spot { col: 0, line: l.first_row as i32 - c.offset },
                head: Spot { col: l.last_col, line: l.last_row as i32 - c.offset },
                block: false,
            },
        );
        desk.selecting = false;
        desk.force_full = true;
        LeftPress::Selected
    } else {
        let at: Spot = c.spot();
        desk.selection = Some(
            Selection { pane: c.pane, anchor: at, head: at, block: desk.mods.control },
        );
        desk.selecting = true;
        desk.shift_press = desk.mods.shift;
        desk.force_full = true;
        LeftPress::Select
    }
}

/// Give up the selection that the keyboard drives; nothing is copied.
pub fn compose_cancel(desk: &mut Desk)
    ensures
        *final(desk) == (Desk {
            composing: false,
            shift_press: false,
            selection: None,
            force_full: true,
            ..*old(desk)
        }),
{
    desk.composing = false;
    desk.shift_press = false;
    desk.selection = None;
    desk.force_full = true;
}

/// Finish the selection that the keyboard drives: it stays highlighted, and is to be
/// copied.
pub fn compose_commit(desk: &mut Desk)
    ensures
        *final(desk) == (Desk {
            composing: false,
            shift_press: false,
            force_full: true,
            ..*old(desk)
        }),
{
    desk.composing = false;
    desk.shift_press = false;
    desk.force_full = true;
}

/// Whether a click with Shift held lies in the pane of the selection.
pub open spec fn in_selection_pane(desk: Desk, found: Found) -> bool {
    found.cell is Some && desk.selection is Some && found.cell->0.pane == desk.selection->0.pane
}

/// The state in which a press that does not concern the selection that the keyboard
/// drives is looked at: without one.
pub open spec fn out_of_compose(desk: Desk) -> Desk {
    if desk.composing {
        Desk { composing: false, shift_press: false, ..desk }
    } else {
        desk
    }
}

/// What a press of the left button does.
///
/// While the keyboard drives a selection it finishes or ends it, unless it is the second
/// of a double click. Otherwise it grabs the first of these that is under the pointer: a
/// jack, a divider, a scrollbar, a tab; an address, with Control held; the program that
/// wants it, unless Shift is held. What is left is a click on the text.
pub fn left_press(desk: &mut Desk, found: &Found, now: u64) -> (r: LeftPress)
    requires
        old(desk).wf(),
        found.wf(),
        old(desk).last_click is Some ==> old(desk).last_click->0.at <= now,
    ensures
        final(desk).wf(),
        ({
            let start = *old(desk);
            let d = out_of_compose(start);
            let again = continues_click(start.last_click, now as int, start.mouse);
            if start.composing && !again {
                if start.mods.shift && in_selection_pane(start, *found) {
                    &&& r is Finished
                    &&& *final(desk) == (Desk {
                        selection: Some(
                            Selection { head: found.cell->0.spot_of(), ..start.selection->0 },
                        ),
                        composing: false,
                        shift_press: false,
                        force_full: true,
                        ..start
                    })
                } else {
                    &&& r is GivenUp
                    &&& *final(desk) == (Desk {
                        selection: None,
                        composing: false,
                        shift_press: false,
                        force_full: true,
                        ..start
                    })
                }
            } else if found.jack is Some {
                &&& r is Wiring
                &&& *final(desk) == (Desk {
                    bay: PatchBay { armed: found.jack, ..d.bay },
                    drag_cursor: Some(d.mouse),
                    icon: Some(Icon::Grabbing),
                    ..d
                })
            } else if found.divider is Some {
                r is Resizing && *final(desk) == (Desk { divider: found.divider, ..d })
            } else if found.bar is Some {
                &&& r is Scrolling
                &&& *final(desk) == (Desk {
                    scroll_drag: Some(
                        ScrollDrag {
                            pane: found.bar->0.pane,
                            grab: grab_of(found.bar->0, d.mouse.y as int) as i64,
                            rect: found.bar->0.rect,
                        },
                    ),
                    ..d
                })
            } else if found.tab is Some {
                r == LeftPress::Tab(found.tab->0) && *final(desk) == (Desk { force_full: true, ..d })
            } else if d.mods.control && found.cell is Some && found.link {
                r is Link && *final(desk) == d
            } else if !d.mods.shift && goes_to_program(under_cell(found.cell)) {
                &&& r is Deliver
                &&& delivers(r->Deliver_0, MouseReport::Press(0), found.cell->0.under_of(), d.mods)
                &&& *final(desk) == (Desk {
                    pointer: Pointer {
                        pressed: pressed_after(
                            d.pointer.pressed,
                            MouseReport::Press(0),
                            found.cell->0.under_of(),
                        ),
                        ..d.pointer
                    },
                    ..d
                })
            } else {
                &&& r == click_outcome(d, *found, now)
                &&& *final(desk) == after_click(d, *found, now)
            }
        }),
        old(desk).mods.shift ==> !(r is Deliver),
{
    if desk.composing {
        if continues(desk.last_click, now, desk.mouse) {
            desk.composing = false;
            desk.shift_press = false;
        } else {
            if desk.mods.shift {
                if let Some(c) = found.cell {
                    if let Some(sel) = desk.selection {
                        if c.pane == sel.pane {
                            desk.selection = Some(
                                Selection {
                                    pane: sel.pane,
                                    anchor: sel.anchor,
                                    head: c.spot(),
                                    block: sel.block,
                                },
                            );
                            compose_commit(desk);
                            return LeftPress::Finished;
                        }
                    }
                }
            }
            compose_cancel(desk);
            return LeftPress::GivenUp;
        }
    }
    if found.jack.is_some() {
        desk.bay.armed = found.jack;
        desk.drag_cursor = Some(desk.mouse);
        desk.icon = Some(Icon::Grabbing);
        return LeftPress::Wiring;
    }
    if found.divider.is_some() {
        desk.divider = found.divider;
        return LeftPress::Resizing;
    }
    if let Some(bar) = found.bar {
        let y: i64 = desk.mouse.y;
        let grab: i64 = if bar.thumb_y <= y && y <= bar.thumb_y + bar.thumb_h {
            y - bar.thumb_y
        } else {
            bar.thumb_h / 2
        };
        desk.scroll_drag = Some(ScrollDrag { pane: bar.pane, grab, rect: bar.rect });
        return LeftPress::Scrolling;
    }
    if let Some(first) = found.tab {
        desk.force_full = true;
        return LeftPress::Tab(first);
    }
    if desk.mods.control && found.cell.is_some() && found.link {
        return LeftPress::Link;
    }
    if !desk.mods.shift {
        if let Some(d) = forward_mouse(
            &mut desk.pointer,
            MouseReport::Press(0),
            under(found.cell),
            desk.mods,
        ) {
            return LeftPress::Deliver(d);
        }
    }
    click(desk, found, now)
}

/// What the release of the left button came to.
#[derive(Debug, Clone)]
pub enum LeftRelease {
    /// The program that got the press gets the release, if it still wants it.
    Deliver(Option<Delivery>),
    /// A wire is let go: over a pane it is joined to it, where it can be.
    Wired,
    /// The other gestures end. What was selected can be pasted, if anything was.
    Ended { copy: bool },
}

/// The state after the gestures other than a wire end. A drag that did not move was a
/// click: it selects nothing, or, with Shift held, begins a selection that the keyboard
/// drives.
pub open spec fn after_release(d: Desk) -> Desk {
    let ended = Desk {
        divider: None,
        scroll_drag: None,
        selecting: false,
        shift_press: false,
        force_full: d.force_full || d.scroll_drag is Some || d.selection is Some,
        ..d
    };
    match d.selection {
        None => ended,
        Some(sel) => if sel.anchor == sel.head {
            if d.shift_press {
                Desk { composing: true, ..ended }
            } else {
                Desk { selection: None, ..ended }
            }
        } else {
            ended
        },
    }
}

/// What the release of the left button does: it goes with its press to a program, or
/// joins the wire being pulled to the pane under the pointer, or ends what else was
/// going on. `origin` is what the program that got the press wants.
pub fn left_release(desk: &mut Desk, cell: Option<Cell>, origin: Option<Wants>, pane: Option<u64>) -> (r: LeftRelease)
    requires
        old(desk).wf(),
    ensures
        final(desk).wf(),
        if old(desk).pointer.pressed is Some {
            let press = old(desk).pointer.pressed->0;
            &&& r is Deliver
            &&& *final(desk) == (Desk {
                pointer: Pointer { pressed: None, ..old(desk).pointer },
                ..*old(desk)
            })
            &&& if goes_to_program(under_cell(cell)) {
                r->Deliver_0 is Some && delivers(
                    r->Deliver_0->0,
                    MouseReport::Release(press.button),
                    cell->0.under_of(),
                    old(desk).mods,
                )
            } else if origin is Some && origin->0.mouse {
                r->Deliver_0 is Some && releases_at_home(
                    r->Deliver_0->0,
                    press.pane,
                    press.button,
                    old(desk).mods,
                    origin->0.sgr,
                )
            } else {
                r->Deliver_0 is None
            }
        } else if old(desk).bay.armed is Some {
            let (src, stream) = old(desk).bay.armed->0;
            &&& r is Wired
            &&& *final(desk) == (Desk {
                bay: final(desk).bay,
                drag_cursor: None,
                force_full: true,
                ..*old(desk)
            })
            &&& final(desk).bay.armed is None
            &&& final(desk).bay.jacked == old(desk).bay.jacked
            &&& final(desk).bay.wires@ == (if pane is Some && old(desk).bay.joinable(src, pane->0) {
                old(desk).bay.wires@.push(fresh_wire(src, stream, pane->0))
            } else {
                old(desk).bay.wires@
            })
        } else {
            &&& *final(desk) == after_release(*old(desk))
            &&& r == (LeftRelease::Ended {
                copy: old(desk).selection is Some && old(desk).selection->0.anchor
                    != old(desk).selection->0.head,
            })
        },
        r is Ended ==> !final(desk).busy(),
{
    let (had, sent): (bool, Option<Delivery>) = end_mouse_report(
        &mut desk.pointer,
        under(cell),
        origin,
        desk.mods,
    );
    if had {
        return LeftRelease::Deliver(sent);
    }
    if let Some((src, stream)) = desk.bay.armed {
        desk.bay.armed = None;
        if let Some(dst) = pane {
            desk.bay.connect_wire(src, stream, dst);
        }
        desk.drag_cursor = None;
        desk.force_full = true;
        return LeftRelease::Wired;
    }
    desk.divider = None;
    if desk.scroll_drag.is_some() {
        desk.scroll_drag = None;
        desk.force_full = true;
    }
    desk.selecting = false;
    let mut copy: bool = false;
    if let Some(sel) = desk.selection {
        if sel.anchor == sel.head {
            if desk.shift_press {
                desk.composing = true;
            } else {
                desk.selection = None;
            }
        } else {
            copy = true;
        }
        desk.force_full = true;
    }
    desk.shift_press = false;
    LeftRelease::Ended { copy }
}

/// What a turn of the wheel came to.
#[derive(Debug, Clone)]
pub enum Wheel {
    /// The program under the pointer gets this, so many times over.
    Deliver(Delivery, usize),
    /// The focused pane scrolls by so many lines, towards older ones if positive.
    Scroll(i32),
    Nothing,
}

/// The most notches that are passed on at a time.
pub const MAX_NOTCHES: usize = 8;

/// How many notches a turn of so many lines passes on.
pub open spec fn notches(lines: int) -> int {
    let n = if lines < 0 {
        -lines
    } else {
        lines
    };
    if n < MAX_NOTCHES {
        n
    } else {
        MAX_NOTCHES as int
    }
}

/// What a turn of the wheel does, by so many lines, up if positive: it goes to the program
/// under the pointer, if that wants the mouse and Shift is not held, or scrolls.
pub fn wheel_turned(desk: &mut Desk, lines: i32, cell: Option<Cell>) -> (r: Wheel)
    requires
        old(desk).wf(),
    ensures
        final(desk).wf(),
        if lines == 0 {
            r is Nothing && *final(desk) == *old(desk)
        } else if !old(desk).mods.shift && goes_to_program(under_cell(cell)) {
            &&& r is Deliver
            &&& delivers(
                r->Deliver_0,
                MouseReport::Scroll(lines > 0),
                cell->0.under_of(),
                old(desk).mods,
            )
            &&& r->Deliver_1 == notches(lines as int)
            &&& *final(desk) == *old(desk)
        } else {
            r == Wheel::Scroll(lines) && *final(desk) == (Desk { force_full: true, ..*old(desk) })
        },
{
    if lines == 0 {
        return Wheel::Nothing;
    }
    if !desk.mods.shift {
        if let Some(d) = forward_mouse(
            &mut desk.pointer,
            MouseReport::Scroll(lines > 0),
            under(cell),
            desk.mods,
        ) {
            let n: i64 = if lines < 0 {
                -(lines as i64)
            } else {
                lines as i64
            };
            let times: usize = if n < 8 {
                n as usize
            } else {
                MAX_NOTCHES
            };
            return Wheel::Deliver(d, times);
        }
    }
    desk.force_full = true;
    Wheel::Scroll(lines)
}

/// What holding a drag beyond the edge of its pane asks for.
#[derive(Debug, Clone, Copy, PartialEq, Eq, Structural)]
pub enum Autoscroll {
    /// The pointer is not beyond an edge.
    Idle,
    /// It is, but it is not time yet for another line.
    Wait,
    /// Scroll by one line: to an older one, or back.
    Line { older: bool },
}

/// What holding a drag beyond the edge of its pane asks for. `content` is the grid of the
/// selection's pane, if it is on the screen.
pub fn autoscroll(desk: &mut Desk, content: Option<Area>, now: u64) -> (r: Autoscroll)
    requires
        old(desk).wf(),
        content is Some ==> content->0.wf(),
        old(desk).last_autoscroll <= now,
    ensures
        final(desk).wf(),
        ({
            let above = old(desk).mouse.y < content->0.y;
            let below = old(desk).mouse.y >= content->0.y + content->0.h;
            if !old(desk).selecting || old(desk).selection is None || content is None || !(above || below) {
                r is Idle && *final(desk) == *old(desk)
            } else if now - old(desk).last_autoscroll < AUTOSCROLL_TICK {
                r is Wait && *final(desk) == *old(desk)
            } else {
                r == (Autoscroll::Line { older: above }) && *final(desk) == (Desk {
                    last_autoscroll: now,
                    ..*old(desk)
                })
            }
        }),
{
    if !desk.selecting || desk.selection.is_none() {
        return Autoscroll::Idle;
    }
    let rect: Area = match content {
        Some(rect) => rect,
        None => return Autoscroll::Idle,
    };
    let above: bool = desk.mouse.y < rect.y;
    if !above && desk.mouse.y < rect.y + rect.h {
        return Autoscroll::Idle;
    }
    if now - desk.last_autoscroll < AUTOSCROLL_TICK {
        return Autoscroll::Wait;
    }
    desk.last_autoscroll = now;
    Autoscroll::Line { older: above }
}

/// Where the free end of a selection goes when its pane has scrolled under a drag: to the
/// column under the pointer, in the row at the edge.
pub open spec fn edge_spot(mouse: Point, content: Area, cell_w: int, older: bool, offset: int, screen: int) -> Spot {
    Spot {
        col: (if mouse.x > content.x {
            (mouse.x - content.x) / cell_w
        } else {
            0
        }) as usize,
        line: ((if older || screen == 0 {
            0
        } else {
            screen - 1
        }) - offset) as i32,
    }
}

/// Extend the selection to the edge that its pane has just scrolled over; `offset` and
/// `screen` are the pane's after that.
pub fn extend_to_edge(desk: &mut Desk, content: Area, cell_w: i64, older: bool, offset: usize, screen: usize)
    requires
        old(desk).wf(),
        content.wf(),
        cell_w > 0,
        offset <= 0x3fff_ffff,
        screen <= 0x3fff_ffff,
    ensures
        final(desk).wf(),
        *final(desk) == (Desk {
            selection: match old(desk).selection {
                Some(sel) => Some(
                    Selection {
                        head: edge_spot(
                            old(desk).mouse,
                            content,
                            cell_w as int,
                            older,
                            offset as int,
                            screen as int,
                        ),
                        ..sel
                    },
                ),
                None => None,
            },
            force_full: true,
            ..*old(desk)
        }),
{
    let right: i64 = if desk.mouse.x > content.x {
        desk.mouse.x - content.x
    } else {
        0
    };
    proof {
        vstd::arithmetic::div_mod::lemma_div_is_ordered_by_denominator(right as int, 1, cell_w as int);
        vstd::arithmetic::div_mod::lemma_div_pos_is_pos(right as int, cell_w as int);
        assert(right as int / 1 == right);
        vstd::arithmetic::div_mod::lemma_div_basics_1(cell_w as int);
    }
    let row: i32 = if older || screen == 0 {
        0
    } else {
        screen as i32 - 1
    };
    let head: Spot = Spot { col: (right / cell_w) as usize, line: row - offset as i32 };
    if let Some(sel) = desk.selection {
        desk.selection = Some(
            Selection { pane: sel.pane, anchor: sel.anchor, head, block: sel.block },
        );
    }
    desk.force_full = true;
}

} // verus!

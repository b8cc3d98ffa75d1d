//! What the pointer is for: one gesture at a time, each doing to what it grabbed what the
//! pointer did.
use vstd::prelude::*;
use crate::geometry::{Area, Point};
use crate::gestures::{
    autoscroll, compose_cancel, compose_commit, extend_to_edge, left_press, left_release, middle_press,
    pointer_moved, right_press, update_cursor, wheel_turned, Autoscroll, BarFound, Cell, Click, Desk, Divider,
    Found, Icon, LeftPress, LeftRelease, MiddlePress, Motion, RightPress, Wheel,
};
use crate::keymap::Mods;
use crate::mouse::{encode_mouse, Delivery, MouseReport, Wants};
use crate::patch_bay::{Stream, Wire};
use crate::selection::{Selection, Spot};

verus! {

/// Whether a cell of the screen shows a place in the buffer: a row shows the line that is
/// as far above it as the pane is scrolled back.
pub open spec fn shows(c: Cell, s: Spot) -> bool {
    s.col == c.col && s.line + c.offset == c.row
}

/// Whether a delivery is the report of an action over a cell: it goes to the cell's pane,
/// and says what encoding that action there says, columns and rows counted from one.
pub open spec fn reports(d: Delivery, action: MouseReport, c: Cell, mods: Mods) -> bool {
    &&& d.pane == c.pane
    &&& c.col < 65_535 && c.row < 65_535 ==> forall|v: Vec<u8>| #[trigger]
        call_ensures(
            encode_mouse,
            (action, (c.col + 1) as u16, (c.row + 1) as u16, mods, c.wants.sgr),
            Some(v),
        ) ==> d.bytes@ == v@
}

/// Whether the program under the pointer takes a press: it asked for the mouse, and Shift
/// does not keep it from it.
pub open spec fn program_takes(cell: Option<Cell>, mods: Mods) -> bool {
    cell is Some && cell->0.wants.mouse && !mods.shift
}

/// A cell and its place in the buffer tell of each other.
pub proof fn a_cell_shows_its_line(c: &Cell, s: Spot)
    requires
        c.wf(),
        call_ensures(Cell::spot, (c,), s),
    ensures
        shows(*c, s),
{
}

/// Over a jack a wire can be grabbed; a divider that moves sideways and one that moves up
/// and down have a shape each; elsewhere the pointer is ordinary. While it is in the middle
/// of something its shape does not change.
pub proof fn the_pointer_shows_what_it_would_grab(desk: &mut Desk, jack: bool, divider: Option<Divider>, r: bool)
    requires
        call_ensures(update_cursor, (desk, jack, divider), r),
    ensures
        ({
            let d = *old(desk);
            let busy = d.divider is Some || d.scroll_drag is Some || d.pointer.pressed is Some || d.bay.armed is Some
                || d.selecting;
            &&& busy ==> *final(desk) == d && !r
            &&& !busy ==> {
                &&& final(desk).icon == Some(Icon::Grab) <==> jack
                &&& final(desk).icon == Some(Icon::ColResize) <==> !jack && divider is Some && divider->0.horizontal
                &&& final(desk).icon == Some(Icon::RowResize) <==> !jack && divider is Some
                    && !divider->0.horizontal
                &&& final(desk).icon is None <==> !jack && divider is None
            }
            &&& r <==> final(desk).icon != d.icon
            &&& *final(desk) == (Desk { icon: final(desk).icon, ..d })
        }),
{
}

/// A divider being dragged follows the pointer along its own axis: the part of the split
/// that lies before it is the part that lies before the pointer, in billionths, but never
/// less than a twentieth nor more than nineteen.
pub proof fn a_divider_follows_the_pointer(
    desk: &mut Desk,
    to: Point,
    cell: Option<Cell>,
    follow: bool,
    cheap: bool,
    r: Motion,
    d: Divider,
)
    requires
        call_ensures(pointer_moved, (desk, to, cell, follow, cheap), r),
        old(desk).scroll_drag is None,
        old(desk).pointer.pressed is None,
        old(desk).bay.armed is None,
        old(desk).divider == Some(d),
        d.len > 0,
    ensures
        r is Resizing,
        r->Resizing_0 == d,
        ({
            let ratio = r->Resizing_1;
            let across = to.x - d.start;
            let down = to.y - d.start;
            &&& 50_000_000 <= ratio <= 950_000_000
            &&& d.horizontal && ratio > 50_000_000 ==> ratio * d.len <= across * 1_000_000_000
            &&& d.horizontal && ratio < 950_000_000 ==> across * 1_000_000_000 < (ratio + 1) * d.len
            &&& !d.horizontal && ratio > 50_000_000 ==> ratio * d.len <= down * 1_000_000_000
            &&& !d.horizontal && ratio < 950_000_000 ==> down * 1_000_000_000 < (ratio + 1) * d.len
        }),
        *final(desk) == (Desk { mouse: to, force_full: true, ..*old(desk) }),
{
    let ratio = r->Resizing_1 as int;
    let along = if d.horizontal { to.x - d.start } else { to.y - d.start };
    let n = along * 1_000_000_000;
    let len = d.len as int;
    vstd::arithmetic::div_mod::lemma_fundamental_div_mod(n, len);
    vstd::arithmetic::div_mod::lemma_mod_bound(n, len);
    let q = n / len;
    assert(q * len <= n < (q + 1) * len) by (nonlinear_arith)
        requires
            n == len * q + n % len,
            0 <= n % len < len,
    ;
    if ratio > 50_000_000 {
        assert(ratio * len <= n) by (nonlinear_arith)
            requires
                ratio <= q,
                len > 0,
                q * len <= n,
        ;
    }
    if ratio < 950_000_000 {
        assert(n < (ratio + 1) * len) by (nonlinear_arith)
            requires
                q <= ratio,
                len > 0,
                n < (q + 1) * len,
        ;
    }
}

/// The pointer across the axis of a divider does not move it.
pub proof fn a_divider_does_not_care_for_the_other_axis(
    first: &mut Desk,
    second: &mut Desk,
    a: Point,
    b: Point,
    cell: Option<Cell>,
    r: Motion,
    s: Motion,
    d: Divider,
)
    requires
        call_ensures(pointer_moved, (first, a, cell, false, false), r),
        call_ensures(pointer_moved, (second, b, cell, false, false), s),
        *old(first) == *old(second),
        old(first).scroll_drag is None,
        old(first).pointer.pressed is None,
        old(first).bay.armed is None,
        old(first).divider == Some(d),
        if d.horizontal { a.x == b.x } else { a.y == b.y },
    ensures
        r == s,
{
}

/// One gesture owns the pointer: a scrollbar before a program that got a press, that before
/// a wire, a wire before a divider, and a divider before a selection. Only where none does
/// is a program told of the pointer passing by, or does the focus follow it.
pub proof fn one_gesture_owns_a_motion(
    desk: &mut Desk,
    to: Point,
    cell: Option<Cell>,
    follow: bool,
    cheap: bool,
    r: Motion,
)
    requires
        call_ensures(pointer_moved, (desk, to, cell, follow, cheap), r),
    ensures
        ({
            let d = *old(desk);
            let shift = d.mods.shift;
            let press = d.scroll_drag is None && d.pointer.pressed is Some;
            let wire = d.scroll_drag is None && d.pointer.pressed is None && d.bay.armed is Some;
            let split = d.scroll_drag is None && d.pointer.pressed is None && d.bay.armed is None
                && d.divider is Some;
            let select = d.scroll_drag is None && d.pointer.pressed is None && d.bay.armed is None
                && d.divider is None && d.selecting;
            let free = d.scroll_drag is None && d.pointer.pressed is None && d.bay.armed is None
                && d.divider is None && !d.selecting;
            let watched = !shift && cell is Some && cell->0.wants.motion;
            &&& final(desk).mouse == to
            &&& final(desk).mods == d.mods && final(desk).bay == d.bay && final(desk).divider == d.divider
            &&& final(desk).scroll_drag == d.scroll_drag && final(desk).selecting == d.selecting
            &&& final(desk).composing == d.composing && final(desk).pointer.pressed == d.pointer.pressed
            &&& r is Scrolling <==> d.scroll_drag is Some
            &&& r is Held <==> press && shift
            &&& r is Dragging <==> press && !shift
            &&& r is Wiring <==> wire
            &&& r is Resizing <==> split
            &&& r is Selecting <==> select
            &&& r is Hovering <==> free && watched
            &&& r is Focus <==> free && !watched && follow
            &&& r is Nothing <==> free && !watched && !follow
            &&& wire ==> final(desk).drag_cursor == Some(to) && (cheap ==> final(desk).force_full)
            &&& !wire ==> final(desk).drag_cursor == d.drag_cursor
            &&& !select ==> final(desk).selection == d.selection
        }),
{
}

/// A program that got a press is told of every motion over a cell whose program wants the
/// mouse; one that watches the pointer is told once of each cell that it passes over.
pub proof fn programs_are_told_of_motion(
    desk: &mut Desk,
    to: Point,
    cell: Option<Cell>,
    follow: bool,
    cheap: bool,
    r: Motion,
)
    requires
        call_ensures(pointer_moved, (desk, to, cell, follow, cheap), r),
    ensures
        r is Dragging ==> {
            &&& r->Dragging_0 is Some <==> cell is Some && cell->0.wants.mouse
            &&& r->Dragging_0 is Some ==> reports(
                r->Dragging_0->0,
                MouseReport::Drag(old(desk).pointer.pressed->0.button),
                cell->0,
                old(desk).mods,
            )
        },
        r is Hovering ==> {
            let hover = old(desk).pointer.hover;
            let same = hover is Some && hover->0.pane == cell->0.pane && hover->0.col == cell->0.col
                && hover->0.row == cell->0.row;
            &&& r->Hovering_0 is Some <==> !same && cell->0.wants.mouse
            &&& r->Hovering_0 is Some ==> reports(r->Hovering_0->0, MouseReport::Move, cell->0, old(desk).mods)
            &&& final(desk).pointer.hover is Some
            &&& final(desk).pointer.hover->0.pane == cell->0.pane
            &&& final(desk).pointer.hover->0.col == cell->0.col
            &&& final(desk).pointer.hover->0.row == cell->0.row
        },
        r is Focus || r is Nothing ==> (!old(desk).mods.shift ==> final(desk).pointer.hover is None),
{
}

/// A drag that selects takes the free end to the cell under the pointer, while it is over
/// the pane that it began in; nothing else of the selection changes.
pub proof fn a_drag_takes_the_free_end_along(
    desk: &mut Desk,
    to: Point,
    cell: Option<Cell>,
    follow: bool,
    cheap: bool,
    r: Motion,
)
    requires
        call_ensures(pointer_moved, (desk, to, cell, follow, cheap), r),
        r is Selecting,
        cell is Some ==> cell->0.wf(),
    ensures
        ({
            let over = cell is Some && old(desk).selection is Some && old(desk).selection->0.pane == cell->0.pane;
            &&& r == Motion::Selecting(over)
            &&& !over ==> final(desk).selection == old(desk).selection
            &&& over ==> {
                let s = final(desk).selection->0;
                &&& final(desk).selection is Some
                &&& shows(cell->0, s.head)
                &&& s.anchor == old(desk).selection->0.anchor
                &&& s.pane == old(desk).selection->0.pane
                &&& s.block == old(desk).selection->0.block
                &&& !final(desk).shift_press
                &&& final(desk).force_full
            }
        }),
{
}

proof fn lemma_filter_has(s: Seq<Wire>, keep: spec_fn(Wire) -> bool, w: Wire)
    ensures
        s.filter(keep).contains(w) <==> s.contains(w) && keep(w),
    decreases s.len(),
{
    reveal(Seq::filter);
    if s.len() > 0 {
        let rest = s.drop_last();
        lemma_filter_has(rest, keep, w);
        let out = s.filter(keep);
        let before = rest.filter(keep);
        if s.contains(w) {
            let i = choose|i: int| 0 <= i < s.len() && s[i] == w;
            if i < s.len() - 1 {
                assert(rest[i] == w);
            }
        }
        if rest.contains(w) {
            let i = choose|i: int| 0 <= i < rest.len() && rest[i] == w;
            assert(s[i] == w);
        }
        if before.contains(w) {
            let i = choose|i: int| 0 <= i < before.len() && before[i] == w;
            assert(out[i] == w);
        }
        if keep(s.last()) {
            assert(out =~= before.push(s.last()));
            assert(out[before.len() as int] == s.last());
            if out.contains(w) {
                let i = choose|i: int| 0 <= i < out.len() && out[i] == w;
                if i < before.len() {
                    assert(before[i] == w);
                }
            }
        }
        assert(s[s.len() - 1] == s.last());
    }
}

/// A press of the right button drops a wire that is being pulled; on a jack it takes out
/// exactly the wires that leave it; a program that wants the mouse gets it as the third
/// button, unless Shift is held; and else the menu opens.
pub proof fn a_right_press_unplugs_or_opens_the_menu(
    desk: &mut Desk,
    jack: Option<(u64, Stream)>,
    cell: Option<Cell>,
    r: RightPress,
    w: Wire,
)
    requires
        call_ensures(right_press, (desk, jack, cell), r),
    ensures
        ({
            let d = *old(desk);
            let pulling = d.bay.armed is Some;
            let takes = program_takes(cell, d.mods);
            &&& r is Dropped <==> pulling
            &&& r is Unplugged <==> !pulling && jack is Some
            &&& r is Deliver <==> !pulling && jack is None && takes
            &&& r is Menu <==> !pulling && jack is None && !takes
            &&& final(desk).bay.armed is None
            &&& r is Dropped ==> final(desk).bay.wires@ == d.bay.wires@ && final(desk).drag_cursor is None
            &&& r is Unplugged ==> {
                let (pane, stream) = jack->0;
                final(desk).bay.wires@.contains(w) <==> d.bay.wires@.contains(w) && (w.src != pane || w.stream
                    != stream)
            }
            &&& r is Deliver ==> {
                &&& reports(r->Deliver_0, MouseReport::Press(2), cell->0, d.mods)
                &&& final(desk).pointer.pressed is Some
                &&& final(desk).pointer.pressed->0.pane == cell->0.pane
                &&& final(desk).pointer.pressed->0.button == 2
            }
            &&& r is Menu ==> *final(desk) == d
            &&& r is Dropped || r is Unplugged ==> *final(desk) == (Desk {
                bay: final(desk).bay,
                drag_cursor: final(desk).drag_cursor,
                force_full: true,
                ..d
            })
            &&& r is Unplugged ==> final(desk).drag_cursor == d.drag_cursor
            &&& r is Deliver ==> *final(desk) == (Desk { pointer: final(desk).pointer, ..d })
            &&& final(desk).bay.jacked == d.bay.jacked
        }),
{
    if r is Unplugged {
        let (pane, stream) = jack->0;
        lemma_filter_has(
            old(desk).bay.wires@,
            |x: Wire| !(x.src == pane && x.stream == stream),
            w,
        );
    }
}

/// A press of the middle button goes to a program that wants the mouse, as the second
/// button, unless Shift is held; and else pastes what was selected.
pub proof fn a_middle_press_pastes(desk: &mut Desk, cell: Option<Cell>, r: MiddlePress)
    requires
        call_ensures(middle_press, (desk, cell), r),
    ensures
        r is Paste <==> !program_takes(cell, old(desk).mods),
        r is Paste ==> *final(desk) == *old(desk),
        r is Deliver ==> {
            &&& reports(r->Deliver_0, MouseReport::Press(1), cell->0, old(desk).mods)
            &&& final(desk).pointer.pressed is Some
            &&& final(desk).pointer.pressed->0.pane == cell->0.pane
            &&& final(desk).pointer.pressed->0.button == 1
        },
{
}

/// Whether a press follows the one before so soon and so near that the two count together:
/// within four tenths of a second, and less than five pixels away either way.
pub open spec fn counts_together(last: Option<Click>, now: int, at: Point) -> bool {
    last is Some && now < last->0.at + 400 && at.x - last->0.place.x < 320 && last->0.place.x - at.x < 320 && at.y
        - last->0.place.y < 320 && last->0.place.y - at.y < 320
}

/// A press of the left button grabs the first of these that it is on: a jack, a divider, a
/// scrollbar, a tab; an address, with Control; a program that wants the mouse, without
/// Shift. On none of them it is a click on the text.
pub proof fn a_left_press_grabs_the_first_thing(desk: &mut Desk, found: &Found, now: u64, r: LeftPress)
    requires
        call_ensures(left_press, (desk, found, now), r),
        !old(desk).composing,
    ensures
        ({
            let d = *old(desk);
            let jack = found.jack is Some;
            let split = !jack && found.divider is Some;
            let bar = !jack && found.divider is None && found.bar is Some;
            let tab = !jack && found.divider is None && found.bar is None && found.tab is Some;
            let text = !jack && found.divider is None && found.bar is None && found.tab is None;
            let link = text && d.mods.control && found.cell is Some && found.link;
            let takes = text && !link && program_takes(found.cell, d.mods);
            &&& r is Wiring <==> jack
            &&& r is Resizing <==> split
            &&& r is Scrolling <==> bar
            &&& r is Tab <==> tab
            &&& r is Link <==> link
            &&& r is Deliver <==> takes
            &&& r is Select || r is Selected || r is Focus <==> text && !link && !takes
            &&& jack ==> final(desk).bay.armed == found.jack && final(desk).drag_cursor == Some(d.mouse)
                && final(desk).icon == Some(Icon::Grabbing)
            &&& split ==> final(desk).divider == found.divider
            &&& !split ==> final(desk).divider == d.divider
            &&& tab ==> r->Tab_0 == found.tab->0
            &&& takes ==> {
                &&& reports(r->Deliver_0, MouseReport::Press(0), found.cell->0, d.mods)
                &&& final(desk).pointer.pressed is Some
                &&& final(desk).pointer.pressed->0.pane == found.cell->0.pane
                &&& final(desk).pointer.pressed->0.button == 0
            }
            &&& !takes ==> final(desk).pointer == d.pointer
            &&& !(r is Select || r is Selected) ==> final(desk).selection == d.selection
        }),
{
}

/// A scrollbar that is grabbed on its thumb stays under the pointer as it was; grabbed
/// beside it, the thumb's middle comes under the pointer.
pub proof fn a_thumb_stays_where_it_was_grabbed(desk: &mut Desk, found: &Found, now: u64, r: LeftPress, bar: BarFound)
    requires
        call_ensures(left_press, (desk, found, now), r),
        r is Scrolling,
        found.bar == Some(bar),
        found.wf(),
        old(desk).wf(),
    ensures
        ({
            let drag = final(desk).scroll_drag->0;
            let y = old(desk).mouse.y;
            let on = bar.thumb_y <= y <= bar.thumb_y + bar.thumb_h;
            &&& final(desk).scroll_drag is Some
            &&& drag.pane == bar.pane && drag.rect == bar.rect
            &&& on ==> y - drag.grab == bar.thumb_y
            &&& !on ==> 2 * drag.grab <= bar.thumb_h <= 2 * drag.grab + 1
        }),
{
}

/// A click on the text begins a selection at its cell, a block with Control held. A second
/// one on the spot selects the word there and a third the line; a fourth begins anew.
pub proof fn clicks_select_cells_words_and_lines(desk: &mut Desk, found: &Found, now: u64, r: LeftPress, c: Cell)
    requires
        call_ensures(left_press, (desk, found, now), r),
        !old(desk).composing,
        r is Select || r is Selected,
        found.wf(),
        old(desk).wf(),
        found.cell == Some(c),
    ensures
        ({
            let d = *old(desk);
            let together = counts_together(d.last_click, now as int, d.mouse);
            let second = together && d.click_count == 1;
            let third = together && d.click_count == 2;
            let s = final(desk).selection->0;
            &&& final(desk).last_click is Some
            &&& final(desk).last_click->0.at == now && final(desk).last_click->0.place == d.mouse
            &&& final(desk).click_count == (if second {
                2int
            } else if third {
                3
            } else {
                1
            })
            &&& r is Selected <==> second || third
            &&& final(desk).selecting <==> r is Select
            &&& r is Select ==> {
                &&& final(desk).selection is Some
                &&& s.pane == c.pane
                &&& shows(c, s.anchor) && s.head == s.anchor
                &&& s.block == d.mods.control
                &&& final(desk).shift_press == d.mods.shift
            }
            &&& second && found.word is None ==> final(desk).selection == d.selection
            &&& second && found.word is Some ==> {
                let w = found.word->0;
                &&& final(desk).selection is Some
                &&& s.pane == c.pane && !s.block
                &&& s.anchor.col == w.start_col && s.anchor.line + c.offset == w.start_row
                &&& s.head.col == w.end_col && s.head.line + c.offset == w.end_row
            }
            &&& third ==> {
                &&& final(desk).selection is Some
                &&& s.pane == c.pane && !s.block
                &&& s.anchor.col == 0 && s.anchor.line + c.offset == found.line.first_row
                &&& s.head.col == found.line.last_col && s.head.line + c.offset == found.line.last_row
            }
        }),
{
}

/// While the keyboard drives a selection a click with Shift in its pane finishes it there,
/// and any other click gives it up. The second press of a double click does neither.
pub proof fn a_click_ends_what_the_keyboard_drove(desk: &mut Desk, found: &Found, now: u64, r: LeftPress)
    requires
        call_ensures(left_press, (desk, found, now), r),
        old(desk).composing,
        found.wf(),
    ensures
        ({
            let d = *old(desk);
            let together = counts_together(d.last_click, now as int, d.mouse);
            let inside = d.mods.shift && found.cell is Some && d.selection is Some && found.cell->0.pane
                == d.selection->0.pane;
            &&& r is Finished <==> !together && inside
            &&& r is GivenUp <==> !together && !inside
            &&& !final(desk).composing
            &&& r is Finished ==> {
                &&& final(desk).selection is Some
                &&& shows(found.cell->0, final(desk).selection->0.head)
                &&& final(desk).selection->0.anchor == d.selection->0.anchor
                &&& final(desk).selection->0.pane == d.selection->0.pane
                &&& final(desk).selection->0.block == d.selection->0.block
            }
            &&& r is GivenUp ==> final(desk).selection is None
            &&& r is Finished || r is GivenUp ==> final(desk).force_full && !final(desk).shift_press
        }),
{
}

/// Giving up drops the selection, and finishing keeps it; either ends the keyboard's hold.
pub proof fn giving_up_drops_and_finishing_keeps(a: &mut Desk, b: &mut Desk)
    requires
        call_ensures(compose_cancel, (a,), ()),
        call_ensures(compose_commit, (b,), ()),
    ensures
        !final(a).composing && !final(a).shift_press && final(a).selection is None && final(a).force_full,
        !final(b).composing && !final(b).shift_press && final(b).selection == old(b).selection
            && final(b).force_full,
        *final(a) == (Desk {
            composing: false,
            shift_press: false,
            selection: None,
            force_full: true,
            ..*old(a)
        }),
{
}

/// A release ends what its press began. A program that got the press gets the release: where
/// the pointer is, or at its own first cell. A wire that was being pulled is joined to the
/// pane under the pointer. A drag that never moved selects nothing, or with Shift begins a
/// selection that the keyboard drives; one that did can be pasted.
pub proof fn a_release_ends_what_its_press_began(
    desk: &mut Desk,
    cell: Option<Cell>,
    origin: Option<Wants>,
    pane: Option<u64>,
    r: LeftRelease,
)
    requires
        call_ensures(left_release, (desk, cell, origin, pane), r),
    ensures
        ({
            let d = *old(desk);
            let told = d.pointer.pressed is Some;
            let wire = !told && d.bay.armed is Some;
            let s = d.selection->0;
            let moved = d.selection is Some && s.anchor != s.head;
            let still = d.selection is Some && s.anchor == s.head;
            &&& r is Deliver <==> told
            &&& r is Wired <==> wire
            &&& r is Ended <==> !told && !wire
            &&& final(desk).pointer.pressed is None
            &&& told ==> {
                let over = cell is Some && cell->0.wants.mouse;
                let home = !over && origin is Some && origin->0.mouse;
                let button = d.pointer.pressed->0.button;
                &&& r->Deliver_0 is Some <==> over || home
                &&& over ==> reports(r->Deliver_0->0, MouseReport::Release(button), cell->0, d.mods)
                &&& home ==> r->Deliver_0->0.pane == d.pointer.pressed->0.pane
                &&& home ==> forall|v: Vec<u8>| #[trigger]
                    call_ensures(
                        encode_mouse,
                        (MouseReport::Release(button), 1u16, 1u16, d.mods, origin->0.sgr),
                        Some(v),
                    ) ==> r->Deliver_0->0.bytes@ == v@
            }
            &&& wire ==> final(desk).bay.armed is None && final(desk).drag_cursor is None
            &&& r is Ended ==> {
                &&& final(desk).divider is None && final(desk).scroll_drag is None && !final(desk).selecting
                &&& !final(desk).shift_press
                &&& r->copy == moved
                &&& moved ==> final(desk).selection == d.selection && final(desk).composing == d.composing
                &&& still && d.shift_press ==> final(desk).composing && final(desk).selection == d.selection
                &&& still && !d.shift_press ==> final(desk).selection is None && final(desk).composing
                    == d.composing
                &&& d.selection is None ==> final(desk).selection is None
            }
        }),
{
}

/// A turn of the wheel over a program that wants the mouse goes to it notch by notch, up for
/// up and down for down, at most eight at a time; else it scrolls by the lines it turned.
pub proof fn the_wheel_scrolls_or_is_passed_on(desk: &mut Desk, lines: i32, cell: Option<Cell>, r: Wheel)
    requires
        call_ensures(wheel_turned, (desk, lines, cell), r),
    ensures
        r is Nothing <==> lines == 0,
        r is Deliver <==> lines != 0 && program_takes(cell, old(desk).mods),
        r is Scroll ==> r->Scroll_0 == lines,
        r is Deliver ==> {
            &&& reports(r->Deliver_0, MouseReport::Scroll(lines > 0), cell->0, old(desk).mods)
            &&& r->Deliver_1 == (if lines > 8 || lines < -8 {
                8int
            } else if lines < 0 {
                -lines
            } else {
                lines as int
            })
        },
        *final(desk) == (Desk { force_full: old(desk).force_full || r is Scroll, ..*old(desk) }),
{
}

/// A drag held above its pane brings older lines into view and one held below it newer ones,
/// a line at a time and not more often than every 35 milliseconds. Inside nothing scrolls.
pub proof fn a_drag_beyond_the_edge_scrolls(desk: &mut Desk, content: Option<Area>, now: u64, r: Autoscroll)
    requires
        call_ensures(autoscroll, (desk, content, now), r),
        old(desk).last_autoscroll <= now,
    ensures
        ({
            let d = *old(desk);
            let selecting = d.selecting && d.selection is Some && content is Some;
            let above = selecting && d.mouse.y < content->0.y;
            let below = selecting && !above && d.mouse.y >= content->0.y + content->0.h;
            let due = now >= d.last_autoscroll + 35;
            &&& r is Idle <==> !above && !below
            &&& r is Wait <==> (above || below) && !due
            &&& r == (Autoscroll::Line { older: true }) <==> above && due
            &&& r == (Autoscroll::Line { older: false }) <==> below && due
            &&& r is Line ==> final(desk).last_autoscroll == now
            &&& *final(desk) == (Desk { last_autoscroll: final(desk).last_autoscroll, ..d })
            &&& !(r is Line) ==> *final(desk) == d
        }),
{
}

/// When a pane scrolls under a drag the free end goes to the row at that edge, in the column
/// that the pointer is over; nothing else of the selection changes.
pub proof fn a_scrolled_drag_selects_to_the_edge(
    desk: &mut Desk,
    content: Area,
    cell_w: i64,
    older: bool,
    offset: usize,
    screen: usize,
    s: Selection,
)
    requires
        call_ensures(extend_to_edge, (desk, content, cell_w, older, offset, screen), ()),
        old(desk).wf(),
        content.wf(),
        cell_w > 0,
        offset <= 0x3fff_ffff,
        0 < screen <= 0x3fff_ffff,
        old(desk).mouse.x - content.x <= 0x3fff_ffff,
        old(desk).selection == Some(s),
    ensures
        ({
            let head = final(desk).selection->0.head;
            let right = old(desk).mouse.x - content.x;
            &&& final(desk).selection == Some(Selection { head, ..s })
            &&& older ==> head.line + offset == 0
            &&& !older ==> head.line + offset == screen - 1
            &&& right <= 0 ==> head.col == 0
            &&& right > 0 ==> head.col * cell_w <= right < (head.col + 1) * cell_w
        }),
{
    let right = old(desk).mouse.x - content.x;
    let head = final(desk).selection->0.head;
    if right > 0 {
        let w = cell_w as int;
        vstd::arithmetic::div_mod::lemma_fundamental_div_mod(right, w);
        vstd::arithmetic::div_mod::lemma_mod_bound(right, w);
        vstd::arithmetic::div_mod::lemma_div_pos_is_pos(right, w);
        vstd::arithmetic::div_mod::lemma_div_is_ordered_by_denominator(right, 1, w);
        let q = right / w;
        assert(q <= right) by (nonlinear_arith)
            requires
                right == w * q + right % w,
                0 <= right % w,
                w >= 1,
                q >= 0,
        ;
        assert(head.col == q);
        assert(q * w <= right < (q + 1) * w) by (nonlinear_arith)
            requires
                right == w * q + right % w,
                0 <= right % w < w,
        ;
    }
}

} // verus!

//! Where the pointer is, and what a program is told of it.
use vstd::prelude::*;
use crate::geometry::{
    cell_at, column_separator, content_bounds, drag_offset, pane_at, pane_with, scrollbar_at, scrollbar_metrics,
    thumb_down, thumb_height, Area, Hit, PaneArea, Point, ScrollInfo, Scrollbar,
};
use crate::keymap::Mods;
use crate::mouse::{
    encode_mouse, end_mouse_report, forward_hover, forward_mouse, Delivery, MouseReport, Pointer, Under, Wants,
};
use crate::settings::Rgb;
use crate::text::numeral;

verus! {

/// Whether a point lies in a rectangle: on its left and upper edges, but not on the others.
pub open spec fn inside(a: Area, p: Point) -> bool {
    0 <= p.x - a.x < a.w && 0 <= p.y - a.y < a.h
}

/// A point lies in a rectangle exactly where it is neither before its edges nor behind them.
pub proof fn a_rectangle_has_what_is_inside(a: &Area, p: Point, r: bool)
    requires
        call_ensures(Area::contains, (a, p), r),
    ensures
        r == inside(*a, p),
{
}

/// The contents keep eight pixels from every edge of the window, as far as it is large
/// enough; else they are one pixel.
pub proof fn the_contents_keep_clear_of_the_edge(width: u32, height: u32, r: (u32, u32, u32, u32))
    requires
        call_ensures(content_bounds, (width, height), r),
    ensures
        ({
            let (x, y, w, h) = r;
            &&& x == 8 && y == 8
            &&& width > 16 ==> x + w + 8 == width
            &&& height > 16 ==> y + h + 8 == height
            &&& width <= 16 ==> w == 1
            &&& height <= 16 ==> h == 1
        }),
{
}

proof fn lemma_first_pane(panes: Seq<PaneArea>, p: Point)
    ensures
        match pane_with(panes, p) {
            Some(i) => 0 <= i < panes.len() && inside(panes[i].full, p) && forall|k: int|
                0 <= k < i ==> !inside((#[trigger] panes[k]).full, p),
            None => forall|k: int| 0 <= k < panes.len() ==> !inside((#[trigger] panes[k]).full, p),
        },
    decreases panes.len(),
{
    if panes.len() > 0 {
        let rest = panes.drop_last();
        lemma_first_pane(rest, p);
        match pane_with(rest, p) {
            Some(i) => {
                assert(rest[i] == panes[i]);
                assert forall|k: int| 0 <= k < i implies !inside((#[trigger] panes[k]).full, p) by {
                    assert(rest[k] == panes[k]);
                }
            },
            None => {
                assert forall|k: int| 0 <= k < rest.len() implies !inside((#[trigger] panes[k]).full, p) by {
                    assert(rest[k] == panes[k]);
                }
            },
        }
    }
}

/// The pane at a point has the point, and no pane before it does.
pub proof fn the_pane_at_a_point_has_it(panes: &Vec<PaneArea>, p: Point, r: Option<usize>)
    requires
        call_ensures(pane_at, (panes, p), r),
    ensures
        match r {
            Some(i) => i < panes@.len() && inside(panes@[i as int].full, p) && forall|k: int|
                0 <= k < i ==> !inside((#[trigger] panes@[k]).full, p),
            None => forall|k: int| 0 <= k < panes@.len() ==> !inside((#[trigger] panes@[k]).full, p),
        },
{
    lemma_first_pane(panes@, p);
}

/// Whether `n` steps of `size` are the whole steps in a distance.
pub open spec fn whole_steps(n: int, size: int, distance: int) -> bool {
    n * size <= distance < (n + 1) * size
}

proof fn lemma_whole_steps(size: int, distance: int)
    requires
        size > 0,
        distance >= 0,
    ensures
        whole_steps(distance / size, size, distance),
        0 <= distance / size <= distance,
{
    vstd::arithmetic::div_mod::lemma_fundamental_div_mod(distance, size);
    vstd::arithmetic::div_mod::lemma_mod_bound(distance, size);
    vstd::arithmetic::div_mod::lemma_div_pos_is_pos(distance, size);
    let q = distance / size;
    assert(q * size <= distance < (q + 1) * size && q <= distance) by (nonlinear_arith)
        requires
            distance == size * q + distance % size,
            0 <= distance % size < size,
            q >= 0,
            size >= 1,
    ;
}

/// The cell at a point has the point: it is as many cells to the right and down from the
/// corner of the grid as fit before the point. Left of the grid it is the first column. Above
/// the grid, and beside every pane, there is no cell.
pub proof fn the_cell_at_a_point_has_it(panes: &Vec<PaneArea>, p: Point, cw: i64, ch: i64, r: Option<Hit>, i: int)
    requires
        call_ensures(cell_at, (panes, p, cw, ch), r),
        p.wf(),
        cw > 0,
        ch > 0,
        0 <= i < panes@.len(),
        panes@[i].content.wf(),
        inside(panes@[i].full, p),
        forall|k: int| 0 <= k < i ==> !inside((#[trigger] panes@[k]).full, p),
        p.x - panes@[i].content.x <= 0x3fff_ffff,
        p.y - panes@[i].content.y <= 0x3fff_ffff,
    ensures
        ({
            let pane = panes@[i];
            let right = p.x - pane.content.x;
            let down = p.y - pane.content.y;
            &&& r is None <==> down < 0
            &&& r is Some && pane.columned ==> r == Some(
                Hit::Columns { pane: pane.id, dx: right as i64, dy: down as i64 },
            )
            &&& r is Some && !pane.columned ==> {
                let hit = r->0;
                &&& hit is Cell
                &&& hit->Cell_pane == pane.id
                &&& right >= 0 ==> whole_steps(hit->col as int, cw as int, right)
                &&& right < 0 ==> hit->col == 0
                &&& whole_steps(hit->row as int, ch as int, down)
            }
        }),
{
    lemma_first_pane(panes@, p);
    let found = pane_with(panes@, p);
    assert(found == Some(i)) by {
        match found {
            Some(k) => {
                if k < i {
                    assert(!inside(panes@[k].full, p));
                }
                if i < k {
                    assert(!inside(panes@[i].full, p));
                }
            },
            None => {
                assert(!inside(panes@[i].full, p));
            },
        }
    }
    let pane = panes@[i];
    let right = p.x - pane.content.x;
    let down = p.y - pane.content.y;
    if down >= 0 {
        lemma_whole_steps(ch as int, down);
        if right >= 0 {
            lemma_whole_steps(cw as int, right);
        }
        if right == 0 {
            vstd::arithmetic::div_mod::lemma_div_basics_1(cw as int);
        }
    }
}

/// Outside every pane there is no cell.
pub proof fn there_is_no_cell_outside_the_panes(panes: &Vec<PaneArea>, p: Point, cw: i64, ch: i64, r: Option<Hit>)
    requires
        call_ensures(cell_at, (panes, p, cw, ch), r),
        forall|k: int| 0 <= k < panes@.len() ==> !inside((#[trigger] panes@[k]).full, p),
    ensures
        r is None,
{
    lemma_first_pane(panes@, p);
    match pane_with(panes@, p) {
        Some(k) => {
            assert(!inside(panes@[k].full, p));
        },
        None => {},
    }
}

/// A scrollbar stands half a pixel to the right of the grid and is four pixels wide. Its
/// thumb is at the bottom of the track where nothing is scrolled, and at the top where all
/// of the history is; it is as tall, out of the track, as the screen is out of the buffer,
/// but for at least 24 pixels, as far as the track has them.
pub proof fn a_thumb_stands_for_the_screen(rect: Area, offset: usize, history: usize, screen: usize, r: Scrollbar)
    requires
        call_ensures(scrollbar_metrics, (rect, offset, history, screen), r),
        rect.wf(),
        history <= 0x7fff_ffff,
        screen <= 0x7fff_ffff,
    ensures
        r.x == rect.x + rect.w + 32,
        r.w == 256,
        history > 0 && offset == 0 ==> r.thumb_y + r.thumb_h == rect.y + rect.h,
        offset >= history ==> r.thumb_y == rect.y,
        r.thumb_h <= rect.h,
        r.thumb_h == rect.h || r.thumb_h >= 1_536,
        history + screen > 0 && 1_536 < r.thumb_h < rect.h ==> whole_steps(
            r.thumb_h as int,
            history + screen,
            screen * rect.h,
        ),
        history + screen > 0 && r.thumb_h == 1_536 && r.thumb_h < rect.h ==> screen * rect.h < 1_537 * (history
            + screen),
        history + screen > 0 && r.thumb_h == rect.h && rect.h > 1_536 ==> history == 0 || rect.h * (history
            + screen) <= screen * rect.h,
{
    let total = history + screen;
    let track = rect.h as int;
    let travel = track - r.thumb_h;
    assert(0 <= screen * track) by (nonlinear_arith)
        requires
            screen >= 0,
            track >= 0,
    ;
    if total > 0 {
        lemma_whole_steps(total, screen * track);
        let share = screen * track / total;
        assert(share * total <= screen * track < (share + 1) * total);
        if r.thumb_h == track && track > 1_536 {
            assert(track * total <= screen * track) by (nonlinear_arith)
                requires
                    share >= track,
                    share * total <= screen * track,
                    total > 0,
            ;
        }
        if r.thumb_h == 1_536 && r.thumb_h < track {
            assert(screen * track < 1_537 * total) by (nonlinear_arith)
                requires
                    share <= 1_536,
                    screen * track < (share + 1) * total,
                    total > 0,
            ;
        }
    }
    if history > 0 && offset == 0 {
        vstd::arithmetic::div_mod::lemma_div_multiples_vanish(travel, history as int);
        assert(history * travel == travel * history) by (nonlinear_arith);
        assert(thumb_down(travel, 0, history as int) == travel);
    }
    if offset >= history {
        assert(0 * travel == 0) by (nonlinear_arith);
        assert(0int / (if history > 1 { history as int } else { 1 }) == 0) by {
            vstd::arithmetic::div_mod::lemma_div_basics_1(if history > 1 { history as int } else { 1 });
        }
    }
}

/// Scrolling further back never moves the thumb down.
pub proof fn a_thumb_goes_up_with_the_view(
    rect: Area,
    offset: usize,
    further: usize,
    history: usize,
    screen: usize,
    a: Scrollbar,
    b: Scrollbar,
)
    requires
        call_ensures(scrollbar_metrics, (rect, offset, history, screen), a),
        call_ensures(scrollbar_metrics, (rect, further, history, screen), b),
        rect.wf(),
        history <= 0x7fff_ffff,
        screen <= 0x7fff_ffff,
        offset <= further,
    ensures
        b.thumb_y <= a.thumb_y,
        a.thumb_h == b.thumb_h,
{
    let travel = rect.h - a.thumb_h;
    let whole = if history > 1 { history as int } else { 1 };
    let x = if history > offset { history - offset } else { 0 };
    let y = if history > further { history - further } else { 0 };
    assert(y * travel <= x * travel) by (nonlinear_arith)
        requires
            0 <= y <= x,
            travel >= 0,
    ;
    vstd::arithmetic::div_mod::lemma_div_is_ordered(y * travel, x * travel, whole);
    assert(0 <= y * travel && x * travel <= travel * whole) by (nonlinear_arith)
        requires
            0 <= y,
            x <= whole,
            travel >= 0,
    ;
    vstd::arithmetic::div_mod::lemma_div_is_ordered(x * travel, travel * whole, whole);
    vstd::arithmetic::div_mod::lemma_div_multiples_vanish(travel, whole);
    vstd::arithmetic::div_mod::lemma_div_pos_is_pos(y * travel, whole);
    assert(travel == rect.h - thumb_height(rect.h as int, history as int, screen as int));
    assert(thumb_down(travel, offset as int, history as int) == x * travel / whole);
    assert(thumb_down(travel, further as int, history as int) == y * travel / whole);
    assert(0 <= y * travel / whole <= x * travel / whole <= travel);
    assert(a.thumb_y == rect.y + x * travel / whole);
    assert(b.thumb_y == rect.y + y * travel / whole);
}

/// A scrollbar can be grabbed along the whole grid, and two pixels to either side of it; only
/// that of the pane under the pointer, and only where there is history.
pub proof fn a_scrollbar_is_grabbed_where_it_is(
    panes: &Vec<PaneArea>,
    scroll: &Vec<ScrollInfo>,
    p: Point,
    r: Option<(usize, Scrollbar)>,
    i: usize,
    bar: Scrollbar,
)
    requires
        call_ensures(scrollbar_at, (panes, scroll, p), r),
        call_ensures(pane_at, (panes, p), Some(i)),
        scroll@.len() == panes@.len(),
        call_ensures(
            scrollbar_metrics,
            (
                panes@[i as int].content,
                scroll@[i as int].offset,
                scroll@[i as int].history,
                scroll@[i as int].screen,
            ),
            bar,
        ),
    ensures
        ({
            let grid = panes@[i as int].content;
            let on = scroll@[i as int].history > 0 && bar.x - 128 <= p.x <= bar.x + bar.w + 128 && grid.y <= p.y
                <= grid.y + grid.h;
            &&& on ==> r == Some((i, bar))
            &&& !on ==> r is None
        }),
{
}

/// Where there is no pane there is no scrollbar.
pub proof fn there_is_no_scrollbar_without_a_pane(
    panes: &Vec<PaneArea>,
    scroll: &Vec<ScrollInfo>,
    p: Point,
    r: Option<(usize, Scrollbar)>,
)
    requires
        call_ensures(scrollbar_at, (panes, scroll, p), r),
        call_ensures(pane_at, (panes, p), None),
    ensures
        r is None,
{
}

/// Dragging a thumb to a place scrolls to the line that is nearest to it: as much of the
/// history lies above the view as there is track above the thumb.
pub proof fn a_dragged_thumb_scrolls_to_the_nearest_line(
    rect: Area,
    offset: usize,
    history: usize,
    screen: usize,
    grab: i64,
    my: i64,
    r: Option<usize>,
    bar: Scrollbar,
)
    requires
        call_ensures(drag_offset, (rect, offset, history, screen, grab, my), r),
        call_ensures(scrollbar_metrics, (rect, offset, history, screen), bar),
        rect.wf(),
    ensures
        ({
            let travel = rect.h - bar.thumb_h;
            let down = my - grab - rect.y;
            &&& r is None <==> history == 0 || travel <= 0
            &&& r is Some ==> r->0 <= history
            &&& r is Some && down <= 0 ==> r->0 == history
            &&& r is Some && down >= travel ==> r->0 == 0
            &&& r is Some && 0 <= down <= travel ==> -travel <= 2 * (r->0 * travel - history * (travel - down))
                <= travel
        }),
{
    let travel = rect.h - bar.thumb_h;
    let down = my - grab - rect.y;
    if r is Some {
        crate::geometry::both_ends_can_be_reached(rect, travel, history as int, my - grab);
        if 0 <= down <= travel {
            let n = 2 * history * (travel - down) + travel;
            let q = r->0 as int;
            assert(n >= 0) by (nonlinear_arith)
                requires
                    n == 2 * history * (travel - down) + travel,
                    history >= 0,
                    travel - down >= 0,
                    travel > 0,
            ;
            lemma_whole_steps(2 * travel, n);
            assert(-travel <= 2 * (q * travel - history * (travel - down)) <= travel) by (nonlinear_arith)
                requires
                    q * (2 * travel) <= n < (q + 1) * (2 * travel),
                    n == 2 * history * (travel - down) + travel,
            ;
        }
    }
}

/// The rules between columns of text are of a colour halfway between the text's and the
/// background's, in each channel.
pub proof fn a_rule_is_halfway_between_text_and_background(fg: Rgb, bg: Rgb, r: Rgb)
    requires
        call_ensures(column_separator, (fg, bg), r),
    ensures
        2 * r.r <= fg.r + bg.r <= 2 * r.r + 1,
        2 * r.g <= fg.g + bg.g <= 2 * r.g + 1,
        2 * r.b <= fg.b + bg.b <= 2 * r.b + 1,
{
}

/// The number of an action: that of its button, 32 more while the pointer moves with it,
/// 35 without any, 64 and 65 for the wheel up and down; eight more with Alt, and sixteen more
/// with Control.
pub open spec fn is_action_number(report: MouseReport, mods: Mods, n: int) -> bool {
    let bare = n - (if mods.alt { 8int } else { 0 }) - (if mods.control { 16int } else { 0 });
    match report {
        MouseReport::Press(b) => bare == b,
        MouseReport::Release(b) => bare == b,
        MouseReport::Drag(b) => bare == b + 32,
        MouseReport::Move => bare == 35,
        MouseReport::Scroll(up) => bare == (if up { 64int } else { 65 }),
    }
}

/// The older form of a report is six bytes: what was done, the column and the row, each 32
/// more than it is, or 255 where a byte does not hold that. A release does not say of what.
pub proof fn an_old_report_is_six_bytes(
    report: MouseReport,
    col: u16,
    row: u16,
    mods: Mods,
    r: Option<Vec<u8>>,
    n: int,
)
    requires
        call_ensures(encode_mouse, (report, col, row, mods, false), r),
        is_action_number(report, mods, n),
    ensures
        r is Some,
        r->0@.len() == 6,
        r->0@[0] == 27 && r->0@[1] == 91 && r->0@[2] == 77,
        report is Release ==> r->0@[3] == 35,
        !(report is Release) && n <= 223 ==> r->0@[3] == n + 32,
        !(report is Release) && n > 223 ==> r->0@[3] == 255,
        r->0@[4] == (if col <= 223 { col + 32 } else { 255 }),
        r->0@[5] == (if row <= 223 { row + 32 } else { 255 }),
{
}

/// Decimal digits as bytes.
pub open spec fn digits(n: nat) -> Seq<u8> {
    Seq::new(numeral(n).len(), |i: int| numeral(n)[i] as u8)
}

/// The newer form of a report spells what was done, the column and the row in decimal
/// digits, and ends differently for a release.
pub proof fn a_new_report_spells_its_numbers(
    report: MouseReport,
    col: u16,
    row: u16,
    mods: Mods,
    r: Option<Vec<u8>>,
    n: int,
)
    requires
        call_ensures(encode_mouse, (report, col, row, mods, true), r),
        is_action_number(report, mods, n),
        n >= 0,
    ensures
        r is Some,
        r->0@ == seq![27u8, 91u8, 60u8] + digits(n as nat) + seq![59u8] + digits(col as nat) + seq![59u8] + digits(
            row as nat,
        ) + seq![if report is Release { 109u8 } else { 77u8 }],
{
    assert(crate::mouse::ascii_bytes(numeral(n as nat)) =~= digits(n as nat));
    assert(crate::mouse::ascii_bytes(numeral(col as nat)) =~= digits(col as nat));
    assert(crate::mouse::ascii_bytes(numeral(row as nat)) =~= digits(row as nat));
}

/// Whether a delivery is what encoding an action over a cell gives, columns and rows counted
/// from one.
pub open spec fn tells(d: Delivery, action: MouseReport, u: Under, mods: Mods) -> bool {
    &&& d.pane == u.pane
    &&& u.col < 65_535 && u.row < 65_535 ==> forall|v: Vec<u8>| #[trigger]
        call_ensures(
            encode_mouse,
            (action, (u.col + 1) as u16, (u.row + 1) as u16, mods, u.wants.sgr),
            Some(v),
        ) ==> d.bytes@ == v@
}

/// A program that asked for the mouse is told of what happens over its cells, and no other
/// is. A press is remembered, with its pane and button, until a release.
pub proof fn a_program_that_asked_is_told(
    pointer: &mut Pointer,
    report: MouseReport,
    under: Option<Under>,
    mods: Mods,
    r: Option<Delivery>,
)
    requires
        call_ensures(forward_mouse, (pointer, report, under, mods), r),
    ensures
        r is Some <==> under is Some && under->0.wants.mouse,
        r is Some ==> tells(r->0, report, under->0, mods),
        final(pointer).hover == old(pointer).hover,
        r is None ==> final(pointer).pressed == old(pointer).pressed,
        r is Some ==> match report {
            MouseReport::Press(b) => final(pointer).pressed is Some && final(pointer).pressed->0.pane
                == under->0.pane && final(pointer).pressed->0.button == b,
            MouseReport::Release(_) => final(pointer).pressed is None,
            _ => final(pointer).pressed == old(pointer).pressed,
        },
{
}

/// No program misses the release of a press that it got: it is told where the pointer is, if
/// a program there wants the mouse, and else at its own first cell.
pub proof fn no_program_misses_a_release(
    pointer: &mut Pointer,
    under: Option<Under>,
    origin: Option<Wants>,
    mods: Mods,
    r: (bool, Option<Delivery>),
)
    requires
        call_ensures(end_mouse_report, (pointer, under, origin, mods), r),
    ensures
        final(pointer).pressed is None,
        final(pointer).hover == old(pointer).hover,
        ({
            let (had, sent) = r;
            let over = under is Some && under->0.wants.mouse;
            let home = !over && origin is Some && origin->0.mouse;
            &&& had <==> old(pointer).pressed is Some
            &&& sent is Some <==> had && (over || home)
            &&& had && over ==> tells(
                sent->0,
                MouseReport::Release(old(pointer).pressed->0.button),
                under->0,
                mods,
            )
            &&& had && home ==> sent->0.pane == old(pointer).pressed->0.pane && forall|v: Vec<u8>| #[trigger]
                call_ensures(
                    encode_mouse,
                    (MouseReport::Release(old(pointer).pressed->0.button), 1u16, 1u16, mods, origin->0.sgr),
                    Some(v),
                ) ==> sent->0.bytes@ == v@
        }),
{
}

/// A program that watches the pointer is told of each cell once as the pointer enters it;
/// leaving it forgets the cell.
pub proof fn a_watching_program_is_told_once_per_cell(
    pointer: &mut Pointer,
    under: Option<Under>,
    mods: Mods,
    r: (bool, Option<Delivery>),
)
    requires
        call_ensures(forward_hover, (pointer, under, mods), r),
    ensures
        final(pointer).pressed == old(pointer).pressed,
        ({
            let (owned, sent) = r;
            let u = under->0;
            let h = final(pointer).hover;
            let was = old(pointer).hover;
            let same = was is Some && was->0.pane == u.pane && was->0.col == u.col && was->0.row == u.row;
            &&& owned <==> under is Some && u.wants.motion
            &&& h is Some <==> owned
            &&& owned ==> h->0.pane == u.pane && h->0.col == u.col && h->0.row == u.row
            &&& sent is Some <==> owned && u.wants.mouse && !same
            &&& sent is Some ==> tells(sent->0, MouseReport::Move, u, mods)
        }),
{
}

} // verus!

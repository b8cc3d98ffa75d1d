//! Places in the window, and what lies there.
//!
//! Pointer positions and the rectangles of panes are held in 64ths of a pixel, so that
//! a pointer between two pixels and a cell of a fractional width keep their place.
use vstd::prelude::*;
use crate::settings::Rgb;

verus! {

/// Units to a pixel.
pub const SUB: i64 = 64;

/// The greatest coordinate, in units: far beyond any screen.
pub const FAR: i64 = 0x1_0000_0000;

/// A point of the window.
#[derive(Debug, Clone, Copy, PartialEq, Eq, Structural)]
pub struct Point {
    pub x: i64,
    pub y: i64,
}

/// A rectangle of the window.
#[derive(Debug, Clone, Copy, PartialEq, Eq, Structural)]
pub struct Area {
    pub x: i64,
    pub y: i64,
    pub w: i64,
    pub h: i64,
}

impl Point {
    /// Whether the point can be anywhere on a screen.
    pub open spec fn wf(&self) -> bool {
        -FAR <= self.x <= FAR && -FAR <= self.y <= FAR
    }
}

impl Area {
    /// Whether the rectangle can be anywhere on a screen.
    pub open spec fn wf(&self) -> bool {
        &&& -FAR <= self.x <= FAR && -FAR <= self.y <= FAR
        &&& 0 <= self.w <= FAR && 0 <= self.h <= FAR
    }

    /// Whether a point lies in the rectangle: on its left and upper edges, but not on
    /// the others.
    pub open spec fn has(&self, p: Point) -> bool {
        self.x <= p.x < self.x + self.w && self.y <= p.y < self.y + self.h
    }

    /// Whether a point lies in the rectangle.
    pub fn contains(&self, p: Point) -> (r: bool)
        requires
            self.wf(),
        ensures
            r == self.has(p),
    {
        self.x <= p.x && p.x < self.x + self.w && self.y <= p.y && p.y < self.y + self.h
    }
}

/// The space between the window's edge and its contents, in pixels: room for what lives
/// on the edge.
pub const WINDOW_MARGIN: u32 = 8;

/// The contents' rectangle of a window of this size, in pixels.
pub fn content_bounds(width: u32, height: u32) -> (r: (u32, u32, u32, u32))
    ensures
        r.0 == WINDOW_MARGIN,
        r.1 == WINDOW_MARGIN,
        r.2 == (if width > 2 * WINDOW_MARGIN {
            (width - 2 * WINDOW_MARGIN) as u32
        } else {
            1
        }),
        r.3 == (if height > 2 * WINDOW_MARGIN {
            (height - 2 * WINDOW_MARGIN) as u32
        } else {
            1
        }),
{
    let w: u32 = if width > 16 {
        width - 16
    } else {
        1
    };
    let h: u32 = if height > 16 {
        height - 16
    } else {
        1
    };
    (WINDOW_MARGIN, WINDOW_MARGIN, w, h)
}

/// A pane on the screen: all of it, the grid below its titlebar, and whether its text
/// runs in several columns.
#[derive(Debug, Clone, Copy)]
pub struct PaneArea {
    pub id: u64,
    pub full: Area,
    pub content: Area,
    pub columned: bool,
}

/// Where a point lies in a pane's grid.
#[derive(Debug, Clone, Copy, PartialEq, Eq, Structural)]
pub enum Hit {
    /// In this column and row.
    Cell { pane: u64, col: usize, row: usize },
    /// In a pane of several columns, this far from the grid's corner. Which cell that
    /// is, the layout of the columns says.
    Columns { pane: u64, dx: i64, dy: i64 },
}

/// The first pane that has a point.
pub open spec fn pane_with(panes: Seq<PaneArea>, p: Point) -> Option<int>
    decreases panes.len(),
{
    if panes.len() == 0 {
        None
    } else {
        match pane_with(panes.drop_last(), p) {
            Some(i) => Some(i),
            None => if panes.last().full.has(p) {
                Some(panes.len() - 1)
            } else {
                None
            },
        }
    }
}

/// Where a point lies in a pane's grid, a cell being `cw` by `ch`: nowhere, in its
/// titlebar. What lies left of the grid counts as its first column.
pub open spec fn hit_in(pane: PaneArea, p: Point, cw: int, ch: int) -> Option<Hit> {
    if p.y < pane.content.y {
        None
    } else if pane.columned {
        Some(
            Hit::Columns {
                pane: pane.id,
                dx: (p.x - pane.content.x) as i64,
                dy: (p.y - pane.content.y) as i64,
            },
        )
    } else {
        Some(
            Hit::Cell {
                pane: pane.id,
                col: (if p.x > pane.content.x {
                    (p.x - pane.content.x) / cw
                } else {
                    0
                }) as usize,
                row: ((p.y - pane.content.y) / ch) as usize,
            },
        )
    }
}

proof fn lemma_pane_with_stays(panes: Seq<PaneArea>, p: Point, n: int)
    requires
        0 <= n <= panes.len(),
        pane_with(panes.take(n), p) is Some,
    ensures
        pane_with(panes, p) == pane_with(panes.take(n), p),
    decreases panes.len() - n,
{
    if n < panes.len() {
        assert(panes.take(n + 1).drop_last() =~= panes.take(n));
        lemma_pane_with_stays(panes, p, n + 1);
    } else {
        assert(panes.take(n) =~= panes);
    }
}

/// The first pane that has a point, as its position among `panes`.
pub fn pane_at(panes: &Vec<PaneArea>, p: Point) -> (r: Option<usize>)
    requires
        forall|i: int| 0 <= i < panes@.len() ==> (#[trigger] panes@[i]).full.wf(),
    ensures
        match r {
            Some(i) => pane_with(panes@, p) == Some(i as int) && i < panes@.len(),
            None => pane_with(panes@, p) is None,
        },
{
    let mut i: usize = 0;
    while i < panes.len()
        invariant
            i <= panes@.len(),
            forall|i: int| 0 <= i < panes@.len() ==> (#[trigger] panes@[i]).full.wf(),
            pane_with(panes@.take(i as int), p) is None,
        decreases panes@.len() - i,
    {
        assert(panes@.take(i + 1).drop_last() =~= panes@.take(i as int));
        if panes[i].full.contains(p) {
            proof {
                lemma_pane_with_stays(panes@, p, i + 1);
            }
            return Some(i);
        }
        i = i + 1;
    }
    assert(panes@.take(i as int) =~= panes@);
    None
}

/// The cell under a point, a cell being `cw` by `ch`: none over a gutter or a titlebar.
pub fn cell_at(panes: &Vec<PaneArea>, p: Point, cw: i64, ch: i64) -> (r: Option<Hit>)
    requires
        p.wf(),
        forall|i: int|
            0 <= i < panes@.len() ==> (#[trigger] panes@[i]).full.wf() && panes@[i].content.wf(),
        cw > 0,
        ch > 0,
    ensures
        r == (match pane_with(panes@, p) {
            Some(i) => hit_in(panes@[i], p, cw as int, ch as int),
            None => None,
        }),
{
    let i: usize = match pane_at(panes, p) {
        Some(i) => i,
        None => return None,
    };
    let pane: &PaneArea = &panes[i];
    if p.y < pane.content.y {
        return None;
    }
    let dx: i64 = p.x - pane.content.x;
    let dy: i64 = p.y - pane.content.y;
    if pane.columned {
        return Some(Hit::Columns { pane: pane.id, dx, dy });
    }
    let right: i64 = if dx > 0 {
        dx
    } else {
        0
    };
    proof {
        vstd::arithmetic::div_mod::lemma_div_is_ordered_by_denominator(right as int, 1, cw as int);
        vstd::arithmetic::div_mod::lemma_div_is_ordered_by_denominator(dy as int, 1, ch as int);
        vstd::arithmetic::div_mod::lemma_div_pos_is_pos(right as int, cw as int);
        vstd::arithmetic::div_mod::lemma_div_pos_is_pos(dy as int, ch as int);
        assert(right as int / 1 == right);
        assert(dy as int / 1 == dy);
    }
    Some(Hit::Cell { pane: pane.id, col: (right / cw) as usize, row: (dy / ch) as usize })
}

/// A pane's scrollbar: its left edge and width, and the thumb's upper edge and height.
#[derive(Debug, Clone, Copy, PartialEq, Eq, Structural)]
pub struct Scrollbar {
    pub x: i64,
    pub w: i64,
    pub thumb_y: i64,
    pub thumb_h: i64,
}

/// The least height of a thumb: it must stay easy to grab. In units.
pub const MIN_THUMB: i64 = 1_536;

/// The thumb's height: the visible part of the buffer, but never too small to grab, nor
/// taller than the track.
pub open spec fn thumb_height(track: int, history: int, screen: int) -> int {
    let share = if history + screen == 0 {
        0
    } else {
        screen * track / (history + screen)
    };
    let tall = if share > MIN_THUMB {
        share
    } else {
        MIN_THUMB as int
    };
    if tall < track {
        tall
    } else {
        track
    }
}

/// How far down its travel the thumb stands for an offset: at the bottom for none, at
/// the top for the whole history.
pub open spec fn thumb_down(travel: int, offset: int, history: int) -> int {
    let below = if history > offset {
        history - offset
    } else {
        0
    };
    let whole = if history > 1 {
        history
    } else {
        1
    };
    below * travel / whole
}

/// The scrollbar of a pane whose grid is `rect`: in the gutter to its right.
pub open spec fn scrollbar_of(rect: Area, offset: int, history: int, screen: int) -> Scrollbar {
    let h = thumb_height(rect.h as int, history, screen);
    Scrollbar {
        x: (rect.x + rect.w + SUB / 2) as i64,
        w: (4 * SUB) as i64,
        thumb_y: (rect.y + thumb_down(rect.h - h, offset, history)) as i64,
        thumb_h: h as i64,
    }
}

/// The most lines a buffer can hold.
pub const MAX_LINES: usize = 0x7fff_ffff;

proof fn lemma_share(a: int, b: int, track: int)
    requires
        0 <= a <= b,
        0 < b,
        0 <= track,
    ensures
        0 <= a * track / b <= track,
{
    assert(0 <= a * track <= b * track) by (nonlinear_arith)
        requires
            0 <= a <= b,
            0 <= track,
    ;
    vstd::arithmetic::div_mod::lemma_div_is_ordered(a * track, b * track, b);
    vstd::arithmetic::div_mod::lemma_div_is_ordered(0, a * track, b);
    vstd::arithmetic::div_mod::lemma_div_multiples_vanish(track, b);
    assert(b * track == track * b) by (nonlinear_arith);
}

/// The scrollbar of a pane whose grid is `rect` and which is scrolled back by `offset`
/// lines of its `history`, `screen` lines being shown. It stands in the gutter to the
/// right of the grid, clear of every cell. Drawing and grabbing share it.
pub fn scrollbar_metrics(rect: Area, offset: usize, history: usize, screen: usize) -> (r: Scrollbar)
    requires
        rect.wf(),
        history <= MAX_LINES,
        screen <= MAX_LINES,
    ensures
        r == scrollbar_of(rect, offset as int, history as int, screen as int),
        0 <= r.thumb_h <= rect.h,
        rect.y <= r.thumb_y,
        r.thumb_y + r.thumb_h <= rect.y + rect.h,
{
    let total: i128 = history as i128 + screen as i128;
    let track: i128 = rect.h as i128;
    proof {
        if total > 0 {
            lemma_share(screen as int, total as int, track as int);
        }
        assert(screen * track <= 0x7fff_ffff * 0x1_0000_0000) by (nonlinear_arith)
            requires
                0 <= screen <= 0x7fff_ffff,
                0 <= track <= 0x1_0000_0000,
        ;
        assert(0 <= screen * track) by (nonlinear_arith)
            requires
                0 <= screen,
                0 <= track,
        ;
    }
    let share: i128 = if total == 0 {
        0
    } else {
        screen as i128 * track / total
    };
    let tall: i128 = if share > MIN_THUMB as i128 {
        share
    } else {
        MIN_THUMB as i128
    };
    let h: i128 = if tall < track {
        tall
    } else {
        track
    };
    let travel: i128 = track - h;
    let below: i128 = if history > offset {
        (history - offset) as i128
    } else {
        0
    };
    let whole: i128 = if history > 1 {
        history as i128
    } else {
        1
    };
    proof {
        lemma_share(below as int, whole as int, travel as int);
        assert(0 <= below * travel <= 0x7fff_ffff * 0x1_0000_0000) by (nonlinear_arith)
            requires
                0 <= below <= 0x7fff_ffff,
                0 <= travel <= 0x1_0000_0000,
        ;
    }
    let down: i128 = below * travel / whole;
    Scrollbar {
        x: rect.x + rect.w + SUB / 2,
        w: 4 * SUB,
        thumb_y: rect.y + down as i64,
        thumb_h: h as i64,
    }
}

/// How far a pane is scrolled back, how much history it has, and how many lines it
/// shows.
#[derive(Debug, Clone, Copy, PartialEq, Eq, Structural)]
pub struct ScrollInfo {
    pub offset: usize,
    pub history: usize,
    pub screen: usize,
}

/// Whether a point lies on a pane's scrollbar, with a little room to spare beside it.
pub open spec fn on_scrollbar(rect: Area, bar: Scrollbar, p: Point) -> bool {
    bar.x - 2 * SUB <= p.x <= bar.x + bar.w + 2 * SUB && rect.y <= p.y <= rect.y + rect.h
}

/// The scrollbar that a point lies on, with its pane: only that of the pane under it, and
/// only where there is history to scroll.
pub fn scrollbar_at(panes: &Vec<PaneArea>, scroll: &Vec<ScrollInfo>, p: Point) -> (r: Option<(usize, Scrollbar)>)
    requires
        p.wf(),
        scroll@.len() == panes@.len(),
        forall|i: int|
            0 <= i < panes@.len() ==> (#[trigger] panes@[i]).full.wf() && panes@[i].content.wf(),
        forall|i: int|
            0 <= i < scroll@.len() ==> (#[trigger] scroll@[i]).history <= MAX_LINES && scroll@[i].screen
                <= MAX_LINES,
    ensures
        match pane_with(panes@, p) {
            None => r is None,
            Some(i) => {
                let s = scroll@[i];
                let bar = scrollbar_of(
                    panes@[i].content,
                    s.offset as int,
                    s.history as int,
                    s.screen as int,
                );
                if s.history > 0 && on_scrollbar(panes@[i].content, bar, p) {
                    r == Some((i as usize, bar))
                } else {
                    r is None
                }
            },
        },
{
    let i: usize = match pane_at(panes, p) {
        Some(i) => i,
        None => return None,
    };
    let s: ScrollInfo = scroll[i];
    if s.history == 0 {
        return None;
    }
    let rect: Area = panes[i].content;
    let bar: Scrollbar = scrollbar_metrics(rect, s.offset, s.history, s.screen);
    if p.x >= bar.x - 2 * SUB && p.x <= bar.x + bar.w + 2 * SUB && p.y >= rect.y && p.y <= rect.y + rect.h {
        Some((i, bar))
    } else {
        None
    }
}

/// The offset that puts the thumb's upper edge at `want`, rounded to the nearest line:
/// the whole history at the top of its travel, none at the bottom.
pub open spec fn offset_for(rect: Area, travel: int, history: int, want: int) -> int {
    let down = crate::settings::clamped(want, rect.y as int, rect.y + travel) - rect.y;
    (2 * history * (travel - down) + travel) / (2 * travel)
}

/// The offset that a drag of the scrollbar asks for, the thumb having been grabbed at
/// `grab` below its upper edge and the pointer being at `my`. Nothing, where there is
/// no history or the thumb fills the track.
pub fn drag_offset(rect: Area, offset: usize, history: usize, screen: usize, grab: i64, my: i64) -> (r: Option<
    usize,
>)
    requires
        rect.wf(),
        history <= MAX_LINES,
        screen <= MAX_LINES,
        -FAR <= grab <= FAR,
        -FAR <= my <= FAR,
    ensures
        ({
            let travel = rect.h - thumb_height(rect.h as int, history as int, screen as int);
            if history == 0 || travel <= 0 {
                r is None
            } else {
                r is Some && r->0 == offset_for(rect, travel, history as int, my - grab) && r->0 <= history
            }
        }),
{
    if history == 0 || rect.h <= 0 {
        return None;
    }
    let bar: Scrollbar = scrollbar_metrics(rect, offset, history, screen);
    let travel: i128 = rect.h as i128 - bar.thumb_h as i128;
    if travel <= 0 {
        return None;
    }
    let want: i64 = crate::settings::clamp(my - grab, rect.y, rect.y + travel as i64);
    let down: i128 = want as i128 - rect.y as i128;
    let left: i128 = travel - down;
    proof {
        assert(0 <= 2 * history * left <= 2 * 0x7fff_ffff * 0x1_0000_0000) by (nonlinear_arith)
            requires
                0 <= history <= 0x7fff_ffff,
                0 <= left <= 0x1_0000_0000,
        ;
        let num = 2 * history * left + travel;
        assert(num <= (2 * travel) * history + travel) by (nonlinear_arith)
            requires
                0 <= history,
                0 <= left <= travel,
                num == 2 * history * left + travel,
        ;
        vstd::arithmetic::div_mod::lemma_div_is_ordered(
            num as int,
            (2 * travel) * history + travel,
            2 * travel as int,
        );
        vstd::arithmetic::div_mod::lemma_div_multiples_vanish_fancy(
            history as int,
            travel as int,
            2 * travel as int,
        );
        assert(((2 * travel) * history + travel) / (2 * travel as int) == history) by {
            assert((2 * travel) * history == history * (2 * travel)) by (nonlinear_arith);
        }
        vstd::arithmetic::div_mod::lemma_div_pos_is_pos(num as int, 2 * travel as int);
    }
    let target: i128 = (2 * history as i128 * left + travel) / (2 * travel);
    Some(target as usize)
}

/// Both ends of the history can be reached by dragging: the thumb at the top of its
/// travel, or beyond, asks for all of it, and at the bottom for none.
pub proof fn both_ends_can_be_reached(rect: Area, travel: int, history: int, want: int)
    requires
        travel > 0,
        history > 0,
    ensures
        want <= rect.y ==> offset_for(rect, travel, history, want) == history,
        want >= rect.y + travel ==> offset_for(rect, travel, history, want) == 0,
{
    if want <= rect.y {
        vstd::arithmetic::div_mod::lemma_div_multiples_vanish_fancy(history, travel, 2 * travel);
        assert(2 * history * travel + travel == (2 * travel) * history + travel) by (nonlinear_arith);
    }
    if want >= rect.y + travel {
        assert(2 * history * 0 == 0) by (nonlinear_arith);
        vstd::arithmetic::div_mod::lemma_basic_div(travel, 2 * travel);
    }
}

/// The colour halfway between two, channel by channel.
pub open spec fn midpoint(a: u8, b: u8) -> u8 {
    ((a + b) / 2) as u8
}

/// The colour of the rules between columns of text: halfway between that of the text
/// and that of the background.
pub fn column_separator(fg: Rgb, bg: Rgb) -> (r: Rgb)
    ensures
        r == (Rgb { r: midpoint(fg.r, bg.r), g: midpoint(fg.g, bg.g), b: midpoint(fg.b, bg.b) }),
{
    Rgb {
        r: ((fg.r as u16 + bg.r as u16) / 2) as u8,
        g: ((fg.g as u16 + bg.g as u16) / 2) as u8,
        b: ((fg.b as u16 + bg.b as u16) / 2) as u8,
    }
}

} // verus!

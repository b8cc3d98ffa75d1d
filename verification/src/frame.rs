//! How much of the window a frame must paint.
//!
//! A frame that repaints only what changed is far cheaper than a whole one, over a slow
//! line above all; but it is right only where the rest of the window still holds what it
//! held. Every doubt is settled by painting the whole.
use vstd::prelude::*;

verus! {

/// A rectangle of whole pixels.
#[derive(Debug, Clone, Copy, PartialEq, Eq, Structural)]
pub struct PxRect {
    pub x: i32,
    pub y: i32,
    pub w: i32,
    pub h: i32,
}

/// The greatest coordinate or size, in pixels: far beyond any screen.
pub const FAR_PX: i32 = 0x0fff_ffff;

impl PxRect {
    /// Whether the rectangle can be anywhere on a screen.
    pub open spec fn wf(&self) -> bool {
        &&& -FAR_PX <= self.x <= FAR_PX && -FAR_PX <= self.y <= FAR_PX
        &&& 0 <= self.w <= FAR_PX && 0 <= self.h <= FAR_PX
    }

    /// Whether the rectangle holds a pixel.
    pub open spec fn has(&self, x: int, y: int) -> bool {
        self.x <= x < self.x + self.w && self.y <= y < self.y + self.h
    }

    /// Whether the rectangle spans all of another.
    pub open spec fn spans(&self, r: PxRect) -> bool {
        self.x <= r.x && self.y <= r.y && r.x + r.w <= self.x + self.w && r.y + r.h <= self.y + self.h
    }
}

/// The smaller of two numbers.
pub open spec fn least(a: int, b: int) -> int {
    if a < b {
        a
    } else {
        b
    }
}

/// The greater of two numbers.
pub open spec fn most(a: int, b: int) -> int {
    if a > b {
        a
    } else {
        b
    }
}

/// The smallest rectangle that spans two.
pub open spec fn union_of(a: PxRect, b: PxRect) -> PxRect {
    let x = least(a.x as int, b.x as int);
    let y = least(a.y as int, b.y as int);
    PxRect {
        x: x as i32,
        y: y as i32,
        w: (most(a.x + a.w, b.x + b.w) - x) as i32,
        h: (most(a.y + a.h, b.y + b.h) - y) as i32,
    }
}

/// Rectangles that can be anywhere on a screen, and so can their union.
pub open spec fn near(r: PxRect) -> bool {
    &&& -FAR_PX / 4 <= r.x <= FAR_PX / 4 && -FAR_PX / 4 <= r.y <= FAR_PX / 4
    &&& 0 <= r.w && r.x + r.w <= FAR_PX / 4 && 0 <= r.h && r.y + r.h <= FAR_PX / 4
}

fn union(a: PxRect, b: PxRect) -> (r: PxRect)
    requires
        near(a),
        near(b),
    ensures
        r == union_of(a, b),
        near(r),
        r.spans(a),
        r.spans(b),
{
    let x: i32 = if a.x < b.x {
        a.x
    } else {
        b.x
    };
    let y: i32 = if a.y < b.y {
        a.y
    } else {
        b.y
    };
    let right: i32 = if a.x + a.w > b.x + b.w {
        a.x + a.w
    } else {
        b.x + b.w
    };
    let bottom: i32 = if a.y + a.h > b.y + b.h {
        a.y + a.h
    } else {
        b.y + b.h
    };
    PxRect { x, y, w: right - x, h: bottom - y }
}

/// The smallest rectangle that spans all of several: none, where there are none.
pub open spec fn bbox_of(rects: Seq<PxRect>) -> Option<PxRect>
    decreases rects.len(),
{
    if rects.len() == 0 {
        None
    } else {
        match bbox_of(rects.drop_last()) {
            None => Some(rects.last()),
            Some(b) => Some(union_of(b, rects.last())),
        }
    }
}

/// Whether all of several rectangles can be on a screen.
pub open spec fn all_near(rects: Seq<PxRect>) -> bool {
    forall|i: int| 0 <= i < rects.len() ==> near(#[trigger] rects[i])
}

/// A bounding box spans every rectangle it bounds, and no smaller one does.
pub proof fn a_bounding_box_is_tight(rects: Seq<PxRect>, other: PxRect)
    requires
        rects.len() > 0,
        all_near(rects),
    ensures
        near(bbox_of(rects)->0),
        forall|i: int| 0 <= i < rects.len() ==> bbox_of(rects)->0.spans(#[trigger] rects[i]),
        (forall|i: int| 0 <= i < rects.len() ==> other.spans(#[trigger] rects[i])) ==> other.spans(
            bbox_of(rects)->0,
        ),
    decreases rects.len(),
{
    let rest = rects.drop_last();
    assert(rects.last() == rects[rects.len() - 1]);
    if rest.len() > 0 {
        assert(all_near(rest)) by {
            assert forall|i: int| 0 <= i < rest.len() implies near(#[trigger] rest[i]) by {
                assert(rest[i] == rects[i]);
            }
        }
        a_bounding_box_is_tight(rest, other);
        assert forall|i: int| 0 <= i < rects.len() implies bbox_of(rects)->0.spans(#[trigger] rects[i]) by {
            if i < rest.len() {
                assert(rest[i] == rects[i]);
            }
        }
        if forall|i: int| 0 <= i < rects.len() ==> other.spans(#[trigger] rects[i]) {
            assert forall|i: int| 0 <= i < rest.len() implies other.spans(#[trigger] rest[i]) by {
                assert(rest[i] == rects[i]);
            }
            assert(other.spans(rects[rects.len() - 1]));
        }
    }
}

fn bbox(rects: &Vec<PxRect>) -> (r: Option<PxRect>)
    requires
        all_near(rects@),
    ensures
        r == bbox_of(rects@),
        r is Some ==> near(r->0),
{
    let mut out: Option<PxRect> = None;
    let mut i: usize = 0;
    while i < rects.len()
        invariant
            i <= rects@.len(),
            all_near(rects@),
            out == bbox_of(rects@.take(i as int)),
            out is Some ==> near(out->0),
        decreases rects@.len() - i,
    {
        assert(rects@.take(i + 1).drop_last() =~= rects@.take(i as int));
        out = match out {
            None => Some(rects[i]),
            Some(b) => Some(union(b, rects[i])),
        };
        i = i + 1;
    }
    assert(rects@.take(i as int) =~= rects@);
    out
}

/// The width of the bands round a pane that carry its chrome.
pub const BORDER_PX: i32 = 6;

/// The bands round a pane: above, below, left and right. The one above is as tall as the
/// titlebar, where there is one.
pub fn border_bands(r: PxRect, titlebar: i32) -> (b: (PxRect, PxRect, PxRect, PxRect))
    requires
        r.wf(),
    ensures
        seq![b.0, b.1, b.2, b.3] == bands(r, titlebar as int),
{
    let top: i32 = if titlebar > BORDER_PX {
        titlebar
    } else {
        BORDER_PX
    };
    (
        PxRect { x: r.x, y: r.y, w: r.w, h: top },
        PxRect { x: r.x, y: r.y + r.h - BORDER_PX, w: r.w, h: BORDER_PX },
        PxRect { x: r.x, y: r.y, w: BORDER_PX, h: r.h },
        PxRect { x: r.x + r.w - BORDER_PX, y: r.y, w: BORDER_PX, h: r.h },
    )
}

/// What of a pane is drawn anew with every frame: the bands round it, and its swatch while
/// that pulses.
#[derive(Debug, Clone, Copy, PartialEq, Eq, Structural)]
pub struct PaneChrome {
    pub rect: PxRect,
    /// Where its swatch is, if the pane gets what is typed elsewhere.
    pub swatch: Option<PxRect>,
}

/// The band above a pane: as tall as the titlebar, where there is one.
pub open spec fn top_band(r: PxRect, titlebar: int) -> PxRect {
    PxRect {
        h: (if titlebar > BORDER_PX {
            titlebar
        } else {
            BORDER_PX as int
        }) as i32,
        ..r
    }
}

/// The bands round a pane, in order: above, below, left and right.
pub open spec fn bands(r: PxRect, titlebar: int) -> Seq<PxRect> {
    seq![
        top_band(r, titlebar),
        PxRect { y: (r.y + r.h - BORDER_PX) as i32, h: BORDER_PX, ..r },
        PxRect { w: BORDER_PX, ..r },
        PxRect { x: (r.x + r.w - BORDER_PX) as i32, w: BORDER_PX, ..r },
    ]
}

/// The bands round the first `n` panes.
pub open spec fn all_bands(panes: Seq<PaneChrome>, titlebar: int, n: nat) -> Seq<PxRect>
    decreases n,
{
    if n == 0 {
        Seq::empty()
    } else {
        all_bands(panes, titlebar, (n - 1) as nat) + bands(panes[n - 1].rect, titlebar)
    }
}

/// The pulsing swatches of the first `n` panes.
pub open spec fn all_swatches(panes: Seq<PaneChrome>, n: nat) -> Seq<PxRect>
    decreases n,
{
    if n == 0 {
        Seq::empty()
    } else {
        match panes[n - 1].swatch {
            Some(s) => all_swatches(panes, (n - 1) as nat).push(s),
            None => all_swatches(panes, (n - 1) as nat),
        }
    }
}

/// What chrome adds to the damage of a frame that is not whole: the bands round every
/// pane, unless the window keeps them, and the swatches that pulse, while what is typed
/// goes to more than the focused pane and there are titlebars to show them in. Nothing
/// else of the chrome moves without a whole frame.
pub fn chrome_damage(panes: &Vec<PaneChrome>, titlebar: i32, keeps_borders: bool, broadcasting: bool) -> (r: Vec<PxRect>)
    requires
        forall|i: int| 0 <= i < panes@.len() ==> (#[trigger] panes@[i]).rect.wf(),
    ensures
        r@ == (if keeps_borders {
            Seq::empty()
        } else {
            all_bands(panes@, titlebar as int, panes@.len())
        }) + (if broadcasting && titlebar > 0 {
            all_swatches(panes@, panes@.len())
        } else {
            Seq::empty()
        }),
{
    let mut out: Vec<PxRect> = Vec::new();
    if !keeps_borders {
        let mut i: usize = 0;
        while i < panes.len()
            invariant
                i <= panes@.len(),
                forall|i: int| 0 <= i < panes@.len() ==> (#[trigger] panes@[i]).rect.wf(),
                out@ == all_bands(panes@, titlebar as int, i as nat),
            decreases panes@.len() - i,
        {
            let ghost before = out@;
            assert(panes@[i as int].rect.wf());
            let (top, bottom, left, right): (PxRect, PxRect, PxRect, PxRect) = border_bands(
                panes[i].rect,
                titlebar,
            );
            assert(seq![top, bottom, left, right] == bands(panes@[i as int].rect, titlebar as int));
            out.push(top);
            out.push(bottom);
            out.push(left);
            out.push(right);
            i = i + 1;
            assert(out@ =~= before + seq![top, bottom, left, right]);
        }
    }
    let ghost banded = out@;
    assert(banded + Seq::<PxRect>::empty() =~= banded);
    if broadcasting && titlebar > 0 {
        let mut i: usize = 0;
        while i < panes.len()
            invariant
                i <= panes@.len(),
                out@ == banded + all_swatches(panes@, i as nat),
            decreases panes@.len() - i,
        {
            let ghost before = all_swatches(panes@, i as nat);
            if let Some(s) = panes[i].swatch {
                out.push(s);
                assert(out@ =~= banded + before.push(s));
            }
            i = i + 1;
        }
    }
    out
}

/// What a frame must paint.
#[derive(Debug, Clone)]
pub enum FrameDamage {
    Full,
    Rects(Vec<PxRect>),
}

/// What a frame must paint, as a sequence: nothing stands for everything.
pub open spec fn damage_view(d: FrameDamage) -> Option<Seq<PxRect>> {
    match d {
        FrameDamage::Full => None,
        FrameDamage::Rects(rs) => Some(rs@),
    }
}

/// The damage of several frames.
pub open spec fn damage_views(h: Seq<FrameDamage>) -> Seq<Option<Seq<PxRect>>> {
    Seq::new(h.len(), |i: int| damage_view(h[i]))
}

/// What is decided about a frame: to paint everything, or what lies in a box, naming the
/// rectangles in it.
#[derive(Debug, Clone)]
pub enum FramePlan {
    Full,
    Partial(PxRect, Vec<PxRect>),
}

/// How many frames back it is known what was painted.
pub const HISTORY_DEPTH: usize = 2;

/// The damage of the first `n` of several frames, if none of them was whole.
pub open spec fn gathered(h: Seq<Option<Seq<PxRect>>>, n: nat) -> Option<Seq<PxRect>>
    decreases n,
{
    if n == 0 {
        Some(Seq::empty())
    } else if n > h.len() {
        gathered(h, (n - 1) as nat)
    } else {
        match (gathered(h, (n - 1) as nat), h[n - 1]) {
            (Some(before), Some(rs)) => Some(before + rs),
            _ => None,
        }
    }
}

/// The history with one more frame in front, and no older ones than are kept.
pub open spec fn remembered(h: Seq<Option<Seq<PxRect>>>, this: Option<Seq<PxRect>>) -> Seq<Option<Seq<PxRect>>> {
    let all = seq![this] + h;
    if all.len() > HISTORY_DEPTH {
        all.take(HISTORY_DEPTH as int)
    } else {
        all
    }
}

/// Whether every rectangle of a history can be on a screen.
pub open spec fn history_near(h: Seq<FrameDamage>) -> bool {
    forall|i: int|
        #![trigger h[i]]
        0 <= i < h.len() ==> match h[i] {
            FrameDamage::Full => true,
            FrameDamage::Rects(rs) => all_near(rs@),
        }
}

/// Decide what a frame paints. `age` is how many frames ago what is in its buffer was
/// painted, or nothing where that is not known: all that was damaged since must be
/// painted again. The frame's own damage is remembered for those to come, the newest
/// first.
#[verifier::loop_isolation(false)]
pub fn plan_frame(history: &mut Vec<FrameDamage>, this: FrameDamage, age: usize) -> (r: FramePlan)
    requires
        history_near(old(history)@),
        history_near(seq![this]),
    ensures
        history_near(final(history)@),
        damage_views(final(history)@) == remembered(damage_views(old(history)@), damage_view(this)),
        ({
            let known = remembered(damage_views(old(history)@), damage_view(this));
            let damaged = gathered(known, age as nat);
            if age == 0 || age > HISTORY_DEPTH || damaged is None {
                r is Full
            } else {
                &&& r is Partial
                &&& r->Partial_1@ == damaged->0
                &&& r->Partial_0 == (match bbox_of(damaged->0) {
                    Some(b) => b,
                    None => PxRect { x: 0, y: 0, w: 0, h: 0 },
                })
            }
        }),
{
    let ghost before = damage_views(history@);
    let ghost now = damage_view(this);
    assert(history_near(seq![this]) ==> match this {
        FrameDamage::Full => true,
        FrameDamage::Rects(rs) => all_near(rs@),
    }) by {
        assert(seq![this][0] == this);
    }
    let ghost earlier = history@;
    history.insert(0, this);
    assert(history@ =~= seq![this] + earlier);
    assert(damage_views(history@) =~= seq![now] + before);
    assert(history_near(history@)) by {
        assert forall|i: int|
            #![trigger history@[i]]
            0 <= i < history@.len() implies match history@[i] {
            FrameDamage::Full => true,
            FrameDamage::Rects(rs) => all_near(rs@),
        } by {
            if i > 0 {
                assert(history@[i] == earlier[i - 1]);
            }
        }
    }
    let ghost all = damage_views(history@);
    while history.len() > HISTORY_DEPTH
        invariant
            history_near(history@),
            history@.len() <= all.len(),
            history@.len() == all.len() || history@.len() >= HISTORY_DEPTH,
            damage_views(history@) == all.take(history@.len() as int),
        decreases history@.len(),
    {
        let ghost longer = history@;
        history.pop();
        assert(history@ =~= longer.drop_last());
        assert(damage_views(history@) =~= all.take(history@.len() as int));
        assert forall|i: int|
            #![trigger history@[i]]
            0 <= i < history@.len() implies match history@[i] {
            FrameDamage::Full => true,
            FrameDamage::Rects(rs) => all_near(rs@),
        } by {
            assert(history@[i] == longer[i]);
        }
    }
    assert(all.take(all.len() as int) =~= all);
    let ghost known = damage_views(history@);
    assert(known == remembered(before, now));
    if age == 0 || age > HISTORY_DEPTH {
        return FramePlan::Full;
    }
    let mut rects: Vec<PxRect> = Vec::new();
    let mut k: usize = 0;
    assert(rects@ =~= Seq::empty());
    while k < age
        invariant
            k <= age <= HISTORY_DEPTH,
            history_near(history@),
            known == damage_views(history@),
            gathered(known, k as nat) == Some(rects@),
            all_near(rects@),
        decreases age - k,
    {
        if k < history.len() {
            match &history[k] {
                FrameDamage::Full => {
                    proof {
                        lemma_gathered_none(known, (k + 1) as nat, age as nat);
                    }
                    return FramePlan::Full;
                },
                FrameDamage::Rects(rs) => {
                    let ghost so_far = rects@;
                    let mut i: usize = 0;
                    assert(all_near(rs@));
                    assert(so_far + rs@.take(0) =~= so_far);
                    while i < rs.len()
                        invariant
                            i <= rs@.len(),
                            rects@ == so_far + rs@.take(i as int),
                            all_near(rs@),
                            all_near(rects@),
                        decreases rs@.len() - i,
                    {
                        rects.push(rs[i]);
                        i = i + 1;
                        assert(rects@ =~= so_far + rs@.take(i as int));
                    }
                    assert(rs@.take(i as int) =~= rs@);
                },
            }
        }
        k = k + 1;
    }
    let b: PxRect = match bbox(&rects) {
        Some(b) => b,
        None => PxRect { x: 0, y: 0, w: 0, h: 0 },
    };
    FramePlan::Partial(b, rects)
}

proof fn lemma_gathered_none(h: Seq<Option<Seq<PxRect>>>, n: nat, m: nat)
    requires
        n <= m,
        gathered(h, n) is None,
    ensures
        gathered(h, m) is None,
    decreases m,
{
    if n < m {
        lemma_gathered_none(h, n, (m - 1) as nat);
    }
}

proof fn lemma_gathered_has(h: Seq<Option<Seq<PxRect>>>, n: nat, k: int, i: int)
    requires
        gathered(h, n) is Some,
        0 <= k < n,
        k < h.len(),
    ensures
        h[k] is Some,
        0 <= i < h[k]->0.len() ==> gathered(h, n)->0.contains(h[k]->0[i]),
    decreases n,
{
    if k == n - 1 {
        if 0 <= i < h[k]->0.len() {
            let before = gathered(h, (n - 1) as nat)->0;
            let all = gathered(h, n)->0;
            assert(all[before.len() + i] == h[k]->0[i]);
        }
    } else {
        lemma_gathered_has(h, (n - 1) as nat, k, i);
        if 0 <= i < h[k]->0.len() {
            let before = gathered(h, (n - 1) as nat)->0;
            let j = choose|j: int| 0 <= j < before.len() && before[j] == h[k]->0[i];
            assert(gathered(h, n)->0[j] == h[k]->0[i]);
        }
    }
}

/// A partial frame misses nothing: every rectangle damaged since its buffer was painted
/// lies in its box.
pub proof fn a_partial_frame_misses_nothing(h: Seq<Option<Seq<PxRect>>>, age: nat, k: int, i: int)
    requires
        gathered(h, age) is Some,
        all_near(gathered(h, age)->0),
        0 <= k < age,
        k < h.len(),
        h[k] is Some,
        0 <= i < h[k]->0.len(),
    ensures
        bbox_of(gathered(h, age)->0) is Some,
        bbox_of(gathered(h, age)->0)->0.spans(h[k]->0[i]),
{
    lemma_gathered_has(h, age, k, i);
    let all = gathered(h, age)->0;
    let j = choose|j: int| 0 <= j < all.len() && all[j] == h[k]->0[i];
    a_bounding_box_is_tight(all, all[j]);
}

/// What a frame depends on, beside its panes.
#[derive(Debug, Clone, Copy, PartialEq, Eq, Structural)]
pub struct FrameFacts {
    /// The next frame must be painted whole.
    pub force_full: bool,
    /// The focus is where it was at the last frame.
    pub focus_kept: bool,
    /// Something is open over the terminal.
    pub overlay: bool,
    /// A pane's bell is being shown.
    pub bell: bool,
    /// The processor paints, not a graphics card.
    pub software: bool,
    pub gl: bool,
    /// There are wires.
    pub wires: bool,
    /// The window keeps what is not painted.
    pub partial_present: bool,
    /// The window's surface is about to be resized.
    pub surface_pending: bool,
    /// What is typed goes to more than the focused pane.
    pub broadcasting: bool,
    /// The window can move its own contents.
    pub can_blit: bool,
}

/// Whether chrome has moved since the last frame.
pub open spec fn chrome_moved(f: FrameFacts) -> bool {
    f.force_full || !f.focus_kept
}

/// Whether a frame must be painted whole, whatever the panes say.
pub open spec fn must_be_full(f: FrameFacts) -> bool {
    chrome_moved(f) || f.overlay || f.bell || !f.software || (f.gl && f.wires) || !f.partial_present
}

/// Whether a frame must be painted whole, whatever the panes say: where chrome moved, or
/// lies over everything, or where the window does not keep what is not painted.
pub fn needs_full(f: &FrameFacts) -> (r: bool)
    ensures
        r == must_be_full(*f),
{
    f.force_full || !f.focus_kept || f.overlay || f.bell || !f.software || (f.gl && f.wires)
        || !f.partial_present
}

/// Whether a frame is painted at all: not while the window is being resized, since every
/// such frame would be thrown away.
pub fn paints(f: &FrameFacts) -> (r: bool)
    ensures
        r == !f.surface_pending,
{
    !f.surface_pending
}

/// Whether the frame after this one must be painted whole: where something was open over
/// this one, which must be cleared when it closes, or where painting a part failed.
pub fn full_next(f: &FrameFacts, partial_failed: bool) -> (r: bool)
    ensures
        r == (f.overlay || partial_failed),
{
    f.overlay || partial_failed
}

/// A run of cells that changed.
#[derive(Debug, Clone, Copy, PartialEq, Eq, Structural)]
pub struct Span {
    pub line: u16,
    pub left: u16,
    pub right: u16,
}

/// What changed in a pane.
#[derive(Debug, Clone)]
pub enum PaneDamage {
    /// These runs of cells: none, where nothing changed.
    Runs(Vec<Span>),
    /// All of it moved up by so many lines, and these runs changed.
    Scroll(u16, Vec<Span>),
    Full,
}

/// A pane of a frame: where its grid is, whether its text runs in several columns, and
/// what changed.
#[derive(Debug, Clone)]
pub struct FramePane {
    pub content: PxRect,
    pub columned: bool,
    pub damage: PaneDamage,
}

/// How a frame moves the window's own contents: which rectangle goes up by how many
/// pixels, what is to be painted after that, and what is to be shown.
#[derive(Debug, Clone)]
pub struct Blit {
    pub moves: Vec<(PxRect, i32)>,
    pub paint: PxRect,
    pub show: PxRect,
}

/// The rectangle of a run of cells.
pub open spec fn span_rect(content: PxRect, s: Span, cw: int, ch: int) -> PxRect {
    PxRect {
        x: (content.x + s.left * cw) as i32,
        y: (content.y + s.line * ch) as i32,
        w: ((s.right - s.left + 1) * cw) as i32,
        h: ch as i32,
    }
}

/// The rectangles of runs of cells.
pub open spec fn span_rects(content: PxRect, spans: Seq<Span>, cw: int, ch: int) -> Seq<PxRect> {
    Seq::new(spans.len(), |i: int| span_rect(content, spans[i], cw, ch))
}

/// Whether a pane fits a frame that only scrolls: nothing in it changed, or it is a pane
/// of one column that scrolled.
pub open spec fn only_scrolls(p: FramePane) -> bool {
    match p.damage {
        PaneDamage::Runs(spans) => spans@.len() == 0,
        PaneDamage::Scroll(_, _) => !p.columned,
        PaneDamage::Full => false,
    }
}

/// The moves of a frame that only scrolls.
pub open spec fn scroll_moves(panes: Seq<FramePane>, ch: int) -> Seq<(PxRect, i32)>
    decreases panes.len(),
{
    if panes.len() == 0 {
        Seq::empty()
    } else {
        let before = scroll_moves(panes.drop_last(), ch);
        match panes.last().damage {
            PaneDamage::Scroll(lines, _) => before.push((panes.last().content, (lines * ch) as i32)),
            _ => before,
        }
    }
}

/// The grids that scrolled.
pub open spec fn scrolled_grids(panes: Seq<FramePane>) -> Seq<PxRect>
    decreases panes.len(),
{
    if panes.len() == 0 {
        Seq::empty()
    } else {
        let before = scrolled_grids(panes.drop_last());
        match panes.last().damage {
            PaneDamage::Scroll(_, _) => before.push(panes.last().content),
            _ => before,
        }
    }
}

/// The runs of cells to be painted after the moves.
pub open spec fn scrolled_spans(panes: Seq<FramePane>, cw: int, ch: int) -> Seq<PxRect>
    decreases panes.len(),
{
    if panes.len() == 0 {
        Seq::empty()
    } else {
        let before = scrolled_spans(panes.drop_last(), cw, ch);
        match panes.last().damage {
            PaneDamage::Scroll(_, spans) => before + span_rects(panes.last().content, spans@, cw, ch),
            _ => before,
        }
    }
}

/// Whether runs of cells can be on a screen.
pub open spec fn spans_near(content: PxRect, spans: Seq<Span>, cw: int, ch: int) -> bool {
    forall|i: int|
        0 <= i < spans.len() ==> (#[trigger] spans[i]).left <= spans[i].right && near(
            span_rect(content, spans[i], cw, ch),
        )
}

/// Whether a pane and its runs of cells can be on a screen.
pub open spec fn pane_near(p: FramePane, cw: int, ch: int) -> bool {
    &&& near(p.content)
    &&& match p.damage {
        PaneDamage::Runs(spans) => spans_near(p.content, spans@, cw, ch),
        PaneDamage::Scroll(_, spans) => spans_near(p.content, spans@, cw, ch),
        PaneDamage::Full => true,
    }
}

/// The runs of cells that changed in panes that did not scroll.
pub open spec fn changed_cells(panes: Seq<FramePane>, cw: int, ch: int) -> Seq<PxRect>
    decreases panes.len(),
{
    if panes.len() == 0 {
        Seq::empty()
    } else {
        let before = changed_cells(panes.drop_last(), cw, ch);
        match panes.last().damage {
            PaneDamage::Runs(spans) => before + span_rects(panes.last().content, spans@, cw, ch),
            _ => before,
        }
    }
}

/// Whether it can be told which cells of a pane changed: it has one column, whose cells
/// have one place each, and it names the runs.
pub open spec fn names_cells(p: FramePane) -> bool {
    !p.columned && p.damage is Runs
}

/// Whether a frame may move the window's contents at all: where it can, and nothing but
/// the panes' own contents changed.
pub open spec fn may_blit(f: FrameFacts) -> bool {
    f.can_blit && !chrome_moved(f) && !f.overlay && !f.bell && !f.wires && !f.broadcasting
}

fn push_spans(out: &mut Vec<PxRect>, content: PxRect, spans: &Vec<Span>, cw: i32, ch: i32)
    requires
        0 < cw <= 4096,
        0 < ch <= 4096,
        near(content),
        all_near(old(out)@),
        spans_near(content, spans@, cw as int, ch as int),
    ensures
        final(out)@ == old(out)@ + span_rects(content, spans@, cw as int, ch as int),
        all_near(final(out)@),
{
    let ghost all = span_rects(content, spans@, cw as int, ch as int);
    let mut i: usize = 0;
    assert(out@ =~= old(out)@ + all.take(0));
    while i < spans.len()
        invariant
            i <= spans@.len(),
            0 < cw <= 4096,
            0 < ch <= 4096,
            near(content),
            all == span_rects(content, spans@, cw as int, ch as int),
            all_near(out@),
            spans_near(content, spans@, cw as int, ch as int),
            out@ == old(out)@ + all.take(i as int),
        decreases spans@.len() - i,
    {
        let s: Span = spans[i];
        assert(spans@[i as int].left <= spans@[i as int].right);
        proof {
            assert(0 <= s.left * cw <= 65535 * 4096) by (nonlinear_arith)
                requires
                    0 <= s.left <= 65535,
                    0 < cw <= 4096,
            ;
            assert(0 <= s.line * ch <= 65535 * 4096) by (nonlinear_arith)
                requires
                    0 <= s.line <= 65535,
                    0 < ch <= 4096,
            ;
            assert(0 <= (s.right - s.left + 1) * cw <= 65536 * 4096) by (nonlinear_arith)
                requires
                    0 <= s.left <= s.right <= 65535,
                    0 < cw <= 4096,
            ;
        }
        let wide: i64 = (s.right as i64 - s.left as i64 + 1) * cw as i64;
        let across: i64 = s.left as i64 * cw as i64;
        let down: i64 = s.line as i64 * ch as i64;
        let r: PxRect = PxRect {
            x: content.x + across as i32,
            y: content.y + down as i32,
            w: wide as i32,
            h: ch,
        };
        assert(r == span_rect(content, s, cw as int, ch as int));
        assert(all.take(i + 1) =~= all.take(i as int).push(r));
        out.push(r);
        i = i + 1;
        assert(out@ =~= old(out)@ + all.take(i as int));
    }
    assert(all.take(i as int) =~= all);
}

/// What a frame must paint: everything, where it must be whole or a pane cannot tell which
/// of its cells changed; otherwise those cells, pane by pane, and then the `chrome`.
pub fn frame_damage(facts: &FrameFacts, panes: &Vec<FramePane>, cw: i32, ch: i32, chrome: Vec<PxRect>) -> (r:
    FrameDamage)
    requires
        0 < cw <= 4096,
        0 < ch <= 4096,
        forall|i: int| 0 <= i < panes@.len() ==> pane_near(#[trigger] panes@[i], cw as int, ch as int),
    ensures
        r is Full <==> must_be_full(*facts) || exists|i: int|
            0 <= i < panes@.len() && !names_cells(#[trigger] panes@[i]),
        r is Rects ==> r->Rects_0@ == changed_cells(panes@, cw as int, ch as int) + chrome@,
        all_near(chrome@) ==> history_near(seq![r]),
{
    if needs_full(facts) {
        return FrameDamage::Full;
    }
    let mut rects: Vec<PxRect> = Vec::new();
    let mut i: usize = 0;
    assert(rects@ =~= changed_cells(panes@.take(0), cw as int, ch as int));
    while i < panes.len()
        invariant
            i <= panes@.len(),
            0 < cw <= 4096,
            0 < ch <= 4096,
            forall|i: int| 0 <= i < panes@.len() ==> pane_near(#[trigger] panes@[i], cw as int, ch as int),
            forall|k: int| 0 <= k < i ==> names_cells(#[trigger] panes@[k]),
            rects@ == changed_cells(panes@.take(i as int), cw as int, ch as int),
            all_near(rects@),
        decreases panes@.len() - i,
    {
        let p: &FramePane = &panes[i];
        assert(panes@.take(i + 1).drop_last() =~= panes@.take(i as int));
        assert(panes@.take(i + 1).last() == *p);
        assert(pane_near(panes@[i as int], cw as int, ch as int));
        if p.columned {
            assert(!names_cells(panes@[i as int]));
            return FrameDamage::Full;
        }
        match &p.damage {
            PaneDamage::Runs(runs) => push_spans(&mut rects, p.content, runs, cw, ch),
            _ => {
                assert(!names_cells(panes@[i as int]));
                return FrameDamage::Full;
            },
        }
        i = i + 1;
    }
    assert(panes@.take(i as int) =~= panes@);
    let ghost cells = rects@;
    let mut k: usize = 0;
    assert(cells + chrome@.take(0) =~= cells);
    while k < chrome.len()
        invariant
            k <= chrome@.len(),
            rects@ == cells + chrome@.take(k as int),
            all_near(cells),
            all_near(chrome@) ==> all_near(rects@),
        decreases chrome@.len() - k,
    {
        rects.push(chrome[k]);
        k = k + 1;
        assert(rects@ =~= cells + chrome@.take(k as int));
    }
    assert(chrome@.take(k as int) =~= chrome@);
    FrameDamage::Rects(rects)
}

/// A frame that is not painted whole paints every run of cells that changed.
pub proof fn a_damaged_cell_is_painted(panes: Seq<FramePane>, chrome: Seq<PxRect>, cw: int, ch: int, i: int, k: int)
    requires
        0 <= i < panes.len(),
        panes[i].damage is Runs,
        0 <= k < panes[i].damage->Runs_0@.len(),
    ensures
        (changed_cells(panes, cw, ch) + chrome).contains(
            span_rect(panes[i].content, panes[i].damage->Runs_0@[k], cw, ch),
        ),
    decreases panes.len(),
{
    let all = changed_cells(panes, cw, ch);
    let before = changed_cells(panes.drop_last(), cw, ch);
    let wanted = span_rect(panes[i].content, panes[i].damage->Runs_0@[k], cw, ch);
    if i == panes.len() - 1 {
        assert((all + chrome)[before.len() + k] == wanted);
    } else {
        a_damaged_cell_is_painted(panes.drop_last(), Seq::empty(), cw, ch, i, k);
        assert(before + Seq::empty() =~= before);
        let j = choose|j: int| 0 <= j < before.len() && before[j] == wanted;
        assert((all + chrome)[j] == wanted);
    }
}

/// Decide whether a frame can be painted by moving the window's own contents: where
/// every pane that changed has only scrolled, and nothing else has. Then only the runs
/// of cells that came into view are painted.
pub fn plan_blit(f: &FrameFacts, panes: &Vec<FramePane>, cw: i32, ch: i32) -> (r: Option<Blit>)
    requires
        0 < cw <= 4096,
        0 < ch <= 4096,
        forall|i: int| 0 <= i < panes@.len() ==> pane_near(#[trigger] panes@[i], cw as int, ch as int),
    ensures
        ({
            let painted = bbox_of(scrolled_spans(panes@, cw as int, ch as int));
            let shown = bbox_of(scrolled_grids(panes@));
            let fits = may_blit(*f) && (forall|i: int|
                0 <= i < panes@.len() ==> only_scrolls(#[trigger] panes@[i])) && painted is Some
                && shown is Some;
            &&& r is Some <==> fits
            &&& fits ==> {
                &&& r->0.moves@ == scroll_moves(panes@, ch as int)
                &&& r->0.paint == painted->0
                &&& r->0.show == shown->0
            }
        }),
{
    if !f.can_blit || f.force_full || !f.focus_kept || f.overlay || f.bell || f.wires || f.broadcasting {
        return None;
    }
    let mut moves: Vec<(PxRect, i32)> = Vec::new();
    let mut grids: Vec<PxRect> = Vec::new();
    let mut spans: Vec<PxRect> = Vec::new();
    let mut i: usize = 0;
    assert(moves@ =~= scroll_moves(panes@.take(0), ch as int));
    assert(grids@ =~= scrolled_grids(panes@.take(0)));
    assert(spans@ =~= scrolled_spans(panes@.take(0), cw as int, ch as int));
    while i < panes.len()
        invariant
            i <= panes@.len(),
            0 < cw <= 4096,
            0 < ch <= 4096,
            forall|i: int| 0 <= i < panes@.len() ==> pane_near(#[trigger] panes@[i], cw as int, ch as int),
            forall|k: int| 0 <= k < i ==> only_scrolls(#[trigger] panes@[k]),
            may_blit(*f),
            moves@ == scroll_moves(panes@.take(i as int), ch as int),
            grids@ == scrolled_grids(panes@.take(i as int)),
            spans@ == scrolled_spans(panes@.take(i as int), cw as int, ch as int),
            all_near(grids@),
            all_near(spans@),
        decreases panes@.len() - i,
    {
        let p: &FramePane = &panes[i];
        assert(panes@.take(i + 1).drop_last() =~= panes@.take(i as int));
        assert(panes@.take(i + 1).last() == *p);
        assert(pane_near(panes@[i as int], cw as int, ch as int));
        match &p.damage {
            PaneDamage::Runs(runs) => {
                if runs.len() > 0 {
                    assert(!only_scrolls(panes@[i as int]));
                    return None;
                }
            },
            PaneDamage::Scroll(lines, runs) => {
                if p.columned {
                    assert(!only_scrolls(panes@[i as int]));
                    return None;
                }
                proof {
                    assert(0 <= lines * ch <= 65535 * 4096) by (nonlinear_arith)
                        requires
                            0 <= *lines <= 65535,
                            0 < ch <= 4096,
                    ;
                }
                let up: i32 = *lines as i32 * ch;
                moves.push((p.content, up));
                grids.push(p.content);
                push_spans(&mut spans, p.content, runs, cw, ch);
            },
            PaneDamage::Full => {
                assert(!only_scrolls(panes@[i as int]));
                return None;
            },
        }
        i = i + 1;
    }
    assert(panes@.take(i as int) =~= panes@);
    let paint: PxRect = match bbox(&spans) {
        Some(b) => b,
        None => return None,
    };
    let show: PxRect = match bbox(&grids) {
        Some(b) => b,
        None => return None,
    };
    Some(Blit { moves, paint, show })
}

/// What is painted over the panes.
#[derive(Debug, Clone, Copy, PartialEq, Eq, Structural)]
pub enum Over {
    Prefs,
    /// The preferences, and the colour picker over them.
    PrefsAndPicker,
    Menu,
    Manual,
    Search,
    Nothing,
}

/// What is painted over the panes, and whether the instruments are: never under anything.
pub open spec fn painted_over(open: crate::overlays::Open) -> Over {
    if open.prefs {
        if open.picker {
            Over::PrefsAndPicker
        } else {
            Over::Prefs
        }
    } else if open.menu {
        Over::Menu
    } else if open.manual {
        Over::Manual
    } else if open.search {
        Over::Search
    } else {
        Over::Nothing
    }
}

/// What is painted over the panes, and the instruments: whether they are shown, and
/// whether they move on. Where frames are cheap they move with each; elsewhere they are
/// shown if the user asked for it, and move at their own pace.
pub fn paint_over(
    open: crate::overlays::Open,
    gl: bool,
    inst_remote: bool,
    scrolling: bool,
    instr_tick: bool,
) -> (r: (Over, bool, bool))
    ensures
        r.0 == painted_over(open),
        r.1 == (painted_over(open) == Over::Nothing && (gl || (inst_remote && !scrolling))),
        r.2 == (r.1 && (gl || instr_tick)),
{
    let over: Over = if open.prefs {
        if open.picker {
            Over::PrefsAndPicker
        } else {
            Over::Prefs
        }
    } else if open.menu {
        Over::Menu
    } else if open.manual {
        Over::Manual
    } else if open.search {
        Over::Search
    } else {
        Over::Nothing
    };
    let clear: bool = over == Over::Nothing;
    let shown: bool = clear && (gl || (inst_remote && !scrolling));
    (over, shown, shown && (gl || instr_tick))
}

} // verus!

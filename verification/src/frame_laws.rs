//! What a frame is for: whatever changed is painted, and what is not painted did not change.
use vstd::prelude::*;
use crate::frame::{
    all_bands, all_swatches, bbox_of, border_bands, changed_cells, chrome_damage, damage_view, damage_views,
    frame_damage, full_next, gathered, history_near, needs_full, paint_over, paints, pane_near, plan_blit,
    plan_frame, remembered, scroll_moves, scrolled_grids, scrolled_spans, span_rect, span_rects, Blit, FrameDamage,
    FrameFacts, FramePane, FramePlan, Over, PaneChrome, PaneDamage, PxRect, Span,
};
use crate::overlays::Open;

verus! {

/// The bands round a pane lie along its four edges: above as tall as the titlebar, and else
/// six pixels.
pub proof fn bands_lie_along_the_edges(r: PxRect, titlebar: i32, b: (PxRect, PxRect, PxRect, PxRect))
    requires
        call_ensures(border_bands, (r, titlebar), b),
        r.wf(),
    ensures
        ({
            let (top, bottom, left, right) = b;
            &&& top.x == r.x && top.y == r.y && top.w == r.w
            &&& top.h == (if titlebar > 6 { titlebar as int } else { 6 })
            &&& bottom.x == r.x && bottom.w == r.w && bottom.h == 6 && bottom.y + bottom.h == r.y + r.h
            &&& left.x == r.x && left.y == r.y && left.h == r.h && left.w == 6
            &&& right.y == r.y && right.h == r.h && right.w == 6 && right.x + right.w == r.x + r.w
        }),
{
    let (top, bottom, left, right) = b;
    let all = seq![top, bottom, left, right];
    let bands = crate::frame::bands(r, titlebar as int);
    assert(all[0] == bands[0] && all[1] == bands[1] && all[2] == bands[2] && all[3] == bands[3]);
}

proof fn lemma_bands(panes: Seq<PaneChrome>, titlebar: int, n: nat, q: PxRect)
    requires
        n <= panes.len(),
    ensures
        all_bands(panes, titlebar, n).contains(q) <==> exists|i: int|
            0 <= i < n && crate::frame::bands((#[trigger] panes[i]).rect, titlebar).contains(q),
    decreases n,
{
    if n > 0 {
        let m = (n - 1) as nat;
        lemma_bands(panes, titlebar, m, q);
        let before = all_bands(panes, titlebar, m);
        let these = crate::frame::bands(panes[n - 1].rect, titlebar);
        let all = all_bands(panes, titlebar, n);
        assert(all == before + these);
        if all.contains(q) {
            let k = choose|k: int| 0 <= k < all.len() && all[k] == q;
            if k < before.len() {
                assert(before[k] == q);
            } else {
                assert(these[k - before.len()] == q);
            }
        }
        if before.contains(q) {
            let k = choose|k: int| 0 <= k < before.len() && before[k] == q;
            assert(all[k] == q);
        }
        if these.contains(q) {
            let k = choose|k: int| 0 <= k < these.len() && these[k] == q;
            assert(all[before.len() + k] == q);
        }
    }
}

proof fn lemma_swatches(panes: Seq<PaneChrome>, n: nat, q: PxRect)
    requires
        n <= panes.len(),
    ensures
        all_swatches(panes, n).contains(q) <==> exists|i: int| 0 <= i < n && (#[trigger] panes[i]).swatch == Some(q),
    decreases n,
{
    if n > 0 {
        let m = (n - 1) as nat;
        lemma_swatches(panes, m, q);
        let before = all_swatches(panes, m);
        let all = all_swatches(panes, n);
        if all.contains(q) {
            let k = choose|k: int| 0 <= k < all.len() && all[k] == q;
            if k < before.len() {
                assert(before[k] == q);
            }
        }
        if before.contains(q) {
            let k = choose|k: int| 0 <= k < before.len() && before[k] == q;
            assert(all[k] == q);
        }
        if panes[n - 1].swatch == Some(q) {
            assert(all[before.len() as int] == q);
        }
    }
}

/// Whether `q` is one of the bands along the edges of a pane.
pub open spec fn is_band(r: PxRect, titlebar: int, q: PxRect) -> bool {
    let tall = if titlebar > 6 { titlebar } else { 6 };
    ||| q.x == r.x && q.y == r.y && q.w == r.w && q.h == tall
    ||| q.x == r.x && q.w == r.w && q.h == 6 && q.y + 6 == r.y + r.h
    ||| q.x == r.x && q.y == r.y && q.h == r.h && q.w == 6
    ||| q.y == r.y && q.h == r.h && q.w == 6 && q.x + 6 == r.x + r.w
}

proof fn lemma_is_band(r: PxRect, titlebar: i32, q: PxRect)
    requires
        r.wf(),
    ensures
        crate::frame::bands(r, titlebar as int).contains(q) <==> is_band(r, titlebar as int, q),
{
    let bands = crate::frame::bands(r, titlebar as int);
    if bands.contains(q) {
        let k = choose|k: int| 0 <= k < bands.len() && bands[k] == q;
        assert(k == 0 || k == 1 || k == 2 || k == 3);
    }
    if is_band(r, titlebar as int, q) {
        assert(bands[0] == q || bands[1] == q || bands[2] == q || bands[3] == q);
    }
}

/// Chrome is painted again wherever it may have moved: the bands of every pane, unless the
/// window keeps them, and the swatches while a broadcast pulses under titlebars; nothing else.
pub proof fn chrome_is_painted_where_it_may_have_moved(
    panes: &Vec<PaneChrome>,
    titlebar: i32,
    keeps_borders: bool,
    broadcasting: bool,
    r: Vec<PxRect>,
    q: PxRect,
)
    requires
        call_ensures(chrome_damage, (panes, titlebar, keeps_borders, broadcasting), r),
        forall|i: int| 0 <= i < panes@.len() ==> (#[trigger] panes@[i]).rect.wf(),
    ensures
        r@.contains(q) <==> {
            ||| !keeps_borders && exists|i: int|
                0 <= i < panes@.len() && is_band((#[trigger] panes@[i]).rect, titlebar as int, q)
            ||| broadcasting && titlebar > 0 && exists|i: int|
                0 <= i < panes@.len() && (#[trigger] panes@[i]).swatch == Some(q)
        },
{
    lemma_bands(panes@, titlebar as int, panes@.len(), q);
    lemma_swatches(panes@, panes@.len(), q);
    let first: Seq<PxRect> = if keeps_borders {
        Seq::empty()
    } else {
        all_bands(panes@, titlebar as int, panes@.len())
    };
    let second: Seq<PxRect> = if broadcasting && titlebar > 0 {
        all_swatches(panes@, panes@.len())
    } else {
        Seq::empty()
    };
    assert(r@ == first + second);
    if r@.contains(q) {
        let k = choose|k: int| 0 <= k < r@.len() && r@[k] == q;
        if k < first.len() {
            assert(first[k] == q);
            let i = choose|i: int|
                0 <= i < panes@.len() && crate::frame::bands(
                    (#[trigger] panes@[i]).rect,
                    titlebar as int,
                ).contains(q);
            lemma_is_band(panes@[i].rect, titlebar, q);
        } else {
            assert(second[k - first.len()] == q);
        }
    }
    if !keeps_borders && exists|i: int|
        0 <= i < panes@.len() && is_band((#[trigger] panes@[i]).rect, titlebar as int, q) {
        let i = choose|i: int|
            0 <= i < panes@.len() && is_band((#[trigger] panes@[i]).rect, titlebar as int, q);
        lemma_is_band(panes@[i].rect, titlebar, q);
        assert(first.contains(q));
        let k = choose|k: int| 0 <= k < first.len() && first[k] == q;
        assert(r@[k] == q);
    }
    if second.contains(q) {
        let k = choose|k: int| 0 <= k < second.len() && second[k] == q;
        assert(r@[first.len() + k] == q);
    }
}

/// A frame is painted whole where anything but a pane's own cells may have changed, or where
/// the window does not keep what is not painted.
pub proof fn every_doubt_is_painted_whole(f: &FrameFacts, r: bool)
    requires
        call_ensures(needs_full, (f,), r),
    ensures
        r <==> f.force_full || !f.focus_kept || f.overlay || f.bell || !f.software || !f.partial_present || (f.gl
            && f.wires),
{
}

/// Nothing is painted while the window is being resized; and what lay under something open,
/// or a part that could not be painted, makes the next frame whole.
pub proof fn the_next_frame_clears_what_lay_over_this(f: &FrameFacts, failed: bool, r: bool, s: bool)
    requires
        call_ensures(paints, (f,), r),
        call_ensures(full_next, (f, failed), s),
    ensures
        r <==> !f.surface_pending,
        s <==> f.overlay || failed,
{
}

/// What is decided about a frame is remembered for the next two, the newest first. A frame
/// whose buffer is of unknown age, or older than is remembered, or that was whole since, is
/// painted whole; any other names all that was damaged since, and a box round it.
pub proof fn a_frame_paints_all_damage_since_its_buffer(
    history: &mut Vec<FrameDamage>,
    this: FrameDamage,
    age: usize,
    r: FramePlan,
)
    requires
        call_ensures(plan_frame, (history, this, age), r),
        history_near(old(history)@),
        history_near(seq![this]),
    ensures
        age == 0 || age > 2 ==> r is Full,
        age >= 1 && this is Full ==> r is Full,
        age == 1 && this is Rects ==> r is Partial && r->Partial_1@ == this->Rects_0@,
        age == 2 && this is Rects && old(history)@.len() > 0 && old(history)@[0] is Full ==> r is Full,
        age == 2 && this is Rects && old(history)@.len() > 0 && old(history)@[0] is Rects ==> r is Partial
            && r->Partial_1@ == this->Rects_0@ + old(history)@[0]->Rects_0@,
        r is Partial ==> forall|i: int|
            0 <= i < r->Partial_1@.len() ==> r->Partial_0.x <= (#[trigger] r->Partial_1@[i]).x && r->Partial_0.y
                <= r->Partial_1@[i].y && r->Partial_1@[i].x + r->Partial_1@[i].w <= r->Partial_0.x + r->Partial_0.w
                && r->Partial_1@[i].y + r->Partial_1@[i].h <= r->Partial_0.y + r->Partial_0.h,
        1 <= final(history)@.len() <= 2,
        damage_view(final(history)@[0]) == damage_view(this),
        old(history)@.len() > 0 ==> final(history)@.len() == 2 && damage_view(final(history)@[1]) == damage_view(
            old(history)@[0],
        ),
{
    let before = damage_views(old(history)@);
    let now = damage_view(this);
    let known = remembered(before, now);
    let after = damage_views(final(history)@);
    assert(after == known);
    assert(after.len() == final(history)@.len());
    assert((seq![now] + before)[0] == now);
    if before.len() > 0 {
        assert((seq![now] + before)[1] == before[0]);
    }
    assert(after[0] == damage_view(final(history)@[0]));
    if final(history)@.len() == 2 {
        assert(after[1] == damage_view(final(history)@[1]));
    }
    reveal_with_fuel(gathered, 3);
    assert(known[0] == now);
    assert(seq![this][0] == this);
    if now is Some {
        assert(Seq::<PxRect>::empty() + now->0 =~= now->0);
    }
    if r is Partial {
        let rects = r->Partial_1@;
        lemma_all_near(before, now, known, age as nat, old(history)@, this);
        if rects.len() > 0 {
            crate::frame::a_bounding_box_is_tight(rects, rects[0]);
            assert forall|i: int| 0 <= i < rects.len() implies r->Partial_0.x <= (#[trigger] rects[i]).x
                && r->Partial_0.y <= rects[i].y && rects[i].x + rects[i].w <= r->Partial_0.x + r->Partial_0.w
                && rects[i].y + rects[i].h <= r->Partial_0.y + r->Partial_0.h by {
                assert(r->Partial_0.spans(rects[i]));
            }
        }
    }
}

proof fn lemma_all_near(
    before: Seq<Option<Seq<PxRect>>>,
    now: Option<Seq<PxRect>>,
    known: Seq<Option<Seq<PxRect>>>,
    age: nat,
    history: Seq<FrameDamage>,
    this: FrameDamage,
)
    requires
        before == damage_views(history),
        now == damage_view(this),
        known == remembered(before, now),
        history_near(history),
        history_near(seq![this]),
        1 <= age <= 2,
        gathered(known, age) is Some,
    ensures
        crate::frame::all_near(gathered(known, age)->0),
{
    reveal_with_fuel(gathered, 3);
    assert(seq![this][0] == this);
    assert(known[0] == now) by {
        assert((seq![now] + before)[0] == now);
    }
    if before.len() > 0 {
        assert(known[1] == before[0]) by {
            assert((seq![now] + before)[1] == before[0]);
        }
        assert(before[0] == damage_view(history[0]));
        assert(match history[0] {
            FrameDamage::Full => true,
            FrameDamage::Rects(rs) => crate::frame::all_near(rs@),
        });
    }
}

/// Whether a rectangle is that of a run of cells: as far to the right and down as its cells
/// are, as wide as they are together, and as tall as one.
pub open spec fn is_run(content: PxRect, s: Span, cw: int, ch: int, q: PxRect) -> bool {
    &&& q.x - content.x == s.left * cw
    &&& q.y - content.y == s.line * ch
    &&& q.w == (s.right - s.left + 1) * cw
    &&& q.h == ch
}

proof fn lemma_is_run(content: PxRect, s: Span, cw: int, ch: int)
    requires
        0 < cw <= 4096,
        0 < ch <= 4096,
        crate::frame::near(content),
        s.left <= s.right,
    ensures
        is_run(content, s, cw, ch, span_rect(content, s, cw, ch)),
{
    assert(0 <= s.left * cw <= 65535 * 4096) by (nonlinear_arith)
        requires
            0 <= s.left <= 65535,
            0 < cw <= 4096,
    ;
    assert(0 <= s.line * ch <= 65535 * 4096) by (nonlinear_arith)
        requires
            0 <= s.line <= 65535,
            0 < ch <= 4096,
    ;
    assert(0 <= (s.right - s.left + 1) * cw <= 65536 * 4096) by (nonlinear_arith)
        requires
            0 <= s.left <= s.right <= 65535,
            0 < cw <= 4096,
    ;
}

/// A frame that is not whole paints every run of cells that a pane says has changed, where
/// its cells are, and all of the chrome. It is whole where it must be, and where a pane runs
/// in columns or does not name its cells.
pub proof fn a_frame_paints_what_changed(
    facts: &FrameFacts,
    panes: &Vec<FramePane>,
    cw: i32,
    ch: i32,
    chrome: Vec<PxRect>,
    r: FrameDamage,
    i: int,
    k: int,
    c: int,
)
    requires
        call_ensures(frame_damage, (facts, panes, cw, ch, chrome), r),
        0 < cw <= 4096,
        0 < ch <= 4096,
        0 <= i < panes@.len(),
        pane_near(panes@[i], cw as int, ch as int),
    ensures
        panes@[i].columned || !(panes@[i].damage is Runs) ==> r is Full,
        facts.force_full || !facts.focus_kept || facts.overlay || facts.bell || !facts.software
            || !facts.partial_present || (facts.gl && facts.wires) ==> r is Full,
        r is Rects ==> {
            &&& 0 <= k < panes@[i].damage->Runs_0@.len() ==> exists|q: PxRect| #[trigger]
                r->Rects_0@.contains(q) && is_run(
                    panes@[i].content,
                    panes@[i].damage->Runs_0@[k],
                    cw as int,
                    ch as int,
                    q,
                )
            &&& 0 <= c < chrome@.len() ==> r->Rects_0@.contains(chrome@[c])
        },
{
    if panes@[i].columned || !(panes@[i].damage is Runs) {
        assert(!crate::frame::names_cells(panes@[i]));
    }
    if r is Rects {
        let cells = changed_cells(panes@, cw as int, ch as int);
        if 0 <= k < panes@[i].damage->Runs_0@.len() {
            let s = panes@[i].damage->Runs_0@[k];
            crate::frame::a_damaged_cell_is_painted(panes@, chrome@, cw as int, ch as int, i, k);
            assert(s.left <= s.right);
            lemma_is_run(panes@[i].content, s, cw as int, ch as int);
            let q = span_rect(panes@[i].content, s, cw as int, ch as int);
            assert(r->Rects_0@.contains(q));
        }
        if 0 <= c < chrome@.len() {
            assert(r->Rects_0@[cells.len() + c] == chrome@[c]);
        }
    }
}

/// A frame is whole for a reason: the window asks for it, a pane runs in columns, or a pane
/// does not name its cells.
pub proof fn a_frame_is_whole_for_a_reason(
    facts: &FrameFacts,
    panes: &Vec<FramePane>,
    cw: i32,
    ch: i32,
    chrome: Vec<PxRect>,
    r: FrameDamage,
)
    requires
        call_ensures(frame_damage, (facts, panes, cw, ch, chrome), r),
        r is Full,
    ensures
        facts.force_full || !facts.focus_kept || facts.overlay || facts.bell || !facts.software
            || !facts.partial_present || (facts.gl && facts.wires) || exists|i: int|
            0 <= i < panes@.len() && ((#[trigger] panes@[i]).columned || !(panes@[i].damage is Runs)),
{
    if !crate::frame::must_be_full(*facts) {
        let i = choose|i: int| 0 <= i < panes@.len() && !crate::frame::names_cells(#[trigger] panes@[i]);
        assert(panes@[i].columned || !(panes@[i].damage is Runs));
    }
}

proof fn lemma_moves(panes: Seq<FramePane>, ch: int, i: int)
    requires
        0 <= i < panes.len(),
        panes[i].damage is Scroll,
    ensures
        scroll_moves(panes, ch).contains((panes[i].content, (panes[i].damage->Scroll_0 * ch) as i32)),
        scrolled_grids(panes).contains(panes[i].content),
    decreases panes.len(),
{
    let rest = panes.drop_last();
    let all = scroll_moves(panes, ch);
    let grids = scrolled_grids(panes);
    if i < panes.len() - 1 {
        lemma_moves(rest, ch, i);
        assert(rest[i] == panes[i]);
        let before = scroll_moves(rest, ch);
        let x = (panes[i].content, (panes[i].damage->Scroll_0 * ch) as i32);
        let k = choose|k: int| 0 <= k < before.len() && before[k] == x;
        assert(all[k] == x);
        let earlier = scrolled_grids(rest);
        let j = choose|j: int| 0 <= j < earlier.len() && earlier[j] == panes[i].content;
        assert(grids[j] == panes[i].content);
    } else {
        assert(all[all.len() - 1] == (panes[i].content, (panes[i].damage->Scroll_0 * ch) as i32));
        assert(grids[grids.len() - 1] == panes[i].content);
    }
}

proof fn lemma_spans(panes: Seq<FramePane>, cw: int, ch: int, i: int, k: int)
    requires
        0 <= i < panes.len(),
        panes[i].damage is Scroll,
        0 <= k < panes[i].damage->Scroll_1@.len(),
    ensures
        scrolled_spans(panes, cw, ch).contains(
            span_rect(panes[i].content, panes[i].damage->Scroll_1@[k], cw, ch),
        ),
    decreases panes.len(),
{
    let rest = panes.drop_last();
    let all = scrolled_spans(panes, cw, ch);
    let before = scrolled_spans(rest, cw, ch);
    let wanted = span_rect(panes[i].content, panes[i].damage->Scroll_1@[k], cw, ch);
    if i < panes.len() - 1 {
        assert(rest[i] == panes[i]);
        lemma_spans(rest, cw, ch, i, k);
        let j = choose|j: int| 0 <= j < before.len() && before[j] == wanted;
        assert(all[j] == wanted);
    } else {
        assert(all[before.len() + k] == wanted);
    }
}

proof fn lemma_grids_near(panes: Seq<FramePane>, cw: int, ch: int)
    requires
        forall|i: int| 0 <= i < panes.len() ==> pane_near(#[trigger] panes[i], cw, ch),
    ensures
        crate::frame::all_near(scrolled_grids(panes)),
        crate::frame::all_near(scrolled_spans(panes, cw, ch)),
    decreases panes.len(),
{
    if panes.len() > 0 {
        let rest = panes.drop_last();
        assert forall|i: int| 0 <= i < rest.len() implies pane_near(#[trigger] rest[i], cw, ch) by {
            assert(rest[i] == panes[i]);
        }
        lemma_grids_near(rest, cw, ch);
        let last = panes[panes.len() - 1];
        assert(pane_near(last, cw, ch));
        match last.damage {
            PaneDamage::Scroll(_, spans) => {
                let these = span_rects(last.content, spans@, cw, ch);
                assert(crate::frame::spans_near(last.content, spans@, cw, ch));
                assert forall|q: int| 0 <= q < these.len() implies crate::frame::near(#[trigger] these[q]) by {
                    assert(spans@[q].left <= spans@[q].right);
                }
            },
            _ => {},
        }
    }
}

/// A frame moves the window's own contents only where every pane that changed has scrolled,
/// in one column, and nothing else did. Then each that scrolled goes up by its lines, and
/// what came into view is painted and the grids shown.
pub proof fn contents_move_only_where_all_else_stands_still(
    f: &FrameFacts,
    panes: &Vec<FramePane>,
    cw: i32,
    ch: i32,
    r: Option<Blit>,
    i: int,
    k: int,
)
    requires
        call_ensures(plan_blit, (f, panes, cw, ch), r),
        0 < cw <= 4096,
        0 < ch <= 4096,
        forall|i: int| 0 <= i < panes@.len() ==> pane_near(#[trigger] panes@[i], cw as int, ch as int),
        0 <= i < panes@.len(),
        r is Some,
    ensures
        f.can_blit && !f.force_full && f.focus_kept && !f.overlay && !f.bell && !f.wires && !f.broadcasting,
        panes@[i].damage is Runs ==> panes@[i].damage->Runs_0@.len() == 0,
        !(panes@[i].damage is Full),
        panes@[i].damage is Scroll ==> {
            let p = panes@[i];
            let up = p.damage->Scroll_0 * ch;
            &&& !p.columned
            &&& exists|m: int| 0 <= m < r->0.moves@.len() && #[trigger] r->0.moves@[m] == (p.content, up as i32)
            &&& 0 <= k < p.damage->Scroll_1@.len() ==> exists|q: PxRect|
                #[trigger] is_run(p.content, p.damage->Scroll_1@[k], cw as int, ch as int, q) && r->0.paint.x <= q.x
                    && r->0.paint.y <= q.y && q.x + q.w <= r->0.paint.x + r->0.paint.w && q.y + q.h <= r->0.paint.y
                    + r->0.paint.h
            &&& r->0.show.x <= p.content.x && r->0.show.y <= p.content.y && p.content.x + p.content.w <= r->0.show.x
                + r->0.show.w && p.content.y + p.content.h <= r->0.show.y + r->0.show.h
        },
{
    assert(crate::frame::only_scrolls(panes@[i]));
    let p = panes@[i];
    if p.damage is Scroll {
        lemma_moves(panes@, ch as int, i);
        let moves = r->0.moves@;
        let x = (p.content, (p.damage->Scroll_0 * ch) as i32);
        let m = choose|m: int| 0 <= m < moves.len() && moves[m] == x;
        assert(r->0.moves@[m] == x);
        lemma_grids_near(panes@, cw as int, ch as int);
        let grids = scrolled_grids(panes@);
        crate::frame::a_bounding_box_is_tight(grids, p.content);
        let g = choose|g: int| 0 <= g < grids.len() && grids[g] == p.content;
        assert(r->0.show.spans(grids[g]));
        if 0 <= k < p.damage->Scroll_1@.len() {
            lemma_spans(panes@, cw as int, ch as int, i, k);
            let s = p.damage->Scroll_1@[k];
            assert(pane_near(p, cw as int, ch as int));
            assert(s.left <= s.right);
            lemma_is_run(p.content, s, cw as int, ch as int);
            let spans = scrolled_spans(panes@, cw as int, ch as int);
            let q = span_rect(p.content, s, cw as int, ch as int);
            crate::frame::a_bounding_box_is_tight(spans, q);
            let j = choose|j: int| 0 <= j < spans.len() && spans[j] == q;
            assert(r->0.paint.spans(spans[j]));
            assert(is_run(p.content, s, cw as int, ch as int, q));
        }
    }
}

/// Where a pane has scrolled and brought cells into view, every other pane that changed has
/// scrolled too, and nothing else changed, the contents are moved.
pub proof fn contents_move_where_they_can(
    f: &FrameFacts,
    panes: &Vec<FramePane>,
    cw: i32,
    ch: i32,
    r: Option<Blit>,
    i: int,
)
    requires
        call_ensures(plan_blit, (f, panes, cw, ch), r),
        f.can_blit && !f.force_full && f.focus_kept && !f.overlay && !f.bell && !f.wires && !f.broadcasting,
        0 <= i < panes@.len(),
        panes@[i].damage is Scroll,
        panes@[i].damage->Scroll_1@.len() > 0,
        forall|k: int|
            0 <= k < panes@.len() ==> match (#[trigger] panes@[k]).damage {
                PaneDamage::Runs(spans) => spans@.len() == 0,
                PaneDamage::Scroll(_, _) => !panes@[k].columned,
                PaneDamage::Full => false,
            },
    ensures
        r is Some,
{
    lemma_moves(panes@, ch as int, i);
    lemma_spans(panes@, cw as int, ch as int, i, 0);
    assert(scrolled_grids(panes@).len() > 0);
    assert(scrolled_spans(panes@, cw as int, ch as int).len() > 0);
    lemma_has_box(scrolled_grids(panes@));
    lemma_has_box(scrolled_spans(panes@, cw as int, ch as int));
    assert forall|k: int| 0 <= k < panes@.len() implies crate::frame::only_scrolls(#[trigger] panes@[k]) by {}
}

proof fn lemma_has_box(rects: Seq<PxRect>)
    requires
        rects.len() > 0,
    ensures
        bbox_of(rects) is Some,
{
}

/// What is open is painted over the panes, the topmost alone: the preferences, with the
/// picker over them, the menu, the manual, the search bar. The instruments are shown where
/// nothing is open: always where frames are cheap, and else as the user asked, while nothing
/// scrolls; there they move on at their own pace.
pub proof fn one_thing_is_painted_over(
    open: Open,
    gl: bool,
    inst_remote: bool,
    scrolling: bool,
    instr_tick: bool,
    r: (Over, bool, bool),
)
    requires
        call_ensures(paint_over, (open, gl, inst_remote, scrolling, instr_tick), r),
    ensures
        ({
            let (over, shown, moving) = r;
            &&& over == Over::PrefsAndPicker <==> open.prefs && open.picker
            &&& over == Over::Prefs <==> open.prefs && !open.picker
            &&& over == Over::Menu <==> !open.prefs && open.menu
            &&& over == Over::Manual <==> !open.prefs && !open.menu && open.manual
            &&& over == Over::Search <==> !open.prefs && !open.menu && !open.manual && open.search
            &&& over == Over::Nothing <==> !open.prefs && !open.menu && !open.manual && !open.search
            &&& shown <==> over == Over::Nothing && (gl || (inst_remote && !scrolling))
            &&& moving <==> shown && (gl || instr_tick)
        }),
{
}

} // verus!

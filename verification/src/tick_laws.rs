//! What each turn of the loop owes, and what becomes of panes that end.
use vstd::prelude::*;
use vstd::string::*;
use crate::overlays::Dialog;
use crate::patch_bay::{PatchBay, Wire};
use crate::scale_policy::{
    on_scale_factor_changed, physical_font_px, settle_work, ScaleArm, SettleWork,
};
use crate::text::{holds, signed_numeral};
use crate::tick::{
    badge_crash, badge_exit, ending, forget_pane, tick, window_title, Clock, Ending, Found, PaneEvent, Turn,
};

verus! {

broadcast use vstd::string::group_string_axioms;

/// A pane whose shell ended badly stays, with the status it ended with; one that ended well,
/// or of which nothing is known, closes.
pub proof fn a_pane_that_ended_badly_stays(status: Option<i32>, r: Ending)
    requires
        call_ensures(ending, (status,), r),
    ensures
        status is None || status == Some(0i32) ==> r == Ending::Reap,
        status is Some && status->0 != 0 ==> r == Ending::Keep(status->0),
{
}

/// A change of the window's size puts off its surface and its panes; a divider only the
/// panes. Both count, and begin the wait anew.
pub proof fn changes_of_size_are_put_off(a: &mut Clock, b: &mut Clock, now: u64)
    requires
        call_ensures(Clock::resized, (a, now), ()),
        call_ensures(Clock::split_moved, (b, now), ()),
    ensures
        final(a).surface_pending && final(a).resize_pending && final(a).last_resize_at == now,
        final(b).surface_pending == old(b).surface_pending && final(b).resize_pending
            && final(b).last_resize_at == now,
        final(a).scale_pending == old(a).scale_pending && final(b).scale_pending == old(b).scale_pending,
        old(a).deferred_resizes < u64::MAX ==> final(a).deferred_resizes == old(a).deferred_resizes + 1,
        old(b).deferred_resizes < u64::MAX ==> final(b).deferred_resizes == old(b).deferred_resizes + 1,
        final(a).active_until == old(a).active_until && final(b).active_until == old(b).active_until,
{
}

/// A change of the display's scale owes what it arms, and forgets nothing that was owed.
pub proof fn a_change_of_scale_owes_what_it_arms(c: &mut Clock, arm: ScaleArm, now: u64)
    requires
        call_ensures(Clock::scale_changed, (c, arm, now), ()),
    ensures
        final(c).resize_pending <==> old(c).resize_pending || arm.arm_settle,
        final(c).scale_pending <==> old(c).scale_pending || arm.reload_owed,
        final(c).surface_pending <==> old(c).surface_pending || arm.suspend_painting,
        arm.arm_settle ==> final(c).last_resize_at == now,
        !arm.arm_settle ==> final(c).last_resize_at == old(c).last_resize_at,
{
}

/// A factor asks for a reload exactly where it is positive and further than a millionth from
/// the one that the fonts were loaded at; then it arms everything, and else nothing.
pub proof fn a_scale_that_differs_arms_everything(loaded_at: i64, reported: Option<i64>, r: ScaleArm)
    requires
        call_ensures(on_scale_factor_changed, (loaded_at, reported), r),
    ensures
        r.arm_settle == r.reload_owed && r.reload_owed == r.suspend_painting,
        r.arm_settle <==> reported is Some && reported->0 > 0 && (reported->0 - loaded_at > 1_000 || loaded_at
            - reported->0 > 1_000),
{
}

/// Once size and scale hold still the panes are laid out once: with the fonts, where those
/// are loaded anew, and else by themselves.
pub proof fn the_settle_lays_out_once(surface: bool, scale: bool, r: SettleWork)
    requires
        call_ensures(settle_work, (surface, scale), r),
    ensures
        r.resize_surface == surface,
        r.reload_fonts == scale,
        r.relayout != r.reload_fonts,
{
}

/// A font is as many times larger as the display's factor says, to the nearest thousandth.
pub proof fn a_font_is_as_large_as_its_factor_says(font_size: u32, scale: i64, r: u64)
    requires
        call_ensures(physical_font_px, (font_size, scale), r),
        0 < scale <= 1_000_000_000_000,
    ensures
        -500_000_000 <= r * 1_000_000_000 - font_size * scale <= 500_000_000,
{
    let n = 2 * font_size * scale + 1_000_000_000;
    vstd::arithmetic::div_mod::lemma_fundamental_div_mod(n, 2_000_000_000);
    assert(2 * font_size * scale == 2 * (font_size * scale)) by (nonlinear_arith);
}

/// A bell and output are painted and keep the loop awake, for 120 and for 750 milliseconds;
/// an end is painted where the pane stays.
pub proof fn what_a_pane_does_is_noted(c: &mut Clock, event: &PaneEvent, now: u64, r: bool)
    requires
        call_ensures(Clock::note, (c, event, now), r),
        now <= u64::MAX - 750,
    ensures
        *final(c) == (Clock { active_until: final(c).active_until, ..*old(c) }),
        match *event {
            PaneEvent::Bell => r && final(c).active_until == now + 120,
            PaneEvent::Output => r && final(c).active_until == now + 750,
            PaneEvent::Crashed => r && final(c).active_until == old(c).active_until,
            PaneEvent::Title(_) => r && final(c).active_until == old(c).active_until,
            PaneEvent::Exited(status) => (r <==> status is Some && status->0 != 0) && final(c).active_until
                == old(c).active_until,
        },
{
}

/// A badge stands behind the title, once: a title that has one already stays as it is.
pub proof fn a_badge_stands_behind_the_title(base: &str, status: i32, ended: String, crashed: String)
    requires
        call_ensures(badge_exit, (base, status), ended),
        call_ensures(badge_crash, (base,), crashed),
    ensures
        ({
            let badge = "[exited "@ + signed_numeral(status as int) + "]"@;
            &&& holds(base@, "[exited"@) ==> ended@ == base@
            &&& !holds(base@, "[exited"@) && base@.len() == 0 ==> ended@ == badge
            &&& !holds(base@, "[exited"@) && base@.len() > 0 ==> ended@ == base@ + seq![' '] + badge
            &&& holds(base@, "[crashed]"@) ==> crashed@ == base@
            &&& !holds(base@, "[crashed]"@) && base@.len() == 0 ==> crashed@ == "[crashed]"@
            &&& !holds(base@, "[crashed]"@) && base@.len() > 0 ==> crashed@ == base@ + seq![' '] + "[crashed]"@
        }),
{
    reveal_strlit(" ");
    assert(" "@ =~= seq![' ']);
}

/// The window is named after its pane and the program, or after the program alone.
pub proof fn a_window_is_named_after_its_pane(pane: Option<&str>, r: String)
    requires
        call_ensures(window_title, (pane,), r),
    ensures
        pane is None ==> r@ == seq!['r', 't'],
        pane is Some ==> r@ == pane->0@ + seq![' ', '—', ' ', 'r', 't'],
{
    reveal_strlit("rt");
    reveal_strlit(" — rt");
    assert("rt"@ =~= seq!['r', 't']);
    assert(" — rt"@ =~= seq![' ', '—', ' ', 'r', 't']);
}

proof fn lemma_filtered<T>(s: Seq<T>, keep: spec_fn(T) -> bool, x: T)
    ensures
        s.filter(keep).contains(x) <==> s.contains(x) && keep(x),
    decreases s.len(),
{
    reveal(Seq::filter);
    if s.len() > 0 {
        let rest = s.drop_last();
        lemma_filtered(rest, keep, x);
        let out = s.filter(keep);
        let before = rest.filter(keep);
        if s.contains(x) {
            let i = choose|i: int| 0 <= i < s.len() && s[i] == x;
            if i < s.len() - 1 {
                assert(rest[i] == x);
            }
        }
        if rest.contains(x) {
            let i = choose|i: int| 0 <= i < rest.len() && rest[i] == x;
            assert(s[i] == x);
        }
        if before.contains(x) {
            let i = choose|i: int| 0 <= i < before.len() && before[i] == x;
            assert(out[i] == x);
        }
        if keep(s.last()) {
            assert(out =~= before.push(s.last()));
            assert(out[before.len() as int] == s.last());
            if out.contains(x) {
                let i = choose|i: int| 0 <= i < out.len() && out[i] == x;
                if i < before.len() {
                    assert(before[i] == x);
                }
            }
        }
        assert(s[s.len() - 1] == s.last());
    }
}

/// A pane that has closed leaves nothing behind: its jacks, the wires from and to it, and a
/// wire being pulled from it are gone, and nothing of any other pane is.
pub proof fn a_closed_pane_leaves_nothing(bay: &mut PatchBay, pane: u64, w: Wire, p: u64)
    requires
        call_ensures(forget_pane, (bay, pane), ()),
    ensures
        final(bay).wires@.contains(w) <==> old(bay).wires@.contains(w) && w.src != pane && w.dst != pane,
        final(bay).jacked@.contains(p) <==> old(bay).jacked@.contains(p) && p != pane,
        match old(bay).armed {
            Some((src, stream)) => if src == pane {
                final(bay).armed is None
            } else {
                final(bay).armed == Some((src, stream))
            },
            None => final(bay).armed is None,
        },
{
    lemma_filtered(old(bay).wires@, |w: Wire| w.src != pane && w.dst != pane, w);
    lemma_filtered(old(bay).jacked@, |p: u64| p != pane, p);
}

/// What was put off is paid for once it has held still: the size after 120 milliseconds, and
/// the preferences after 150. Before that nothing of it is, and after it nothing is owed.
pub proof fn what_was_put_off_is_paid_for(clock: &mut Clock, dialog: &mut Dialog, f: &Found, now: u64, r: Turn)
    requires
        call_ensures(tick, (clock, dialog, f, now), r),
    ensures
        ({
            let c = *old(clock);
            let d = *old(dialog);
            let still = c.resize_pending && now >= c.last_resize_at + 120;
            let done = d.pending is Some && now >= d.last_edit + 150;
            &&& r.settle is Some <==> still
            &&& still ==> {
                &&& r.settle->0.resize_surface == c.surface_pending
                &&& r.settle->0.reload_fonts == c.scale_pending
                &&& r.settle->0.relayout == !c.scale_pending
                &&& !final(clock).resize_pending && !final(clock).surface_pending && !final(clock).scale_pending
                &&& final(clock).deferred_resizes == 0
                &&& r.full && r.redraw
            }
            &&& !still ==> {
                &&& final(clock).resize_pending == c.resize_pending
                &&& final(clock).surface_pending == c.surface_pending
                &&& final(clock).scale_pending == c.scale_pending
                &&& final(clock).deferred_resizes == c.deferred_resizes
            }
            &&& r.commit is Some <==> done
            &&& done ==> r.commit->0@ == d.pending->0@ && final(dialog).pending is None && r.redraw
            &&& !done ==> (final(dialog).pending is Some <==> d.pending is Some)
            &&& !done && d.pending is Some ==> final(dialog).pending->0@ == d.pending->0@
            &&& final(dialog).open == d.open && final(dialog).sel == d.sel
        }),
{
}

/// What moves, moves at its own pace: the pulse of a broadcast every 200 milliseconds, by the
/// time that passed, and the instruments over a slow line every 166. What changed is painted.
pub proof fn what_moves_keeps_its_pace(clock: &mut Clock, dialog: &mut Dialog, f: &Found, now: u64, r: Turn)
    requires
        call_ensures(tick, (clock, dialog, f, now), r),
        old(clock).wf(now),
    ensures
        ({
            let c = *old(clock);
            let blinking = !f.low_power && now < c.last_input + 9_000;
            let live = f.wires_busy || f.heat_live || f.flow_busy || f.stalling;
            let slow = !f.gl && f.inst_remote && f.inst_animate && (live || blinking);
            let fast = f.gl && (live || blinking);
            let stepped = slow && now >= c.last_instr_tick + 166;
            let drawn = fast && (f.low_power ==> now >= c.last_anim + 500);
            let pulsed = f.broadcasting && now >= c.last_bcast_tick + 200;
            &&& r.pulse is Some <==> pulsed
            &&& pulsed ==> r.pulse->0 == now - c.last_bcast_tick && final(clock).last_bcast_tick == now
            &&& !pulsed ==> final(clock).last_bcast_tick == c.last_bcast_tick
            &&& r.instr_tick <==> stepped
            &&& stepped ==> final(clock).last_instr_tick == now && r.full
            &&& !stepped ==> final(clock).last_instr_tick == c.last_instr_tick
            &&& drawn ==> final(clock).last_anim == now
            &&& !drawn ==> final(clock).last_anim == c.last_anim
            &&& r.redraw <==> f.changed || pulsed || stepped || drawn || f.autoscrolling || r.settle is Some
                || r.commit is Some
            &&& r.full <==> stepped || r.settle is Some
            &&& r.refresh_search <==> r.redraw && f.searching
            &&& final(clock).last_input == c.last_input
        }),
{
}

/// The loop waits 16 milliseconds while something was just touched, and otherwise no longer
/// than until the next thing that is owed: the pulse of a broadcast, a size or an edit that
/// must hold still, the cursor, the instruments; and a tenth of a second at rest.
pub proof fn the_loop_waits_for_what_is_next(clock: &mut Clock, dialog: &mut Dialog, f: &Found, now: u64, r: Turn)
    requires
        call_ensures(tick, (clock, dialog, f, now), r),
        old(clock).wf(now),
    ensures
        ({
            let c = *old(clock);
            let busy = f.autoscrolling || now < c.active_until;
            let sizing = c.resize_pending && r.settle is None;
            let editing = old(dialog).pending is Some && r.commit is None;
            let blinking = !f.low_power && now < c.last_input + 9_000;
            let live = f.wires_busy || f.heat_live || f.flow_busy || f.stalling;
            let slow = !f.gl && f.inst_remote && f.inst_animate && live;
            &&& busy ==> r.wait == 16
            &&& !busy && f.broadcasting ==> r.wait == 200
            &&& !busy && !f.broadcasting && sizing ==> r.wait == 120
            &&& !busy && !f.broadcasting && !sizing && editing ==> r.wait == 150
            &&& !busy && !f.broadcasting && !sizing && !editing && blinking ==> r.wait == 50
            &&& !busy && !f.broadcasting && !sizing && !editing && !blinking && slow ==> r.wait == 166
            &&& !busy && !f.broadcasting && !sizing && !editing && !blinking && !slow ==> r.wait == 100
            &&& final(clock).poll == r.wait
            &&& f.autoscrolling ==> final(clock).active_until == now + 120
            &&& !f.autoscrolling ==> final(clock).active_until == c.active_until
        }),
{
}

} // verus!

//! What the event loop does each time before it waits: takes in what the panes have
//! done, pays for what has been put off until things hold still, and decides how long to
//! wait.
//!
//! Times are in milliseconds.
use vstd::prelude::*;
use vstd::string::*;
use crate::overlays::{settings_view, Dialog};
use crate::patch_bay::{PatchBay, Wire};
use crate::prefs_model::settle_due;
use crate::scale_policy::{settle_work, ScaleArm, SettleWork};
use crate::settings::Settings;
use crate::text::{contains_text, holds, push_signed, signed_numeral};

verus! {

broadcast use vstd::string::group_string_axioms;

/// The wait while something moves or was just touched.
pub const ACTIVE_POLL: u64 = 16;

/// The wait while nothing happens: soon enough to notice output.
pub const IDLE_POLL: u64 = 100;

/// The wait while the cursor pulses.
pub const BLINK_POLL: u64 = 50;

/// The time between two steps of the instruments over a slow line.
pub const INSTRUMENT_TICK: u64 = 166;

/// The time between two steps of the broadcast pulse.
pub const BCAST_PULSE_TICK: u64 = 200;

/// How long the window's size must hold still before the panes are laid out anew.
pub const RESIZE_SETTLE: u64 = 120;

/// How long an edit of the preferences must hold still before it is applied.
pub const PREFS_SETTLE: u64 = 150;

/// How long the fast wait goes on after the last input or output.
pub const ACTIVE_TAIL: u64 = 750;

/// How long after the last key the cursor pulses.
pub const BLINK_WINDOW: u64 = 9_000;

/// The least time between two animated frames without a graphics card.
pub const SLOW_ANIMATION: u64 = 500;

/// What a pane has done.
#[derive(Debug, Clone)]
pub enum PaneEvent {
    /// Its shell has ended, with this status if it is known.
    Exited(Option<i32>),
    /// Its parser has failed.
    Crashed,
    /// It has a title.
    Title(String),
    Bell,
    /// It has output.
    Output,
}

/// What becomes of a pane whose shell has ended.
#[derive(Debug, Clone, Copy, PartialEq, Eq, Structural)]
pub enum Ending {
    /// It closes.
    Reap,
    /// It stays, its last output in view, with a badge that gives the status.
    Keep(i32),
}

/// What becomes of a pane whose shell has ended with a status: one that ended well, or
/// of which nothing is known, closes.
pub fn ending(status: Option<i32>) -> (r: Ending)
    ensures
        r == (match status {
            Some(n) if n != 0 => Ending::Keep(n),
            _ => Ending::Reap,
        }),
{
    match status {
        Some(n) => if n != 0 {
            Ending::Keep(n)
        } else {
            Ending::Reap
        },
        None => Ending::Reap,
    }
}

/// The timers of the event loop, and what it owes.
#[derive(Debug, Clone, Copy, PartialEq, Eq, Structural)]
pub struct Clock {
    /// The fast wait goes on until then.
    pub active_until: u64,
    /// When the last key came.
    pub last_input: u64,
    /// When the last animated frame was painted.
    pub last_anim: u64,
    pub last_instr_tick: u64,
    pub last_bcast_tick: u64,
    /// The panes must be laid out anew once the size holds still.
    pub resize_pending: bool,
    /// The surface must be resized then, too, and nothing is painted until it is.
    pub surface_pending: bool,
    /// The fonts must be loaded anew then, too, at another scale.
    pub scale_pending: bool,
    pub last_resize_at: u64,
    /// How many changes of size wait to be paid for at once.
    pub deferred_resizes: u64,
    /// How long the last wait was.
    pub poll: u64,
}

impl Clock {
    /// Whether no timer lies in the future.
    pub open spec fn wf(&self, now: u64) -> bool {
        &&& self.last_input <= now
        &&& self.last_anim <= now
        &&& self.last_instr_tick <= now
        &&& self.last_bcast_tick <= now
        &&& self.last_resize_at <= now
        &&& now <= u64::MAX - ACTIVE_TAIL
    }

    /// The window was resized: everything waits until the size holds still.
    pub fn resized(&mut self, now: u64)
        ensures
            *final(self) == (Clock {
                surface_pending: true,
                resize_pending: true,
                last_resize_at: now,
                deferred_resizes: if old(self).deferred_resizes < u64::MAX {
                    (old(self).deferred_resizes + 1) as u64
                } else {
                    u64::MAX
                },
                ..*old(self)
            }),
    {
        self.surface_pending = true;
        self.split_moved(now);
    }

    /// A divider was moved: the panes' grids wait until it holds still.
    pub fn split_moved(&mut self, now: u64)
        ensures
            *final(self) == (Clock {
                resize_pending: true,
                last_resize_at: now,
                deferred_resizes: if old(self).deferred_resizes < u64::MAX {
                    (old(self).deferred_resizes + 1) as u64
                } else {
                    u64::MAX
                },
                ..*old(self)
            }),
    {
        self.resize_pending = true;
        self.last_resize_at = now;
        if self.deferred_resizes < u64::MAX {
            self.deferred_resizes = self.deferred_resizes + 1;
        }
    }

    /// The display's scale has changed, as far as `arm` says.
    pub fn scale_changed(&mut self, arm: ScaleArm, now: u64)
        ensures
            *final(self) == (Clock {
                resize_pending: old(self).resize_pending || arm.arm_settle,
                last_resize_at: if arm.arm_settle {
                    now
                } else {
                    old(self).last_resize_at
                },
                scale_pending: old(self).scale_pending || arm.reload_owed,
                surface_pending: old(self).surface_pending || arm.suspend_painting,
                ..*old(self)
            }),
    {
        if arm.arm_settle {
            self.resize_pending = true;
            self.last_resize_at = now;
        }
        if arm.reload_owed {
            self.scale_pending = true;
        }
        if arm.suspend_painting {
            self.surface_pending = true;
        }
    }

    /// Take note of what a pane has done, and say whether that must be painted. A bell
    /// keeps the loop fast for as long as it is shown; output for a little longer.
    pub fn note(&mut self, event: &PaneEvent, now: u64) -> (r: bool)
        requires
            now <= u64::MAX - ACTIVE_TAIL,
        ensures
            *final(self) == (Clock {
                active_until: match event {
                    PaneEvent::Bell => (now + 120) as u64,
                    PaneEvent::Output => (now + ACTIVE_TAIL) as u64,
                    _ => old(self).active_until,
                },
                ..*old(self)
            }),
            r == (match event {
                PaneEvent::Exited(status) => status is Some && status->0 != 0,
                _ => true,
            }),
    {
        match event {
            PaneEvent::Exited(status) => match ending(*status) {
                Ending::Keep(_) => true,
                Ending::Reap => false,
            },
            PaneEvent::Crashed => true,
            PaneEvent::Title(_) => true,
            PaneEvent::Bell => {
                self.active_until = now + 120;
                true
            },
            PaneEvent::Output => {
                self.active_until = now + ACTIVE_TAIL;
                true
            },
        }
    }
}

/// A title with a badge behind it.
pub open spec fn badged(base: Seq<char>, badge: Seq<char>) -> Seq<char> {
    if base.len() == 0 {
        badge
    } else {
        base + " "@ + badge
    }
}

/// The badge of a shell that ended with a status.
pub open spec fn exit_badge(status: int) -> Seq<char> {
    "[exited "@ + signed_numeral(status) + "]"@
}

/// The title of a pane whose shell ended with a status.
pub open spec fn exit_titled(base: Seq<char>, status: int) -> Seq<char> {
    if holds(base, "[exited"@) {
        base
    } else {
        badged(base, exit_badge(status))
    }
}

/// The title of a pane whose parser failed.
pub open spec fn crash_titled(base: Seq<char>) -> Seq<char> {
    if holds(base, "[crashed]"@) {
        base
    } else {
        badged(base, "[crashed]"@)
    }
}

fn with_badge(base: &str, badge: &str) -> (r: String)
    ensures
        r@ == badged(base@, badge@),
{
    if base.is_empty() {
        return badge.to_string();
    }
    let mut s: String = base.to_string();
    s.append(" ");
    s.append(badge);
    s
}

/// The title of a pane whose shell ended badly: with the status behind it, once.
pub fn badge_exit(base: &str, status: i32) -> (r: String)
    ensures
        r@ == exit_titled(base@, status as int),
{
    if contains_text(base, "[exited") {
        return base.to_string();
    }
    let mut badge: String = "[exited ".to_string();
    push_signed(&mut badge, status);
    badge.append("]");
    with_badge(base, badge.as_str())
}

/// The title of a pane whose parser failed: with a badge behind it, once.
pub fn badge_crash(base: &str) -> (r: String)
    ensures
        r@ == crash_titled(base@),
{
    if contains_text(base, "[crashed]") {
        return base.to_string();
    }
    with_badge(base, "[crashed]")
}

/// The window's title: that of the focused pane, or the program's.
pub fn window_title(pane: Option<&str>) -> (r: String)
    ensures
        r@ == (match pane {
            Some(t) => t@ + " — rt"@,
            None => "rt"@,
        }),
{
    match pane {
        Some(t) => {
            let mut s: String = t.to_string();
            s.append(" — rt");
            s
        },
        None => "rt".to_string(),
    }
}

/// A badge is put on once: badging a title again leaves it as it is, whatever status is
/// given then.
pub proof fn a_badge_is_put_on_once(base: Seq<char>, status: int, later: int)
    ensures
        crash_titled(crash_titled(base)) == crash_titled(base),
        exit_titled(exit_titled(base, status), later) == exit_titled(base, status),
{
    let whole = badged(base, "[crashed]"@);
    let i = whole.len() - "[crashed]"@.len();
    assert(whole.subrange(i, whole.len() as int) =~= "[crashed]"@);
    assert(crate::text::stands_at(whole, "[crashed]"@, i));
    reveal_strlit("[exited");
    reveal_strlit("[exited ");
    let badge = exit_badge(status);
    let ended = badged(base, badge);
    let k = ended.len() - badge.len();
    assert(ended.subrange(k, k + 7) =~= "[exited"@);
    assert(crate::text::stands_at(ended, "[exited"@, k));
}

/// Forget a pane that has closed: its jacks, its wires, and a wire being pulled from it.
pub fn forget_pane(bay: &mut PatchBay, pane: u64)
    requires
        old(bay).wf(),
    ensures
        final(bay).wf(),
        final(bay).wires@ == old(bay).wires@.filter(|w: Wire| w.src != pane && w.dst != pane),
        final(bay).jacked@ == old(bay).jacked@.filter(|p: u64| p != pane),
        final(bay).armed == (match old(bay).armed {
            Some((src, _)) if src == pane => None,
            _ => old(bay).armed,
        }),
{
    bay.unwire(pane);
    let ghost keep = |p: u64| p != pane;
    let ghost before = bay.jacked@;
    let mut kept: Vec<u64> = Vec::new();
    let mut i: usize = 0;
    proof {
        reveal(Seq::filter);
        assert(before.take(0) =~= Seq::empty());
    }
    let ghost wires = bay.wires@;
    while i < bay.jacked.len()
        invariant
            i <= bay.jacked@.len(),
            bay.jacked@ == before,
            bay.wires@ == wires,
            bay.wf(),
            bay.armed == old(bay).armed,
            keep == (|p: u64| p != pane),
            kept@ == before.take(i as int).filter(keep),
        decreases bay.jacked@.len() - i,
    {
        let p: u64 = bay.jacked[i];
        proof {
            reveal(Seq::filter);
            assert(before.take(i + 1).drop_last() =~= before.take(i as int));
            assert(before.take(i + 1).last() == p);
        }
        if p != pane {
            kept.push(p);
        }
        i = i + 1;
    }
    assert(before.take(i as int) =~= before);
    bay.jacked = kept;
    if let Some((src, _)) = bay.armed {
        if src == pane {
            bay.armed = None;
        }
    }
}

/// What the loop finds each time, beside its timers.
#[derive(Debug, Clone, Copy, PartialEq, Eq, Structural)]
pub struct Found {
    /// Something a pane did must be painted, or a pane has closed.
    pub changed: bool,
    /// What is typed goes to more than the focused pane.
    pub broadcasting: bool,
    /// A graphics card paints, and a whole frame is cheap.
    pub gl: bool,
    /// It does not, and frames cost processor time.
    pub low_power: bool,
    /// Bytes are moving over the wires, or did just now.
    pub wires_busy: bool,
    /// A pane is warm.
    pub heat_live: bool,
    /// A pane's output is easing to a stop.
    pub flow_busy: bool,
    /// A late wake is fading out.
    pub stalling: bool,
    /// The instruments are shown over a slow line, and animated there.
    pub inst_remote: bool,
    pub inst_animate: bool,
    /// A drag is held beyond the edge of its pane.
    pub autoscrolling: bool,
    /// The search bar is open on a query.
    pub searching: bool,
}

/// What the loop does each time.
pub struct Turn {
    /// The size has held still: what that owes.
    pub settle: Option<SettleWork>,
    /// The preferences have held still: what is to be applied.
    pub commit: Option<Settings>,
    /// The broadcast pulse moves on, by so much time.
    pub pulse: Option<u64>,
    /// The instruments move on.
    pub instr_tick: bool,
    /// The search is run again, for what has come since.
    pub refresh_search: bool,
    /// The next frame must be painted whole.
    pub full: bool,
    /// The window must be painted.
    pub redraw: bool,
    /// How long to wait.
    pub wait: u64,
}

/// Whether the size has held still.
pub open spec fn size_settled(c: Clock, now: int) -> bool {
    c.resize_pending && now - c.last_resize_at >= RESIZE_SETTLE
}

/// What is done once the size has held still.
pub open spec fn settled_work(c: Clock, now: int) -> Option<SettleWork> {
    if size_settled(c, now) {
        Some(
            SettleWork {
                resize_surface: c.surface_pending,
                reload_fonts: c.scale_pending,
                relayout: !c.scale_pending,
            },
        )
    } else {
        None
    }
}

/// Whether the pending edits have held still.
pub open spec fn edits_settled(pending: bool, last_edit: int, now: int) -> bool {
    pending && now - last_edit >= PREFS_SETTLE
}

/// Whether it is time for the broadcast pulse.
pub open spec fn pulses(c: Clock, f: Found, now: int) -> bool {
    f.broadcasting && now - c.last_bcast_tick >= BCAST_PULSE_TICK
}

/// Whether the cursor pulses.
pub open spec fn blinks(c: Clock, f: Found, now: int) -> bool {
    !f.low_power && now - c.last_input < BLINK_WINDOW
}

/// Whether anything wants to be animated: the instruments, where they are, or the cursor.
pub open spec fn wants_animation(c: Clock, f: Found, now: int) -> bool {
    let shown = f.gl || (f.inst_remote && f.inst_animate);
    (shown && (f.wires_busy || f.heat_live || f.flow_busy || f.stalling)) || blinks(c, f, now)
}

/// Whether animation paints a frame now: where a frame is cheap, and not too often where
/// it costs processor time.
pub open spec fn animates(c: Clock, f: Found, now: int) -> bool {
    wants_animation(c, f, now) && f.gl && now - c.last_anim >= (if f.low_power {
        SLOW_ANIMATION as int
    } else {
        0
    })
}

/// Whether the instruments over a slow line are being animated.
pub open spec fn instruments_move(c: Clock, f: Found, now: int) -> bool {
    wants_animation(c, f, now) && !f.gl && f.inst_remote && f.inst_animate
}

/// Whether it is time for a step of those.
pub open spec fn instrument_step(c: Clock, f: Found, now: int) -> bool {
    instruments_move(c, f, now) && now - c.last_instr_tick >= INSTRUMENT_TICK
}

/// Whether anything must be painted.
pub open spec fn must_paint(c: Clock, f: Found, pending: bool, last_edit: int, now: int) -> bool {
    f.changed || size_settled(c, now) || edits_settled(pending, last_edit, now) || pulses(c, f, now) || animates(
        c,
        f,
        now,
    ) || instrument_step(c, f, now) || f.autoscrolling
}

/// How long to wait: not at all long while something moves; otherwise until the next
/// thing that is owed; and not for ever, since output comes unasked.
pub open spec fn wait_for(c: Clock, f: Found, pending: bool, last_edit: int, now: int) -> u64 {
    let until = if f.autoscrolling {
        now + 120
    } else {
        c.active_until as int
    };
    if now < until {
        ACTIVE_POLL
    } else if f.broadcasting {
        BCAST_PULSE_TICK
    } else if c.resize_pending && !size_settled(c, now) {
        RESIZE_SETTLE
    } else if pending && !edits_settled(pending, last_edit, now) {
        PREFS_SETTLE
    } else if blinks(c, f, now) {
        BLINK_POLL
    } else if instruments_move(c, f, now) {
        INSTRUMENT_TICK
    } else {
        IDLE_POLL
    }
}

/// The timers after a turn of the loop.
pub open spec fn clock_after(c: Clock, f: Found, pending: bool, last_edit: int, now: u64) -> Clock {
    let settled = size_settled(c, now as int);
    Clock {
        active_until: if f.autoscrolling {
            (now + 120) as u64
        } else {
            c.active_until
        },
        last_input: c.last_input,
        last_anim: if animates(c, f, now as int) {
            now
        } else {
            c.last_anim
        },
        last_instr_tick: if instrument_step(c, f, now as int) {
            now
        } else {
            c.last_instr_tick
        },
        last_bcast_tick: if pulses(c, f, now as int) {
            now
        } else {
            c.last_bcast_tick
        },
        resize_pending: c.resize_pending && !settled,
        surface_pending: c.surface_pending && !settled,
        scale_pending: c.scale_pending && !settled,
        last_resize_at: c.last_resize_at,
        deferred_resizes: if settled {
            0
        } else {
            c.deferred_resizes
        },
        poll: wait_for(c, f, pending, last_edit, now as int),
    }
}

/// One turn of the loop: what is owed, what is painted, and how long to wait.
pub fn tick(clock: &mut Clock, dialog: &mut Dialog, f: &Found, now: u64) -> (r: Turn)
    requires
        old(clock).wf(now),
        old(dialog).last_edit <= now,
    ensures
        ({
            let c = *old(clock);
            let pending = old(dialog).pending is Some;
            let last_edit = old(dialog).last_edit as int;
            let n = now as int;
            &&& *final(clock) == clock_after(c, *f, pending, last_edit, now)
            &&& final(clock).wf(now)
            &&& r.settle == settled_work(c, n)
            &&& settings_view(r.commit) == (if edits_settled(pending, last_edit, n) {
                settings_view(old(dialog).pending)
            } else {
                None
            })
            &&& settings_view(final(dialog).pending) == (if edits_settled(pending, last_edit, n) {
                None
            } else {
                settings_view(old(dialog).pending)
            })
            &&& final(dialog).open == old(dialog).open
            &&& final(dialog).sel == old(dialog).sel
            &&& final(dialog).scroll == old(dialog).scroll
            &&& final(dialog).last_edit == old(dialog).last_edit
            &&& final(dialog).edits == (if edits_settled(pending, last_edit, n) {
                0
            } else {
                old(dialog).edits
            })
            &&& r.pulse == (if pulses(c, *f, n) {
                Some((now - c.last_bcast_tick) as u64)
            } else {
                None
            })
            &&& r.instr_tick == instrument_step(c, *f, n)
            &&& r.full == (size_settled(c, n) || instrument_step(c, *f, n))
            &&& r.redraw == must_paint(c, *f, pending, last_edit, n)
            &&& r.refresh_search == (must_paint(c, *f, pending, last_edit, n) && f.searching)
            &&& r.wait == wait_for(c, *f, pending, last_edit, n)
        }),
{
    let mut paint: bool = f.changed;
    let mut full: bool = false;
    let mut settle: Option<SettleWork> = None;
    if clock.resize_pending && now - clock.last_resize_at >= RESIZE_SETTLE {
        settle = Some(settle_work(clock.surface_pending, clock.scale_pending));
        clock.surface_pending = false;
        clock.scale_pending = false;
        clock.resize_pending = false;
        clock.deferred_resizes = 0;
        full = true;
        paint = true;
    }
    let mut commit: Option<Settings> = None;
    let had: bool = dialog.pending.is_some();
    let due: bool = settle_due(had, (now - dialog.last_edit) as u128, PREFS_SETTLE as u128);
    if due {
        commit = dialog.take_pending();
        paint = true;
    }
    let owed: bool = had && !due;
    let mut pulse: Option<u64> = None;
    if f.broadcasting {
        let since: u64 = now - clock.last_bcast_tick;
        if since >= BCAST_PULSE_TICK {
            clock.last_bcast_tick = now;
            pulse = Some(since);
            paint = true;
        }
    }
    let shown: bool = f.gl || (f.inst_remote && f.inst_animate);
    let blinking: bool = !f.low_power && now - clock.last_input < BLINK_WINDOW;
    let anim: bool = (shown && (f.wires_busy || f.heat_live || f.flow_busy || f.stalling)) || blinking;
    let least: u64 = if f.low_power {
        SLOW_ANIMATION
    } else {
        0
    };
    if anim && f.gl && now - clock.last_anim >= least {
        clock.last_anim = now;
        paint = true;
    }
    let moving: bool = anim && !f.gl && f.inst_remote && f.inst_animate;
    let mut instr_tick: bool = false;
    if moving && now - clock.last_instr_tick >= INSTRUMENT_TICK {
        instr_tick = true;
        clock.last_instr_tick = now;
        full = true;
        paint = true;
    }
    if f.autoscrolling {
        clock.active_until = now + 120;
        paint = true;
    }
    let wait: u64 = if now < clock.active_until {
        ACTIVE_POLL
    } else if f.broadcasting {
        BCAST_PULSE_TICK
    } else if clock.resize_pending {
        RESIZE_SETTLE
    } else if owed {
        PREFS_SETTLE
    } else if blinking {
        BLINK_POLL
    } else if moving {
        INSTRUMENT_TICK
    } else {
        IDLE_POLL
    };
    clock.poll = wait;
    Turn {
        settle,
        commit,
        pulse,
        instr_tick,
        refresh_search: paint && f.searching,
        full,
        redraw: paint,
        wait,
    }
}

/// What is owed is never waited for longer than the longest of the loop's waits, and no
/// wait is longer than that.
pub proof fn no_wait_is_long(c: Clock, f: Found, pending: bool, last_edit: int, now: int)
    ensures
        wait_for(c, f, pending, last_edit, now) <= BCAST_PULSE_TICK,
        c.resize_pending && !size_settled(c, now) && !f.broadcasting ==> wait_for(
            c,
            f,
            pending,
            last_edit,
            now,
        ) <= RESIZE_SETTLE,
        pending && !edits_settled(pending, last_edit, now) && !f.broadcasting ==> wait_for(
            c,
            f,
            pending,
            last_edit,
            now,
        ) <= PREFS_SETTLE,
{
}

/// A drag of the window's edge is paid for once: however many changes of size came, the
/// turn that finds the size at rest lays the panes out exactly once, itself or by loading
/// the fonts, and owes nothing more.
pub proof fn a_resize_is_paid_for_once(c: Clock, f: Found, pending: bool, last_edit: int, now: u64)
    requires
        size_settled(c, now as int),
    ensures
        ({
            let after = clock_after(c, f, pending, last_edit, now);
            &&& !after.resize_pending
            &&& !after.surface_pending
            &&& !after.scale_pending
            &&& after.deferred_resizes == 0
            &&& settled_work(after, now as int) is None
            &&& settled_work(c, now as int) is Some
            &&& settled_work(c, now as int)->0.relayout != settled_work(c, now as int)->0.reload_fonts
        }),
{
}

} // verus!

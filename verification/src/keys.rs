//! What a key press does: drives a selection, runs an action, or types into the shell.
use vstd::prelude::*;
use crate::keymap::{bound_action, Action, Chord, Keymap};
use crate::selection::{Selection, Spot};

verus! {

/// How close two presses of an arrow must be to count as one held run, in milliseconds:
/// a little more than a slow key repeat.
pub const ARROW_HOLD_GAP: u64 = 250;

/// The repeats of a held arrow that stay one move each.
pub const ACCEL_THRESHOLD: u32 = 4;

/// The moves that a held arrow sends at a repeat: one for the first few, then one more
/// each, up to the cap.
pub open spec fn accel_moves(repeats: int, max: int) -> int {
    let ramp = if repeats > ACCEL_THRESHOLD {
        1 + repeats - ACCEL_THRESHOLD
    } else {
        1
    };
    if max <= 1 {
        1
    } else if ramp < max {
        ramp
    } else {
        max
    }
}

/// The moves to send for a held arrow at so many repeats, no more than `max`. A cap of
/// one turns the acceleration off.
pub fn arrow_accel_step(repeats: u32, max: u32) -> (r: usize)
    ensures
        r == accel_moves(repeats as int, max as int),
{
    if max <= 1 {
        return 1;
    }
    let ramp: u64 = if repeats > ACCEL_THRESHOLD {
        1 + (repeats as u64 - 4)
    } else {
        1
    };
    if ramp < max as u64 {
        ramp as usize
    } else {
        max as usize
    }
}

/// A tap is one move, holding longer never sends fewer moves, and the cap is never
/// exceeded.
pub proof fn holding_longer_never_slows(sooner: int, later: int, max: int)
    requires
        0 <= sooner <= later,
    ensures
        accel_moves(0, max) == 1,
        1 <= accel_moves(sooner, max) <= accel_moves(later, max),
        max >= 1 ==> accel_moves(later, max) <= max,
{
}

/// A run of presses of one arrow: which, when the last came, and how many repeats.
#[derive(Debug, Clone, Copy, PartialEq, Eq, Structural)]
pub struct Hold {
    pub arrow: u8,
    /// In milliseconds.
    pub at: u64,
    pub repeats: u32,
}

/// The repeats of an arrow pressed now: one more than before where it goes on a run.
pub open spec fn repeats_now(hold: Option<Hold>, arrow: u8, now: u64) -> u32 {
    match hold {
        Some(h) => if h.arrow == arrow && now - h.at < ARROW_HOLD_GAP {
            if h.repeats < u32::MAX {
                (h.repeats + 1) as u32
            } else {
                u32::MAX
            }
        } else {
            0
        },
        None => 0,
    }
}

/// Take account of a press, and say how many moves it sends. A key that is no arrow, or
/// acceleration turned off, ends the run.
pub fn hold_arrow(hold: &mut Option<Hold>, accelerate: bool, arrow: Option<u8>, now: u64, max: u32) -> (r: usize)
    requires
        *old(hold) is Some ==> old(hold)->0.at <= now,
    ensures
        match arrow {
            Some(a) if accelerate => {
                let repeats = repeats_now(*old(hold), a, now);
                &&& *final(hold) == Some(Hold { arrow: a, at: now, repeats })
                &&& r == accel_moves(repeats as int, max as int)
            },
            _ => *final(hold) is None && r == 1,
        },
        r >= 1,
{
    match arrow {
        Some(a) => if accelerate {
            let repeats: u32 = match *hold {
                Some(h) => if h.arrow == a && now - h.at < ARROW_HOLD_GAP {
                    if h.repeats < u32::MAX {
                        h.repeats + 1
                    } else {
                        u32::MAX
                    }
                } else {
                    0
                },
                None => 0,
            };
            *hold = Some(Hold { arrow: a, at: now, repeats });
            arrow_accel_step(repeats, max)
        } else {
            *hold = None;
            1
        },
        None => {
            *hold = None;
            1
        },
    }
}

/// The keys that have a meaning of their own to the terminal.
#[derive(Debug, Clone, Copy, PartialEq, Eq, Structural)]
pub enum NamedKey {
    Escape,
    Enter,
    Space,
    Backspace,
    Left,
    Right,
    Up,
    Down,
    Home,
    End,
    PageUp,
    PageDown,
    /// Any other key.
    Other,
}

/// A move of the free end of a selection.
#[derive(Debug, Clone, Copy, PartialEq, Eq, Structural)]
pub enum Nav {
    Left,
    Right,
    Up,
    Down,
    LineStart,
    LineEnd,
    PageUp,
    PageDown,
    BufTop,
    BufBottom,
}

/// What a key does while a selection is driven by the keyboard.
#[derive(Debug, Clone, Copy, PartialEq, Eq, Structural)]
pub enum ComposeStep {
    /// Give the selection up.
    Cancel,
    /// Finish it: copy it, and leave it highlighted.
    Commit,
    /// Move its free end, faster and faster if the key is held.
    Glide(Nav),
    /// Move its free end once.
    Jump(Nav),
    /// Nothing. The key does not reach the shell either.
    Swallow,
}

/// What each key does while a selection is driven by the keyboard.
pub open spec fn compose_meaning(key: NamedKey, ctrl: bool) -> ComposeStep {
    match key {
        NamedKey::Escape => ComposeStep::Cancel,
        NamedKey::Enter => ComposeStep::Commit,
        NamedKey::Left => ComposeStep::Glide(Nav::Left),
        NamedKey::Right => ComposeStep::Glide(Nav::Right),
        NamedKey::Up => ComposeStep::Glide(Nav::Up),
        NamedKey::Down => ComposeStep::Glide(Nav::Down),
        NamedKey::Home => ComposeStep::Jump(
            if ctrl {
                Nav::BufTop
            } else {
                Nav::LineStart
            },
        ),
        NamedKey::End => ComposeStep::Jump(
            if ctrl {
                Nav::BufBottom
            } else {
                Nav::LineEnd
            },
        ),
        NamedKey::PageUp => ComposeStep::Jump(Nav::PageUp),
        NamedKey::PageDown => ComposeStep::Jump(Nav::PageDown),
        _ => ComposeStep::Swallow,
    }
}

/// What a key does while a selection is driven by the keyboard.
pub fn compose_key(key: NamedKey, ctrl: bool) -> (r: ComposeStep)
    ensures
        r == compose_meaning(key, ctrl),
{
    match key {
        NamedKey::Escape => ComposeStep::Cancel,
        NamedKey::Enter => ComposeStep::Commit,
        NamedKey::Left => ComposeStep::Glide(Nav::Left),
        NamedKey::Right => ComposeStep::Glide(Nav::Right),
        NamedKey::Up => ComposeStep::Glide(Nav::Up),
        NamedKey::Down => ComposeStep::Glide(Nav::Down),
        NamedKey::Home => if ctrl {
            ComposeStep::Jump(Nav::BufTop)
        } else {
            ComposeStep::Jump(Nav::LineStart)
        },
        NamedKey::End => if ctrl {
            ComposeStep::Jump(Nav::BufBottom)
        } else {
            ComposeStep::Jump(Nav::LineEnd)
        },
        NamedKey::PageUp => ComposeStep::Jump(Nav::PageUp),
        NamedKey::PageDown => ComposeStep::Jump(Nav::PageDown),
        _ => ComposeStep::Swallow,
    }
}

/// Where the free end of a selection may go.
#[derive(Debug, Clone, Copy, PartialEq, Eq, Structural)]
pub struct Bounds {
    pub cols: usize,
    pub min_line: i32,
    pub max_line: i32,
    pub page: usize,
}

/// Where the free end may go in a grid of this width, a cell being `cell_w` wide, with
/// `history` lines above the `screen` lines shown.
pub fn compose_bounds(content_w: i64, cell_w: i64, history: usize, screen: usize) -> (r: Bounds)
    requires
        0 <= content_w <= 0xffff_ffff,
        cell_w > 0,
        history <= 0x7fff_ffff,
        screen <= 0x7fff_ffff,
    ensures
        r.cols == content_w as int / cell_w as int,
        r.min_line == -(history as int),
        r.max_line == screen - 1,
        r.page == screen,
{
    proof {
        vstd::arithmetic::div_mod::lemma_div_is_ordered_by_denominator(content_w as int, 1, cell_w as int);
        vstd::arithmetic::div_mod::lemma_div_pos_is_pos(content_w as int, cell_w as int);
        assert(content_w as int / 1 == content_w);
    }
    Bounds {
        cols: (content_w / cell_w) as usize,
        min_line: -(history as i32),
        max_line: screen as i32 - 1,
        page: screen,
    }
}

/// The most lines that bringing the free end into view scrolls by.
pub const MAX_REVEAL: i64 = 10_000;

/// The lines to scroll a pane by, towards older ones if positive, so that the line
/// `head` comes into view. The lines from `-offset` to `screen - 1 - offset` are.
pub open spec fn reveal_lines(offset: int, screen: int, head: int) -> int {
    let up = -offset - head;
    let down = head - (screen - 1 - offset);
    if up > 0 {
        if up < MAX_REVEAL {
            up
        } else {
            MAX_REVEAL as int
        }
    } else if down > 0 {
        if down < MAX_REVEAL {
            -down
        } else {
            -MAX_REVEAL
        }
    } else {
        0
    }
}

/// The lines to scroll a pane by so that the line `head` comes into view.
pub fn scroll_head_into_view(offset: usize, screen: usize, head: i32) -> (r: i64)
    requires
        offset <= 0x7fff_ffff,
        screen <= 0x7fff_ffff,
    ensures
        r == reveal_lines(offset as int, screen as int, head as int),
{
    let up: i64 = -(offset as i64) - head as i64;
    let down: i64 = head as i64 - (screen as i64 - 1 - offset as i64);
    if up > 0 {
        if up < MAX_REVEAL {
            up
        } else {
            MAX_REVEAL
        }
    } else if down > 0 {
        if down < MAX_REVEAL {
            -down
        } else {
            -MAX_REVEAL
        }
    } else {
        0
    }
}

/// Scrolling by as much as is said brings the line into view, where it is not further
/// away than one reveal goes; and a line that is in view scrolls nothing.
pub proof fn revealing_brings_into_view(offset: int, screen: int, head: int)
    requires
        screen > 0,
        -MAX_REVEAL < reveal_lines(offset, screen, head) < MAX_REVEAL,
    ensures
        ({
            let after = offset + reveal_lines(offset, screen, head);
            -after <= head <= screen - 1 - after
        }),
        -offset <= head <= screen - 1 - offset ==> reveal_lines(offset, screen, head) == 0,
{
}

/// Whether `mover` made the move to the place `i` of a way.
pub open spec fn one_move<M: FnMut(Spot, Nav, Bounds) -> Spot>(
    path: Seq<Spot>,
    i: int,
    nav: Nav,
    bounds: Bounds,
    mover: M,
) -> bool {
    call_ensures(mover, (path[i - 1], nav, bounds), path[i])
}

/// Whether `path` is the way of the free end: one move of `mover` after another.
pub open spec fn moved_along<M: FnMut(Spot, Nav, Bounds) -> Spot>(
    path: Seq<Spot>,
    nav: Nav,
    bounds: Bounds,
    mover: M,
) -> bool {
    forall|i: int| 0 < i < path.len() ==> #[trigger] one_move(path, i, nav, bounds, mover)
}

/// The number by which a run of presses knows a direction.
pub open spec fn nav_tag(nav: Nav) -> u8 {
    match nav {
        Nav::Left => 0u8,
        Nav::Right => 1u8,
        Nav::Up => 2u8,
        Nav::Down => 3u8,
        Nav::LineStart => 4u8,
        Nav::LineEnd => 5u8,
        Nav::PageUp => 6u8,
        Nav::PageDown => 7u8,
        Nav::BufTop => 8u8,
        Nav::BufBottom => 9u8,
    }
}

fn tag_of(nav: Nav) -> (r: u8)
    ensures
        r == nav_tag(nav),
{
    match nav {
        Nav::Left => 0,
        Nav::Right => 1,
        Nav::Up => 2,
        Nav::Down => 3,
        Nav::LineStart => 4,
        Nav::LineEnd => 5,
        Nav::PageUp => 6,
        Nav::PageDown => 7,
        Nav::BufTop => 8,
        Nav::BufBottom => 9,
    }
}

/// Move the free end of a selection, `glide` saying that a held key moves it faster and
/// faster. `mover` makes one move.
#[verifier::loop_isolation(false)]
pub fn compose_nav<M: FnMut(Spot, Nav, Bounds) -> Spot>(
    sel: &mut Selection,
    hold: &mut Option<Hold>,
    nav: Nav,
    glide: bool,
    bounds: Bounds,
    now: u64,
    max: u32,
    mut mover: M,
)
    requires
        *old(hold) is Some ==> old(hold)->0.at <= now,
        forall|s: Spot, n: Nav, b: Bounds| call_requires(mover, (s, n, b)),
    ensures
        final(sel).pane == old(sel).pane,
        final(sel).anchor == old(sel).anchor,
        final(sel).block == old(sel).block,
        exists|path: Seq<Spot>| #[trigger]
            moved_along(path, nav, bounds, mover) && path.len() == 1 + (if glide {
                accel_moves(repeats_now(*old(hold), nav_tag(nav), now) as int, max as int)
            } else {
                1
            }) && path[0] == old(sel).head && path.last() == final(sel).head,
        *final(hold) == (if glide {
            Some(
                Hold {
                    arrow: nav_tag(nav),
                    at: now,
                    repeats: repeats_now(*old(hold), nav_tag(nav), now),
                },
            )
        } else {
            None
        }),
{
    let ghost asked = mover;
    let tag: u8 = tag_of(nav);
    let steps: usize = hold_arrow(hold, glide, Some(tag), now, max);
    let mut head: Spot = sel.head;
    let ghost mut path: Seq<Spot> = seq![sel.head];
    let mut k: usize = 0;
    while k < steps
        invariant
            k <= steps,
            mover == asked,
            path.len() == k + 1,
            path[0] == old(sel).head,
            path.last() == head,
            moved_along(path, nav, bounds, asked),
        decreases steps - k,
    {
        let ghost before = path;
        head = mover(head, nav, bounds);
        proof {
            path = before.push(head);
            assert forall|i: int| 0 < i < path.len() implies #[trigger] one_move(
                path,
                i,
                nav,
                bounds,
                asked,
            ) by {
                if i < before.len() {
                    assert(one_move(before, i, nav, bounds, asked));
                }
            }
        }
        k = k + 1;
    }
    sel.head = head;
}

/// A key press, as far as it matters here.
#[derive(Debug, Clone)]
pub struct Press {
    pub key: NamedKey,
    pub ctrl: bool,
    /// The chord that the key and the modifiers make, if they make one.
    pub chord: Option<Chord>,
    /// Whether the key is sent as an escape sequence, whatever text it makes.
    pub sequence: bool,
    /// What the key itself sends, if anything.
    pub key_bytes: Option<Vec<u8>>,
    /// What the text that the key made sends, if it made any.
    pub text_bytes: Option<Vec<u8>>,
}

/// What a key press comes to.
#[derive(Debug, Clone)]
pub enum Outcome {
    /// Nothing.
    Nothing,
    /// A step of the selection that the keyboard drives.
    Compose(ComposeStep),
    /// An action.
    Act(Action),
    /// Bytes for the shell, and the view back at the prompt.
    Feed(Vec<u8>),
}

/// What a press sends to the shell, if it comes to that: a key with a sequence of its
/// own sends that; any other sends the text it made or, without one, what the key does.
pub open spec fn typed(p: Press) -> Option<Vec<u8>> {
    if p.sequence {
        p.key_bytes
    } else if p.text_bytes is Some {
        p.text_bytes
    } else {
        p.key_bytes
    }
}

/// The arrow that a key is.
pub open spec fn arrow_of(key: NamedKey) -> Option<u8> {
    match key {
        NamedKey::Left => Some(0u8),
        NamedKey::Right => Some(1u8),
        NamedKey::Up => Some(2u8),
        NamedKey::Down => Some(3u8),
        _ => None,
    }
}

fn arrow(key: NamedKey) -> (r: Option<u8>)
    ensures
        r == arrow_of(key),
{
    match key {
        NamedKey::Left => Some(0),
        NamedKey::Right => Some(1),
        NamedKey::Up => Some(2),
        NamedKey::Down => Some(3),
        _ => None,
    }
}

/// `bytes`, `n` times over.
pub open spec fn times(bytes: Seq<u8>, n: nat) -> Seq<u8>
    decreases n,
{
    if n == 0 {
        Seq::empty()
    } else {
        times(bytes, (n - 1) as nat) + bytes
    }
}

fn repeated(bytes: &Vec<u8>, n: usize) -> (r: Vec<u8>)
    ensures
        r@ == times(bytes@, n as nat),
{
    let mut out: Vec<u8> = Vec::new();
    let mut k: usize = 0;
    assert(out@ =~= times(bytes@, 0));
    while k < n
        invariant
            k <= n,
            out@ == times(bytes@, k as nat),
        decreases n - k,
    {
        let ghost before = out@;
        let mut i: usize = 0;
        assert(before =~= before + bytes@.take(0));
        while i < bytes.len()
            invariant
                i <= bytes@.len(),
                out@ == before + bytes@.take(i as int),
            decreases bytes@.len() - i,
        {
            out.push(bytes[i]);
            assert(bytes@.take(i + 1) =~= bytes@.take(i as int).push(bytes@[i as int]));
            i = i + 1;
            assert(out@ =~= before + bytes@.take(i as int));
        }
        assert(bytes@.take(i as int) =~= bytes@);
        k = k + 1;
    }
    out
}

/// Decide what a key press does.
///
/// While a character is being composed from several keys, nothing: the result comes
/// later, as text. While the keyboard drives a selection, that. A chord that the keymap
/// knows runs its action. Anything else is typed, a held arrow several moves at a time.
pub fn on_key_press(
    press: &Press,
    composing_text: bool,
    composing: bool,
    keymap: &Keymap,
    hold: &mut Option<Hold>,
    accelerate: bool,
    max: u32,
    now: u64,
) -> (r: Outcome)
    requires
        *old(hold) is Some ==> old(hold)->0.at <= now,
    ensures
        ({
            let action = match press.chord {
                Some(chord) => bound_action(keymap.bindings@, chord),
                None => None,
            };
            if composing_text {
                r is Nothing && *final(hold) == *old(hold)
            } else if composing {
                r == Outcome::Compose(compose_meaning(press.key, press.ctrl)) && *final(hold) == *old(hold)
            } else if action is Some {
                r == Outcome::Act(action->0) && *final(hold) == *old(hold)
            } else {
                match typed(*press) {
                    None => r is Nothing && *final(hold) == *old(hold),
                    Some(bytes) => match arrow_of(press.key) {
                        Some(a) if accelerate => {
                            let repeats = repeats_now(*old(hold), a, now);
                            &&& *final(hold) == Some(Hold { arrow: a, at: now, repeats })
                            &&& r is Feed
                            &&& r->Feed_0@ == times(
                                bytes@,
                                accel_moves(repeats as int, max as int) as nat,
                            )
                        },
                        _ => *final(hold) is None && r is Feed && r->Feed_0@ == bytes@,
                    },
                }
            }
        }),
        composing_text || composing ==> !(r is Feed) && !(r is Act),
{
    if composing_text {
        return Outcome::Nothing;
    }
    if composing {
        return Outcome::Compose(compose_key(press.key, press.ctrl));
    }
    if let Some(chord) = press.chord {
        if let Some(action) = keymap.action_for(chord) {
            return Outcome::Act(action);
        }
    }
    let bytes: &Vec<u8> = if press.sequence || press.text_bytes.is_none() {
        match &press.key_bytes {
            Some(bytes) => bytes,
            None => return Outcome::Nothing,
        }
    } else {
        match &press.text_bytes {
            Some(bytes) => bytes,
            None => return Outcome::Nothing,
        }
    };
    let moves: usize = hold_arrow(hold, accelerate, arrow(press.key), now, max);
    proof {
        assert(times(bytes@, 0) =~= Seq::empty());
        assert(times(bytes@, 1) == times(bytes@, 0) + bytes@);
        assert(times(bytes@, 1) =~= bytes@);
    }
    Outcome::Feed(repeated(bytes, moves))
}

} // verus!

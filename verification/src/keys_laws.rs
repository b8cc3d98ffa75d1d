//! What keys are for: each arrow moves its own way, a held one faster and faster, and what
//! is typed reaches the shell as it is.
use vstd::prelude::*;
use crate::keymap::{Chord, Keymap};
use crate::keys::{
    arrow_accel_step, compose_bounds, compose_key, compose_nav, hold_arrow, on_key_press, scroll_head_into_view,
    times, Bounds, ComposeStep, Hold, NamedKey, Nav, Outcome, Press,
};
use crate::selection::{Selection, Spot};

verus! {

/// While the keyboard drives a selection each arrow moves the free end its own way, faster
/// and faster if it is held. Home and End go to the ends of the line, and with Control to
/// those of the buffer; the page keys go a page. Escape gives up, Enter finishes, and any
/// other key does nothing.
pub proof fn each_key_moves_its_own_way(key: NamedKey, ctrl: bool, r: ComposeStep)
    requires
        call_ensures(compose_key, (key, ctrl), r),
    ensures
        r == ComposeStep::Glide(Nav::Left) <==> key == NamedKey::Left,
        r == ComposeStep::Glide(Nav::Right) <==> key == NamedKey::Right,
        r == ComposeStep::Glide(Nav::Up) <==> key == NamedKey::Up,
        r == ComposeStep::Glide(Nav::Down) <==> key == NamedKey::Down,
        r == ComposeStep::Jump(Nav::LineStart) <==> key == NamedKey::Home && !ctrl,
        r == ComposeStep::Jump(Nav::BufTop) <==> key == NamedKey::Home && ctrl,
        r == ComposeStep::Jump(Nav::LineEnd) <==> key == NamedKey::End && !ctrl,
        r == ComposeStep::Jump(Nav::BufBottom) <==> key == NamedKey::End && ctrl,
        r == ComposeStep::Jump(Nav::PageUp) <==> key == NamedKey::PageUp,
        r == ComposeStep::Jump(Nav::PageDown) <==> key == NamedKey::PageDown,
        r == ComposeStep::Cancel <==> key == NamedKey::Escape,
        r == ComposeStep::Commit <==> key == NamedKey::Enter,
        r == ComposeStep::Swallow <==> key == NamedKey::Space || key == NamedKey::Backspace || key
            == NamedKey::Other,
{
}

/// No two keys do the same, but for those that do nothing.
pub proof fn no_two_keys_move_alike(a: NamedKey, b: NamedKey, ctrl: bool, r: ComposeStep, s: ComposeStep)
    requires
        call_ensures(compose_key, (a, ctrl), r),
        call_ensures(compose_key, (b, ctrl), s),
        a != b,
    ensures
        r == s ==> r == ComposeStep::Swallow,
{
}

/// A held arrow makes one move at each of its first repeats; from the fifth on it makes one
/// more at each, until it makes as many as it may.
pub proof fn a_held_arrow_gains_one_move_at_a_time(repeats: u32, max: u32, r: usize, next: usize)
    requires
        repeats < u32::MAX,
        call_ensures(arrow_accel_step, (repeats, max), r),
        call_ensures(arrow_accel_step, ((repeats + 1) as u32, max), next),
    ensures
        r >= 1,
        max >= 1 ==> r <= max,
        repeats <= 4 ==> r == 1,
        max > 1 && repeats >= 4 && r < max ==> next == r + 1,
        r == max ==> next == max,
        max <= 1 ==> r == 1,
{
}

/// Pressing one arrow again within a quarter of a second goes on with its run; another
/// arrow, or a longer pause, begins a new one. A key that is no arrow ends any run, and so
/// does every key where held arrows are not sped up.
pub proof fn a_run_is_of_one_arrow(
    hold: &mut Option<Hold>,
    accelerate: bool,
    arrow: Option<u8>,
    now: u64,
    max: u32,
    r: usize,
)
    requires
        call_ensures(hold_arrow, (hold, accelerate, arrow, now, max), r),
    ensures
        arrow is None || !accelerate ==> *final(hold) is None && r == 1,
        arrow is Some && accelerate ==> {
            &&& *final(hold) is Some
            &&& final(hold)->0.arrow == arrow->0
            &&& final(hold)->0.at == now
            &&& *old(hold) is None ==> final(hold)->0.repeats == 0 && r == 1
            &&& *old(hold) is Some && old(hold)->0.arrow != arrow->0 ==> final(hold)->0.repeats == 0 && r == 1
            &&& *old(hold) is Some && now - old(hold)->0.at >= 250 ==> final(hold)->0.repeats == 0 && r == 1
            &&& *old(hold) is Some && old(hold)->0.arrow == arrow->0 && now - old(hold)->0.at < 250
                && old(hold)->0.repeats < u32::MAX ==> final(hold)->0.repeats == old(hold)->0.repeats + 1
        },
{
}

/// A grid has as many columns as fit whole, and the free end may go from the oldest line
/// to the last on the screen.
pub proof fn the_free_end_stays_in_the_buffer(content_w: i64, cell_w: i64, history: usize, screen: usize, r: Bounds)
    requires
        call_ensures(compose_bounds, (content_w, cell_w, history, screen), r),
        content_w >= 0,
        cell_w > 0,
    ensures
        r.cols * cell_w <= content_w < (r.cols + 1) * cell_w,
        r.max_line - r.min_line + 1 == history + screen,
        r.min_line + history == 0,
        r.page == screen,
{
    vstd::arithmetic::div_mod::lemma_fundamental_div_mod(content_w as int, cell_w as int);
    vstd::arithmetic::div_mod::lemma_mod_bound(content_w as int, cell_w as int);
    assert(r.cols * cell_w == cell_w * (content_w as int / cell_w as int)) by (nonlinear_arith)
        requires
            r.cols == content_w as int / cell_w as int,
    ;
    assert((r.cols + 1) * cell_w == r.cols * cell_w + cell_w) by (nonlinear_arith);
}

/// A line above the view comes to its top, and one below it to its bottom, the view moving
/// no further than it must, and never more than ten thousand lines at once. A line in view
/// moves nothing.
pub proof fn a_line_comes_into_view(offset: usize, screen: usize, head: i32, r: i64)
    requires
        call_ensures(scroll_head_into_view, (offset, screen, head), r),
        screen > 0,
    ensures
        -offset <= head <= screen - 1 - offset <==> r == 0,
        head < -offset && -offset - head <= 10_000 ==> -(offset + r) == head,
        head > screen - 1 - offset && head - (screen - 1 - offset) <= 10_000 ==> screen - 1 - (offset + r)
            == head,
        head < -offset && -offset - head > 10_000 ==> r == 10_000,
        head > screen - 1 - offset && head - (screen - 1 - offset) > 10_000 ==> r == -10_000,
{
}

/// Moving the free end moves nothing but the free end. A key that is not held moves it
/// once, by one move of `mover` in the direction of the key.
pub proof fn only_the_free_end_moves<M: FnMut(Spot, Nav, Bounds) -> Spot>(
    sel: &mut Selection,
    hold: &mut Option<Hold>,
    nav: Nav,
    glide: bool,
    bounds: Bounds,
    now: u64,
    max: u32,
    mover: M,
)
    requires
        call_ensures(compose_nav::<M>, (sel, hold, nav, glide, bounds, now, max, mover), ()),
    ensures
        *final(sel) == (Selection { head: final(sel).head, ..*old(sel) }),
        !glide || *old(hold) is None ==> call_ensures(mover, (old(sel).head, nav, bounds), final(sel).head),
        glide <==> *final(hold) is Some,
{
    let moves = if glide {
        crate::keys::accel_moves(
            crate::keys::repeats_now(*old(hold), crate::keys::nav_tag(nav), now) as int,
            max as int,
        )
    } else {
        1
    };
    let path = choose|path: Seq<Spot>| #[trigger]
        crate::keys::moved_along(path, nav, bounds, mover) && path.len() == 1 + moves && path[0]
            == old(sel).head && path.last() == final(sel).head;
    if !glide || *old(hold) is None {
        assert(crate::keys::one_move(path, 1, nav, bounds, mover));
    }
}

proof fn lemma_times(bytes: Seq<u8>, n: nat)
    ensures
        times(bytes, n).len() == n * bytes.len(),
        forall|i: int|
            0 <= i < times(bytes, n).len() ==> #[trigger] times(bytes, n)[i] == bytes[i % bytes.len() as int],
    decreases n,
{
    if n > 0 {
        let m = (n - 1) as nat;
        lemma_times(bytes, m);
        let before = times(bytes, m);
        assert(n * bytes.len() == m * bytes.len() + bytes.len()) by (nonlinear_arith)
            requires
                n == m + 1,
        ;
        assert forall|i: int| 0 <= i < times(bytes, n).len() implies #[trigger] times(bytes, n)[i] == bytes[i
            % bytes.len() as int] by {
            if i < before.len() {
                assert(times(bytes, n)[i] == before[i]);
            } else {
                let d = bytes.len() as int;
                let k = i - before.len();
                assert(times(bytes, n)[i] == bytes[k]);
                assert(i == d * m + k) by (nonlinear_arith)
                    requires
                        i == k + m * d,
                ;
                vstd::arithmetic::div_mod::lemma_mod_multiples_vanish(m as int, k, d);
                vstd::arithmetic::div_mod::lemma_small_mod(k as nat, d as nat);
            }
        }
    } else {
        assert(0 * bytes.len() == 0) by (nonlinear_arith);
    }
}

/// What a key types reaches the shell as it is: a key with a sequence of its own sends that,
/// any other the text it made, or without one what the key sends. A held arrow sends it
/// several times over, and any other key once.
pub proof fn what_is_typed_reaches_the_shell(
    press: &Press,
    keymap: &Keymap,
    hold: &mut Option<Hold>,
    accelerate: bool,
    max: u32,
    now: u64,
    r: Outcome,
    bytes: Vec<u8>,
)
    requires
        call_ensures(on_key_press, (press, false, false, keymap, hold, accelerate, max, now), r),
        press.chord is None,
        if press.sequence || press.text_bytes is None {
            press.key_bytes == Some(bytes)
        } else {
            press.text_bytes == Some(bytes)
        },
    ensures
        r is Feed,
        ({
            let arrow = press.key == NamedKey::Left || press.key == NamedKey::Right || press.key == NamedKey::Up
                || press.key == NamedKey::Down;
            &&& !arrow || !accelerate || *old(hold) is None ==> r->Feed_0@ == bytes@
            &&& r->Feed_0@.len() >= bytes@.len()
            &&& forall|i: int|
                0 <= i < r->Feed_0@.len() ==> #[trigger] r->Feed_0@[i] == bytes@[i % bytes@.len() as int]
            &&& !arrow || !accelerate ==> *final(hold) is None
        }),
{
    let fed = r->Feed_0@;
    assert(crate::keys::typed(*press) == Some(bytes));
    assert(times(bytes@, 0) =~= Seq::empty());
    assert(times(bytes@, 1) == times(bytes@, 0) + bytes@);
    assert(times(bytes@, 1) =~= bytes@);
    lemma_times(bytes@, 1);
    match crate::keys::arrow_of(press.key) {
        Some(a) => if accelerate {
            let n = crate::keys::accel_moves(
                crate::keys::repeats_now(*old(hold), a, now) as int,
                max as int,
            ) as nat;
            lemma_times(bytes@, n);
            assert(n * bytes@.len() >= bytes@.len()) by (nonlinear_arith)
                requires
                    n >= 1,
            ;
        },
        None => {},
    }
}

/// While a character is being put together a key does nothing at all. While the keyboard
/// drives a selection every key is a step of it, and none reaches the shell or the keymap.
pub proof fn composing_keeps_keys_to_itself(
    press: &Press,
    composing_text: bool,
    keymap: &Keymap,
    hold: &mut Option<Hold>,
    accelerate: bool,
    max: u32,
    now: u64,
    r: Outcome,
    step: ComposeStep,
)
    requires
        call_ensures(on_key_press, (press, composing_text, true, keymap, hold, accelerate, max, now), r),
        call_ensures(compose_key, (press.key, press.ctrl), step),
    ensures
        composing_text ==> r == Outcome::Nothing,
        !composing_text ==> r == Outcome::Compose(step),
        *final(hold) == *old(hold),
{
}

/// A chord that the keymap knows runs its action, and types nothing.
pub proof fn a_known_chord_runs_its_action(
    press: &Press,
    keymap: &Keymap,
    hold: &mut Option<Hold>,
    accelerate: bool,
    max: u32,
    now: u64,
    r: Outcome,
    chord: Chord,
    action: Option<crate::keymap::Action>,
)
    requires
        call_ensures(on_key_press, (press, false, false, keymap, hold, accelerate, max, now), r),
        call_ensures(Keymap::action_for, (keymap, chord), action),
        press.chord == Some(chord),
    ensures
        action is Some ==> r == Outcome::Act(action->0),
        action is None ==> !(r is Act),
{
}

} // verus!

//! What actions are for: the settings they change, what they open, and what remains to be
//! done about them.
use vstd::prelude::*;
use vstd::string::*;
use crate::actions::{
    apply_action, composition, session_result, App, Composition, Follow, Next, SessionEvent,
};
use crate::commit::Slot;
use crate::gestures::Desk;
use crate::keymap::{Action, Keymap};
use crate::keys::{Bounds, ComposeStep, Nav, Press};
use crate::menu::{MenuPick, Row};
use crate::overlays::{picker_event, DialogEvent, MenuEvent, Open, Picker, PickerEvent, PickerTurn};
use crate::overlays_laws::has_closed;
use crate::patch_bay::{Stream, Wire};
use crate::reactions::KeyReaction;
use crate::selection::{Selection, Spot};
use crate::settings::{Catalog, Rgb, Settings, SettingsModel};
use crate::settings_window::PrefLine;

verus! {

broadcast use vstd::string::group_string_axioms;

/// What is open is said of each part by itself.
pub proof fn what_is_open_is_said(app: &App, r: Open)
    requires
        call_ensures(App::overlays, (app,), r),
    ensures
        r.picker <==> app.picker is Some,
        r.prefs <==> app.dialog.open,
        r.manual <==> app.manual.open,
        r.menu <==> app.menu is Some,
        r.search <==> app.search.open,
{
}

/// An action changes the one setting that it is for: the opacity by a twentieth, up to opaque
/// and down to a twentieth, or to nothing behind a blur; the font size by two pixels, up to
/// 72 and down to 6, or back to what it was at first; or who gets the focus. No other does.
pub proof fn an_action_changes_its_own_setting(app: &mut App, action: Action, focus: u64, r: Follow)
    requires
        call_ensures(apply_action, (app, action, focus), r),
    ensures
        ({
            let a = old(app).settings@;
            let b = final(app).settings@;
            let least = if a.background_blur { 0int } else { 50 };
            let up = a.background_opacity + 50;
            let down = a.background_opacity - 50;
            &&& action == Action::OpacityUp ==> b.background_opacity == (if up > 1_000 {
                1_000
            } else if up < least {
                least
            } else {
                up
            })
            &&& action == Action::OpacityDown ==> b.background_opacity == (if down > 1_000 {
                1_000
            } else if down < least {
                least
            } else {
                down
            })
            &&& action != Action::OpacityUp && action != Action::OpacityDown ==> b.background_opacity
                == a.background_opacity
            &&& action == Action::ZoomIn ==> b.font_size == (if a.font_size > 70_000 {
                72_000
            } else {
                a.font_size + 2_000
            })
            &&& action == Action::ZoomOut ==> b.font_size == (if a.font_size < 8_000 {
                6_000
            } else {
                a.font_size - 2_000
            })
            &&& action == Action::ZoomReset ==> b.font_size == old(app).default_font_size
            &&& action != Action::ZoomIn && action != Action::ZoomOut && action != Action::ZoomReset ==> b.font_size
                == a.font_size
            &&& b.focus_follows_mouse <==> (a.focus_follows_mouse != (action == Action::ToggleFocusFollowsMouse))
            &&& b == (SettingsModel {
                background_opacity: b.background_opacity,
                font_size: b.font_size,
                focus_follows_mouse: b.focus_follows_mouse,
                ..a
            })
        }),
{
}

/// What remains to be done about an action is what the action is for, and no action of the
/// panes is taken for another.
pub proof fn what_remains_is_what_the_action_is_for(app: &mut App, action: Action, focus: u64, r: Follow)
    requires
        call_ensures(apply_action, (app, action, focus), r),
    ensures
        r == Follow::Opacity <==> action == Action::OpacityUp || action == Action::OpacityDown,
        r == Follow::Persist <==> action == Action::ToggleFocusFollowsMouse,
        r == Follow::Fonts <==> action == Action::ZoomIn || action == Action::ZoomOut || action
            == Action::ZoomReset,
        r == Follow::OpenPrefs <==> action == Action::Preferences && !old(app).dialog.open,
        r == Follow::Fullscreen <==> action == Action::Fullscreen,
        r is Pipe <==> action == Action::PipeInto,
        r is Pipe ==> r->Pipe_0 == focus,
        r is Session ==> r->Session_0 == action,
        r == Follow::Paint <==> action == Action::Search || action == Action::Manual || action
            == Action::WireStdout || action == Action::WireStderr || action == Action::Unwire || (action
            == Action::Preferences && old(app).dialog.open),
{
}

/// An action opens and closes what it is for: the manual either way, the search bar anew for
/// the pane with the focus, and open preferences are closed.
pub proof fn an_action_opens_what_it_is_for(app: &mut App, action: Action, focus: u64, r: Follow)
    requires
        call_ensures(apply_action, (app, action, focus), r),
    ensures
        final(app).manual.open <==> (old(app).manual.open != (action == Action::Manual)),
        final(app).manual.scroll == old(app).manual.scroll,
        final(app).dialog.open <==> old(app).dialog.open && action != Action::Preferences,
        final(app).dialog.pending == old(app).dialog.pending,
        final(app).menu == old(app).menu,
        final(app).picker == old(app).picker,
        action == Action::Search ==> final(app).search.index == 0,
        action == Action::Search ==> final(app).search.open && final(app).search.pane == Some(focus)
            && final(app).search.query@.len() == 0 && final(app).search.matches@.len() == 0,
        action != Action::Search ==> final(app).search == old(app).search,
        final(app).desk.selection == old(app).desk.selection,
        final(app).desk.composing == old(app).desk.composing,
{
}

proof fn lemma_kept(s: Seq<Wire>, keep: spec_fn(Wire) -> bool, w: Wire)
    ensures
        s.filter(keep).contains(w) <==> s.contains(w) && keep(w),
    decreases s.len(),
{
    reveal(Seq::filter);
    if s.len() > 0 {
        let rest = s.drop_last();
        lemma_kept(rest, keep, w);
        let out = s.filter(keep);
        let before = rest.filter(keep);
        if s.contains(w) {
            let i = choose|i: int| 0 <= i < s.len() && s[i] == w;
            if i < s.len() - 1 {
                assert(rest[i] == w);
            }
        }
        if rest.contains(w) {
            let i = choose|i: int| 0 <= i < rest.len() && rest[i] == w;
            assert(s[i] == w);
        }
        if before.contains(w) {
            let i = choose|i: int| 0 <= i < before.len() && before[i] == w;
            assert(out[i] == w);
        }
        if keep(s.last()) {
            assert(out =~= before.push(s.last()));
            assert(out[before.len() as int] == s.last());
            if out.contains(w) {
                let i = choose|i: int| 0 <= i < out.len() && out[i] == w;
                if i < before.len() {
                    assert(before[i] == w);
                }
            }
        }
        assert(s[s.len() - 1] == s.last());
    }
}

/// A wiring action begins a wire at the pane with the focus, from the output or the errors
/// as it says; the next one ends it at the pane that then has the focus, carrying what the
/// first one said. Unwiring takes out every wire from or to the pane with the focus.
pub proof fn two_wiring_actions_make_a_wire(app: &mut App, action: Action, focus: u64, r: Follow, w: Wire)
    requires
        call_ensures(apply_action, (app, action, focus), r),
    ensures
        ({
            let a = old(app).desk.bay;
            let b = final(app).desk.bay;
            let wiring = action == Action::WireStdout || action == Action::WireStderr;
            &&& b.jacked == a.jacked
            &&& wiring && a.armed is None ==> b.wires@ == a.wires@ && b.armed == Some(
                (focus, if action == Action::WireStdout { Stream::Stdout } else { Stream::Stderr }),
            )
            &&& wiring && a.armed is Some ==> {
                let (src, stream) = a.armed->0;
                let fits = src != focus && a.jacked@.contains(src) && a.jacked@.contains(focus);
                &&& b.armed is None
                &&& !fits ==> b.wires@ == a.wires@
                &&& fits ==> b.wires@.len() == a.wires@.len() + 1 && b.wires@.take(a.wires@.len() as int) == a.wires@
                    && b.wires@.last().src == src && b.wires@.last().stream == stream && b.wires@.last().dst
                    == focus && b.wires@.last().moved == 0
            }
            &&& !wiring ==> b.armed == a.armed
            &&& action == Action::Unwire ==> (b.wires@.contains(w) <==> a.wires@.contains(w) && w.src != focus && w.dst
                != focus)
            &&& !wiring && action != Action::Unwire ==> b.wires@ == a.wires@
        }),
{
    let a = old(app).desk.bay;
    let b = final(app).desk.bay;
    lemma_kept(a.wires@, |w: Wire| w.src != focus && w.dst != focus, w);
    if b.wires@.len() == a.wires@.len() + 1 {
        assert(b.wires@.take(a.wires@.len() as int) =~= a.wires@);
    }
}

/// What the panes made of an action asks for what it is, and a change of layout is painted
/// whole.
pub proof fn what_the_panes_did_is_followed_up(desk: &mut Desk, event: Option<SessionEvent>, r: Next)
    requires
        call_ensures(session_result, (desk, event), r),
    ensures
        r == Next::Exit <==> event == Some(SessionEvent::CloseWindow),
        r == Next::CopySelection <==> event == Some(SessionEvent::Copy),
        r == Next::PasteClipboard <==> event == Some(SessionEvent::Paste),
        r == Next::Paint <==> event == Some(SessionEvent::Redraw),
        r == Next::Nothing <==> event is None,
        final(desk).force_full <==> old(desk).force_full || event == Some(SessionEvent::Redraw),
        *final(desk) == (Desk { force_full: final(desk).force_full, ..*old(desk) }),
{
}

/// A character that is being put together keeps its keys to itself as long as there is
/// anything of it; once it is done it is typed, if it is anything.
pub proof fn a_composed_character_is_typed_when_done(app: &mut App, event: &Composition, r: bool)
    requires
        call_ensures(composition, (app, event), r),
    ensures
        *final(app) == (App { composing_text: final(app).composing_text, ..*old(app) }),
        match *event {
            Composition::Commit(text) => !final(app).composing_text && (r <==> text@.len() > 0),
            Composition::Preedit(any) => final(app).composing_text == any && !r,
            Composition::Enabled => final(app).composing_text == old(app).composing_text && !r,
            Composition::Disabled => !final(app).composing_text && !r,
        },
{
}

/// A row of the menu does what it says: its action is run as its key would have run it, on
/// the pane with the focus, and any other pick is handed over.
pub proof fn a_menu_row_runs_its_action(
    app: &mut App,
    event: MenuEvent,
    rows: &Vec<Row>,
    focus: u64,
    r: (Option<MenuPick>, Option<Follow>),
    i: usize,
)
    requires
        call_ensures(App::menu_input, (app, event, rows, focus), r),
        old(app).menu is Some,
        event == MenuEvent::Click(Some(i)),
        i < rows@.len(),
        rows@[i as int].enabled,
        rows@[i as int].action is Some,
    ensures
        ({
            let (pick, follow) = r;
            let meaning = rows@[i as int].action->0@;
            &&& pick is Some && pick->0@ == meaning
            &&& final(app).menu is None
            &&& follow is Some <==> meaning is Do
        }),
{
}

/// A key in the preferences' picker, or a press there, does to the picker what it is for; a
/// colour that it gives is pending in the preferences, which stay open.
pub proof fn the_picker_leaves_the_preferences_open<R: FnOnce(Picker) -> Rgb>(
    app: &mut App,
    event: PickerEvent,
    rgb: R,
    now: u64,
    r: Option<Settings>,
)
    requires
        call_ensures(App::picker_input::<R>, (app, event, rgb, now), r),
        old(app).picker is Some,
    ensures
        final(app).dialog.open == old(app).dialog.open,
        final(app).settings == old(app).settings,
        final(app).picker is None ==> (r is Some <==> old(app).dialog.pending is Some),
        final(app).picker is None && r is Some ==> r->0@ == old(app).dialog.pending->0@,
        final(app).picker is None <==> event == PickerEvent::Escape || event == PickerEvent::Press(
            crate::overlays::PickerHit::Done,
        ) || event == PickerEvent::Press(crate::overlays::PickerHit::Outside),
        final(app).picker is Some ==> r is None,
{
}

/// The picker of the preferences does with an event what a picker does. Where it closes, what
/// pended is handed over and pends no more; where its colour is to be written, the colour that
/// the picker then shows pends as a picked colour does; and else nothing of the preferences
/// changes.
pub proof fn the_picker_writes_the_colour_it_shows<R: FnOnce(Picker) -> Rgb>(
    app: &mut App,
    event: PickerEvent,
    rgb: R,
    now: u64,
    r: Option<Settings>,
    picker: &mut Option<Picker>,
    turn: PickerTurn,
)
    requires
        call_ensures(App::picker_input::<R>, (app, event, rgb, now), r),
        old(app).picker is Some,
        *old(picker) == old(app).picker,
        call_ensures(picker_event, (picker, event), turn),
    ensures
        final(app).picker == *final(picker),
        turn is Closed ==> final(app).dialog.pending is None,
        turn is Closed && r is Some ==> final(app).dialog.edits == 0,
        turn is Closed && r is None ==> final(app).dialog.edits == old(app).dialog.edits,
        turn is Nothing ==> final(app).dialog == old(app).dialog,
        turn is Write ==> {
            let (before, after) = (old(app).dialog, final(app).dialog);
            let base = if before.pending is Some {
                before.pending->0@
            } else {
                old(app).settings@
            };
            &&& after.pending is Some
            &&& after.last_edit == now
            &&& before.edits < u64::MAX ==> after.edits == before.edits + 1
            &&& exists|c: Rgb| #[trigger]
                call_ensures(rgb, (final(app).picker->0,), c) && coloured(
                    base,
                    after.pending->0@,
                    old(app).picker->0.slot,
                    c,
                )
        },
        final(app).dialog.sel == old(app).dialog.sel,
        final(app).dialog.scroll == old(app).dialog.scroll,
{
    if turn is Write {
        let (before, after) = (old(app).dialog, final(app).dialog);
        let base = crate::overlays::edited(before.pending, old(app).settings);
        let slot = old(app).picker->0.slot;
        let c = choose|c: Rgb| #[trigger]
            call_ensures(rgb, (final(app).picker->0,), c) && crate::overlays::settings_view(after.pending) == Some(
                crate::commit::with_slot(base, slot, c),
            );
        assert(coloured(base, after.pending->0@, slot, c));
    }
}

/// Whether `after` is `before` with the colour of `slot` set to `c`.
pub open spec fn coloured(before: SettingsModel, after: SettingsModel, slot: Slot, c: Rgb) -> bool {
    &&& after.foreground == (if slot is Fg {
        c
    } else {
        before.foreground
    })
    &&& after.background == (if slot is Bg {
        c
    } else {
        before.background
    })
    &&& after.palette.len() == before.palette.len()
    &&& forall|i: int|
        0 <= i < before.palette.len() ==> #[trigger] after.palette[i] == (if slot is Palette && slot->Palette_0 == i {
            c
        } else {
            before.palette[i]
        })
    &&& after == SettingsModel {
        foreground: after.foreground,
        background: after.background,
        palette: after.palette,
        ..before
    }
}

/// While the keyboard drives a selection a press moves the free end, finishes the selection
/// or gives it up, and never reaches the shell; while a character is being put together a
/// press does nothing.
pub proof fn composing_takes_every_key<M: FnMut(Spot, Nav, Bounds) -> Spot>(
    app: &mut App,
    press: &Press,
    keymap: &Keymap,
    focus: u64,
    bounds: Option<Bounds>,
    now: u64,
    mover: M,
    r: KeyReaction,
    step: ComposeStep,
)
    requires
        call_ensures(App::key_input::<M>, (app, press, keymap, focus, bounds, now, mover), r),
        call_ensures(crate::keys::compose_key, (press.key, press.ctrl), step),
    ensures
        old(app).composing_text ==> r is Nothing && *final(app) == *old(app),
        !old(app).composing_text && old(app).desk.composing ==> {
            let d = old(app).desk;
            let e = final(app).desk;
            let moves = (step is Glide || step is Jump) && d.selection is Some && bounds is Some;
            &&& r is GivenUp <==> step == ComposeStep::Cancel
            &&& r is Finished <==> step == ComposeStep::Commit
            &&& r is Moved <==> moves
            &&& r is GivenUp ==> e.selection is None && !e.composing
            &&& r is Finished ==> e.selection == d.selection && !e.composing
            &&& r is Moved ==> e.selection is Some && e.composing && e.selection->0 == (Selection {
                head: e.selection->0.head,
                ..d.selection->0
            })
            &&& r is Nothing ==> *final(app) == *old(app)
            &&& final(app).settings == old(app).settings
        },
        !old(app).composing_text && !old(app).desk.composing ==> !(r is Moved) && !(r is GivenUp) && !(r is Finished),
{
}

/// A jump moves the free end once, by one move of `mover` in its own direction; so does an
/// arrow, the first time or where held arrows are not sped up.
pub proof fn one_press_makes_one_move<M: FnMut(Spot, Nav, Bounds) -> Spot>(
    app: &mut App,
    step: ComposeStep,
    bounds: Option<Bounds>,
    now: u64,
    mover: M,
    r: KeyReaction,
    nav: Nav,
)
    requires
        call_ensures(App::compose_input::<M>, (app, step, bounds, now, mover), r),
        r is Moved,
        step == ComposeStep::Jump(nav) || (step == ComposeStep::Glide(nav) && (old(app).hold is None
            || !old(app).settings.arrow_accel)),
    ensures
        call_ensures(
            mover,
            (old(app).desk.selection->0.head, nav, bounds->0),
            final(app).desk.selection->0.head,
        ),
        final(app).hold is Some <==> step is Glide && old(app).settings.arrow_accel,
{
    let before = *old(app);
    let after = *final(app);
    let n = crate::reactions::compose_moves(
        step,
        before.hold,
        before.settings.arrow_accel,
        before.settings.arrow_accel_max,
        now,
    );
    let path = choose|path: Seq<Spot>| #[trigger]
        crate::keys::moved_along(path, nav, bounds->0, mover) && path.len() == 1 + n && path[0]
            == before.desk.selection->0.head && path.last() == after.desk.selection->0.head;
    assert(crate::keys::one_move(path, 1, nav, bounds->0, mover));
}

/// A chord that the keymap knows runs its action on the pane with the focus; anything else
/// is typed into the shell.
pub proof fn a_press_acts_or_types<M: FnMut(Spot, Nav, Bounds) -> Spot>(
    app: &mut App,
    press: &Press,
    keymap: &Keymap,
    focus: u64,
    bounds: Option<Bounds>,
    now: u64,
    mover: M,
    r: KeyReaction,
)
    requires
        call_ensures(App::key_input::<M>, (app, press, keymap, focus, bounds, now, mover), r),
        !old(app).composing_text,
        !old(app).desk.composing,
    ensures
        press.chord is None ==> !(r is Acted),
        press.chord is Some ==> forall|a: Action| #[trigger]
            call_ensures(Keymap::action_for, (keymap, press.chord->0), Some(a)) ==> r is Acted,
        press.chord is None && !press.sequence && press.text_bytes is Some && press.key
            == crate::keys::NamedKey::Other ==> r is Feed && r->Feed_0@ == press.text_bytes->0@,
        press.chord is None && (press.sequence || press.text_bytes is None) && press.key_bytes is Some && press.key
            == crate::keys::NamedKey::Other ==> r is Feed && r->Feed_0@ == press.key_bytes->0@,
        !(r is Acted) ==> *final(app) == (App { hold: final(app).hold, ..*old(app) }),
{
}

/// The preferences do to the whole what they do by themselves: nothing else changes, and
/// closing hands over what was edited.
pub proof fn the_preferences_change_only_themselves<F: FnMut(&String) -> bool>(
    app: &mut App,
    event: DialogEvent,
    rows: &Vec<PrefLine>,
    families: &Vec<String>,
    terms: &Vec<String>,
    catalog: &Catalog,
    usable: &mut F,
    now: u64,
    r: Option<Settings>,
)
    requires
        call_ensures(App::dialog_input::<F>, (app, event, rows, families, terms, catalog, usable, now), r),
    ensures
        *final(app) == (App { dialog: final(app).dialog, ..*old(app) }),
        event == DialogEvent::Escape ==> has_closed(old(app).dialog, final(app).dialog, old(app).dialog.sel, r),
        !(event == DialogEvent::Escape) && final(app).dialog.open ==> r is None,
{
}

/// A press on a swatch opens the picker on the colour that the swatch shows.
pub proof fn a_swatch_opens_the_picker_on_its_colour(
    app: &mut App,
    swatch: usize,
    h: u16,
    s: u16,
    v: u16,
    slot: crate::commit::Slot,
)
    requires
        call_ensures(App::open_picker, (app, swatch, h, s, v), ()),
        call_ensures(crate::commit::slot_of_swatch, (swatch,), slot),
    ensures
        final(app).picker == Some(Picker { slot, h, s, v, drag: None }),
        *final(app) == (App { picker: final(app).picker, ..*old(app) }),
{
}

} // verus!

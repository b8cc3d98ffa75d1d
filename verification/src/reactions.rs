//! What the whole does about an event that has found its layer.
use vstd::prelude::*;
use vstd::string::*;
use crate::actions::{acted, apply_action, follow_up, App, Follow};
use crate::commit::{slot_of_swatch, with_slot, Slot};
use crate::gestures::{compose_cancel, compose_commit, Desk};
use crate::keymap::{bound_action, Action, Keymap};
use crate::keys::{
    accel_moves, arrow_of, compose_meaning, compose_nav, moved_along, nav_tag, on_key_press, repeats_now,
    times, typed, Bounds, ComposeStep, Hold, Nav, Outcome, Press,
};
use crate::menu::{Meaning, MenuPick, Row};
use crate::overlays::{
    dialog_event, dialog_move, dismissed_by, editable, edited, edits_left, menu_after, menu_event, one_more,
    pick_view, picked, picker_after, picker_event, picker_writes, settings_view, Dialog, DialogEvent,
    DialogMove, MenuEvent, Picker, PickerEvent, PickerHit, PickerTurn,
};
use crate::prefs_model::{may_step, PickerDismiss};
use crate::selection::{Selection, Spot};
use crate::settings::{Catalog, Rgb, Settings};
use crate::settings_window::PrefLine;

verus! {

impl App {
    /// What an event does in the colour picker; `rgb` says which colour a picker shows.
    /// Whatever is handed over is to be applied: dismissing the picker applies
    /// what was edited, and leaves the preferences open.
    pub fn picker_input<R: FnOnce(Picker) -> Rgb>(&mut self, event: PickerEvent, rgb: R, now: u64) -> (r: Option<
        Settings,
    >)
        requires
            old(self).wf(),
            old(self).picker is Some,
            forall|p: Picker| call_requires(rgb, (p,)),
        ensures
            final(self).wf(),
            *final(self) == (App {
                picker: final(self).picker,
                dialog: final(self).dialog,
                ..*old(self)
            }),
            final(self).dialog.open == old(self).dialog.open,
            final(self).dialog.sel == old(self).dialog.sel,
            final(self).dialog.scroll == old(self).dialog.scroll,
            match dismissed_by(event) {
                Some(_) => {
                    &&& final(self).picker is None
                    &&& settings_view(r) == settings_view(old(self).dialog.pending)
                    &&& final(self).dialog.pending is None
                    &&& final(self).dialog.edits == edits_left(old(self).dialog)
                    &&& final(self).dialog.last_edit == old(self).dialog.last_edit
                },
                None => {
                    &&& r is None
                    &&& final(self).picker == Some(picker_after(old(self).picker->0, event))
                    &&& if picker_writes(old(self).picker->0, event) {
                        &&& exists|c: Rgb| #[trigger]
                            call_ensures(rgb, (picker_after(old(self).picker->0, event),), c)
                                && settings_view(final(self).dialog.pending) == Some(
                                with_slot(
                                    edited(old(self).dialog.pending, old(self).settings),
                                    old(self).picker->0.slot,
                                    c,
                                ),
                            )
                        &&& final(self).dialog.last_edit == now
                        &&& final(self).dialog.edits == one_more(old(self).dialog.edits)
                    } else {
                        final(self).dialog == old(self).dialog
                    }
                },
            },
    {
        match picker_event(&mut self.picker, event) {
            PickerTurn::Closed => {
                let way: PickerDismiss = match event {
                    PickerEvent::Escape => PickerDismiss::Escape,
                    PickerEvent::Press(PickerHit::Done) => PickerDismiss::Done,
                    _ => PickerDismiss::ClickedOutside,
                };
                self.dialog.close_picker(way)
            },
            PickerTurn::Write => {
                if let Some(p) = self.picker {
                    let colour: Rgb = rgb(p);
                    self.dialog.picker_write(&self.settings, p.slot, colour, now);
                }
                None
            },
            PickerTurn::Nothing => None,
        }
    }

    /// A press on a swatch opens the colour picker on its colour, at the hue, saturation
    /// and value that it has.
    pub fn open_picker(&mut self, swatch: usize, h: u16, s: u16, v: u16)
        requires
            old(self).wf(),
            old(self).dialog.open,
        ensures
            final(self).wf(),
            *final(self) == (App {
                picker: Some(
                    Picker {
                        slot: if swatch == 0 {
                            Slot::Fg
                        } else if swatch == 1 {
                            Slot::Bg
                        } else {
                            Slot::Palette((swatch - 2) as usize)
                        },
                        h,
                        s,
                        v,
                        drag: None,
                    },
                ),
                ..*old(self)
            }),
    {
        self.picker = Some(Picker { slot: slot_of_swatch(swatch), h, s, v, drag: None });
    }

    /// What an event does in the preferences. Whatever is handed over is to be applied:
    /// closing them applies what was edited.
    pub fn dialog_input<F: FnMut(&String) -> bool>(
        &mut self,
        event: DialogEvent,
        rows: &Vec<PrefLine>,
        families: &Vec<String>,
        terms: &Vec<String>,
        catalog: &Catalog,
        usable: &mut F,
        now: u64,
    ) -> (r: Option<Settings>)
        requires
            old(self).wf(),
            old(self).dialog.open,
            old(self).picker is None,
            forall|f: &String| call_requires(*old(usable), (f,)),
        ensures
            final(self).wf(),
            *final(self) == (App { dialog: final(self).dialog, ..*old(self) }),
            *final(usable) == *old(usable),
            match dialog_move(rows@, old(self).dialog.sel, old(self).dialog.scroll, event) {
                DialogMove::Close(i) => {
                    &&& settings_view(r) == settings_view(old(self).dialog.pending)
                    &&& !final(self).dialog.open
                    &&& final(self).dialog.pending is None
                    &&& final(self).dialog.sel == i
                    &&& final(self).dialog.scroll == old(self).dialog.scroll
                    &&& final(self).dialog.edits == edits_left(old(self).dialog)
                    &&& final(self).dialog.last_edit == old(self).dialog.last_edit
                },
                DialogMove::SelectRow(i, s) => {
                    &&& r is None
                    &&& final(self).dialog == (Dialog { sel: i, scroll: s, ..old(self).dialog })
                },
                DialogMove::Nothing => r is None && final(self).dialog == old(self).dialog,
                DialogMove::StepRow(i, dir) => {
                    &&& r is None
                    &&& final(self).dialog.open
                    &&& final(self).dialog.sel == i
                    &&& final(self).dialog.scroll == old(self).dialog.scroll
                    &&& match editable(rows@, i as int) {
                        None => final(self).dialog == (Dialog { sel: i, ..old(self).dialog }),
                        Some(row) => {
                            &&& final(self).dialog.pending is Some
                            &&& may_step(
                                edited(old(self).dialog.pending, old(self).settings),
                                row,
                                dir as int,
                                families@,
                                terms@,
                                *catalog,
                                *old(usable),
                                final(self).dialog.pending->0@,
                            )
                            &&& final(self).dialog.last_edit == now
                            &&& final(self).dialog.edits == one_more(old(self).dialog.edits)
                        },
                    }
                },
            },
    {
        dialog_event(
            &mut self.dialog,
            event,
            &self.settings,
            rows,
            families,
            terms,
            catalog,
            usable,
            now,
        )
    }

    /// What an event does in the menu: what remains to be done about the row that was
    /// picked, if one was. An action has been run as its key would have run it.
    pub fn menu_input(&mut self, event: MenuEvent, rows: &Vec<Row>, focus: u64) -> (r: (
        Option<MenuPick>,
        Option<Follow>,
    ))
        requires
            old(self).wf(),
            old(self).menu is Some,
            old(self).picker is None,
        ensures
            final(self).wf(),
            pick_view(r.0) == (match event {
                MenuEvent::Click(row) => picked(rows@, row),
                _ => None,
            }),
            match pick_view(r.0) {
                Some(Meaning::Do(action)) => {
                    &&& r.1 == Some(follow_up(action, old(self).dialog.open, focus))
                    &&& acted(
                        App { menu: menu_after(old(self).menu, event, rows@), ..*old(self) },
                        *final(self),
                        action,
                        focus,
                    )
                },
                _ => r.1 is None && *final(self) == (App {
                    menu: menu_after(old(self).menu, event, rows@),
                    ..*old(self)
                }),
            },
    {
        let pick: Option<MenuPick> = menu_event(&mut self.menu, event, rows);
        let mut next: Option<Follow> = None;
        if let Some(MenuPick::Do(action)) = &pick {
            next = Some(apply_action(self, *action, focus));
        }
        (pick, next)
    }
}

/// What a key press came to.
#[derive(Debug, Clone)]
pub enum KeyReaction {
    Nothing,
    /// An action has been run, and this remains to be done.
    Acted(Follow),
    /// The selection that the keyboard drove is given up.
    GivenUp,
    /// It is finished, and to be copied.
    Finished,
    /// Its free end has moved, and is to be brought into view.
    Moved,
    /// These bytes go to the shell, and the view goes back to the prompt.
    Feed(Vec<u8>),
}

/// How many moves a step of the selection makes, a held key making more of them.
pub open spec fn compose_moves(step: ComposeStep, hold: Option<Hold>, accelerate: bool, max: u32, now: u64) -> int {
    match step {
        ComposeStep::Glide(nav) => if accelerate {
            accel_moves(repeats_now(hold, nav_tag(nav), now) as int, max as int)
        } else {
            1
        },
        _ => 1,
    }
}

/// The arrow that is held after a move of the selection's free end: the one that glides,
/// counted once more, where held arrows go faster; none otherwise.
pub open spec fn held_after(step: ComposeStep, hold: Option<Hold>, accel: bool, now: u64) -> Option<Hold> {
    match step {
        ComposeStep::Glide(nav) => if accel {
            Some(Hold { arrow: nav_tag(nav), at: now, repeats: repeats_now(hold, nav_tag(nav), now) })
        } else {
            None
        },
        _ => None,
    }
}

/// What a move of the selection's free end comes to: nothing, without a selection or where
/// it is not known where its end may go.
pub open spec fn moved_outcome<M: FnMut(Spot, Nav, Bounds) -> Spot>(
    before: App,
    after: App,
    step: ComposeStep,
    nav: Nav,
    bounds: Option<Bounds>,
    now: u64,
    mover: M,
    r: KeyReaction,
) -> bool {
    if before.desk.selection is Some && bounds is Some {
        &&& r is Moved
        &&& after.desk.selection is Some
        &&& after == (App {
            desk: Desk { selection: after.desk.selection, force_full: true, ..before.desk },
            hold: after.hold,
            ..before
        })
        &&& after.hold == held_after(step, before.hold, before.settings.arrow_accel, now)
        &&& after.desk.selection->0 == (Selection {
            head: after.desk.selection->0.head,
            ..before.desk.selection->0
        })
        &&& exists|path: Seq<Spot>| #[trigger]
            moved_along(path, nav, bounds->0, mover) && path.len() == 1 + compose_moves(
                step,
                before.hold,
                before.settings.arrow_accel,
                before.settings.arrow_accel_max,
                now,
            ) && path[0] == before.desk.selection->0.head && path.last() == after.desk.selection->0.head
    } else {
        r is Nothing && after == before
    }
}

/// What a step of the selection comes to.
pub open spec fn compose_outcome<M: FnMut(Spot, Nav, Bounds) -> Spot>(
    before: App,
    after: App,
    step: ComposeStep,
    bounds: Option<Bounds>,
    now: u64,
    mover: M,
    r: KeyReaction,
) -> bool {
    match step {
        ComposeStep::Cancel => r is GivenUp && after == (App {
            desk: Desk {
                composing: false,
                shift_press: false,
                selection: None,
                force_full: true,
                ..before.desk
            },
            ..before
        }),
        ComposeStep::Commit => r is Finished && after == (App {
            desk: Desk { composing: false, shift_press: false, force_full: true, ..before.desk },
            ..before
        }),
        ComposeStep::Swallow => r is Nothing && after == before,
        ComposeStep::Glide(nav) => moved_outcome(before, after, step, nav, bounds, now, mover, r),
        ComposeStep::Jump(nav) => moved_outcome(before, after, step, nav, bounds, now, mover, r),
    }
}

/// What typing comes to: the bytes go to the shell, a held arrow's several times over.
pub open spec fn typed_outcome(before: App, after: App, press: Press, now: u64, r: KeyReaction) -> bool {
    &&& after == (App { hold: after.hold, ..before })
    &&& match typed(press) {
        None => r is Nothing && after.hold == before.hold,
        Some(bytes) => if before.settings.arrow_accel && arrow_of(press.key) is Some {
            let a = arrow_of(press.key)->0;
            let repeats = repeats_now(before.hold, a, now);
            &&& after.hold == Some(Hold { arrow: a, at: now, repeats })
            &&& r is Feed
            &&& r->Feed_0@ == times(
                bytes@,
                accel_moves(repeats as int, before.settings.arrow_accel_max as int) as nat,
            )
        } else {
            after.hold is None && r is Feed && r->Feed_0@ == bytes@
        },
    }
}

/// The action that a press asks for.
pub open spec fn pressed_action(press: Press, keymap: Keymap) -> Option<Action> {
    match press.chord {
        Some(chord) => bound_action(keymap.bindings@, chord),
        None => None,
    }
}

impl App {
    /// What a step of the selection that the keyboard drives does. `bounds` says where
    /// its free end may go, and `mover` makes one move of it.
    pub fn compose_input<M: FnMut(Spot, Nav, Bounds) -> Spot>(
        &mut self,
        step: ComposeStep,
        bounds: Option<Bounds>,
        now: u64,
        mover: M,
    ) -> (r: KeyReaction)
        requires
            old(self).wf(),
            old(self).hold is Some ==> old(self).hold->0.at <= now,
            forall|s: Spot, n: Nav, b: Bounds| call_requires(mover, (s, n, b)),
        ensures
            final(self).wf(),
            compose_outcome(*old(self), *final(self), step, bounds, now, mover, r),
    {
        let (nav, glide): (Nav, bool) = match step {
            ComposeStep::Cancel => {
                compose_cancel(&mut self.desk);
                return KeyReaction::GivenUp;
            },
            ComposeStep::Commit => {
                compose_commit(&mut self.desk);
                return KeyReaction::Finished;
            },
            ComposeStep::Swallow => return KeyReaction::Nothing,
            ComposeStep::Glide(nav) => (nav, self.settings.arrow_accel),
            ComposeStep::Jump(nav) => (nav, false),
        };
        let mut sel: Selection = match self.desk.selection {
            Some(sel) => sel,
            None => return KeyReaction::Nothing,
        };
        let b: Bounds = match bounds {
            Some(b) => b,
            None => return KeyReaction::Nothing,
        };
        let max: u32 = self.settings.arrow_accel_max;
        compose_nav(&mut sel, &mut self.hold, nav, glide, b, now, max, mover);
        self.desk.selection = Some(sel);
        self.desk.force_full = true;
        assert(moved_outcome(*old(self), *self, step, nav, bounds, now, mover, KeyReaction::Moved));
        KeyReaction::Moved
    }

    /// What a key press does, the focus being on the pane `focus`: what the press decides
    /// is done.
    pub fn key_input<M: FnMut(Spot, Nav, Bounds) -> Spot>(
        &mut self,
        press: &Press,
        keymap: &Keymap,
        focus: u64,
        bounds: Option<Bounds>,
        now: u64,
        mover: M,
    ) -> (r: KeyReaction)
        requires
            old(self).wf(),
            old(self).picker is None,
            old(self).hold is Some ==> old(self).hold->0.at <= now,
            forall|s: Spot, n: Nav, b: Bounds| call_requires(mover, (s, n, b)),
        ensures
            final(self).wf(),
            old(self).composing_text ==> r is Nothing && *final(self) == *old(self),
            !old(self).composing_text && old(self).desk.composing ==> compose_outcome(
                *old(self),
                *final(self),
                compose_meaning(press.key, press.ctrl),
                bounds,
                now,
                mover,
                r,
            ),
            !old(self).composing_text && !old(self).desk.composing && pressed_action(
                *press,
                *keymap,
            ) is Some ==> {
                let action = pressed_action(*press, *keymap)->0;
                &&& r == KeyReaction::Acted(follow_up(action, old(self).dialog.open, focus))
                &&& acted(*old(self), *final(self), action, focus)
            },
            !old(self).composing_text && !old(self).desk.composing && pressed_action(
                *press,
                *keymap,
            ) is None ==> typed_outcome(*old(self), *final(self), *press, now, r),
            old(self).composing_text || old(self).desk.composing ==> !(r is Feed) && !(r is Acted),
    {
        let accelerate: bool = self.settings.arrow_accel;
        let max: u32 = self.settings.arrow_accel_max;
        let outcome: Outcome = on_key_press(
            press,
            self.composing_text,
            self.desk.composing,
            keymap,
            &mut self.hold,
            accelerate,
            max,
            now,
        );
        match outcome {
            Outcome::Nothing => KeyReaction::Nothing,
            Outcome::Act(action) => KeyReaction::Acted(apply_action(self, action, focus)),
            Outcome::Feed(bytes) => KeyReaction::Feed(bytes),
            Outcome::Compose(step) => self.compose_input(step, bounds, now, mover),
        }
    }
}

} // verus!

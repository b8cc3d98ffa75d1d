//! Running an action: the one place where a key, a menu row and a menu-bar item meet.
use vstd::prelude::*;
use vstd::string::*;
use crate::gestures::Desk;
use crate::keymap::Action;
use crate::keys::Hold;
use crate::overlays::{Dialog, Manual, Menu, Open, Picker};
use crate::patch_bay::{fresh_wire, PatchBay, Stream, Wire};
use crate::search::Search;
use crate::settings::{opacity_floor, with_opacity, Settings, SettingsModel, MAX_OPACITY};

verus! {

/// Everything that the user's actions change, beside the panes themselves.
pub struct App {
    pub settings: Settings,
    /// The font size that a reset goes back to, in thousandths of a pixel.
    pub default_font_size: u32,
    pub dialog: Dialog,
    pub picker: Option<Picker>,
    pub manual: Manual,
    pub menu: Option<Menu>,
    pub search: Search,
    pub desk: Desk,
    /// A character is being composed from several keys.
    pub composing_text: bool,
    pub hold: Option<Hold>,
}

impl App {
    /// What holds of every state: the colour picker lies over the preferences, and the
    /// parts are what they must be.
    pub open spec fn wf(&self) -> bool {
        &&& self.desk.wf()
        &&& self.search.wf()
        &&& self.picker is Some ==> self.dialog.open
        &&& self.manual.scroll <= 0x7fff_ffff
    }

    /// What is open over the terminal.
    pub open spec fn open(&self) -> Open {
        Open {
            picker: self.picker is Some,
            prefs: self.dialog.open,
            manual: self.manual.open,
            menu: self.menu is Some,
            search: self.search.open,
        }
    }

    /// What is open over the terminal.
    pub fn overlays(&self) -> (r: Open)
        ensures
            r == self.open(),
    {
        Open {
            picker: self.picker.is_some(),
            prefs: self.dialog.open,
            manual: self.manual.open,
            menu: self.menu.is_some(),
            search: self.search.open,
        }
    }
}

/// The greatest and the least font size that zooming goes to, and its step, in
/// thousandths of a pixel.
pub const ZOOM_MAX: u32 = 72_000;

pub const ZOOM_MIN: u32 = 6_000;

pub const ZOOM_STEP: u32 = 2_000;

/// One step of the opacity, in thousandths.
pub const OPACITY_KEY_STEP: i32 = 50;

/// What remains to be done about an action.
#[derive(Debug, Clone, Copy, PartialEq, Eq, Structural)]
pub enum Follow {
    /// Write the settings to their file, tell the compositor whether to blur, and paint.
    Opacity,
    /// Write the settings to their file, and paint.
    Persist,
    /// Write the settings to their file, load the fonts at their size, and paint.
    Fonts,
    /// Open the preferences, and paint.
    OpenPrefs,
    /// Paint.
    Paint,
    /// Split the pane, and wire this one's output to the new one's input.
    Pipe(u64),
    /// Go to full screen, or back.
    Fullscreen,
    /// The panes' own business.
    Session(Action),
}

/// The settings after an action.
pub open spec fn settings_after(m: SettingsModel, action: Action, default_font: u32) -> SettingsModel {
    match action {
        Action::OpacityUp => with_opacity(m, OPACITY_KEY_STEP as int),
        Action::OpacityDown => with_opacity(m, -OPACITY_KEY_STEP),
        Action::ToggleFocusFollowsMouse => SettingsModel {
            focus_follows_mouse: !m.focus_follows_mouse,
            ..m
        },
        Action::ZoomIn => SettingsModel {
            font_size: if m.font_size + ZOOM_STEP < ZOOM_MAX {
                m.font_size + ZOOM_STEP
            } else {
                ZOOM_MAX as int
            },
            ..m
        },
        Action::ZoomOut => SettingsModel {
            font_size: if m.font_size - ZOOM_STEP > ZOOM_MIN {
                m.font_size - ZOOM_STEP
            } else {
                ZOOM_MIN as int
            },
            ..m
        },
        Action::ZoomReset => SettingsModel { font_size: default_font as int, ..m },
        _ => m,
    }
}

/// What remains to be done about an action, the preferences being open or not, and the
/// focus being on a pane.
pub open spec fn follow_up(action: Action, prefs_open: bool, focus: u64) -> Follow {
    match action {
        Action::OpacityUp | Action::OpacityDown => Follow::Opacity,
        Action::ToggleFocusFollowsMouse => Follow::Persist,
        Action::ZoomIn | Action::ZoomOut | Action::ZoomReset => Follow::Fonts,
        Action::Preferences => if prefs_open {
            Follow::Paint
        } else {
            Follow::OpenPrefs
        },
        Action::Search | Action::WireStdout | Action::WireStderr | Action::Unwire | Action::Manual => Follow::Paint,
        Action::PipeInto => Follow::Pipe(focus),
        Action::Fullscreen => Follow::Fullscreen,
        other => Follow::Session(other),
    }
}

/// The stream that a wiring action arms.
pub open spec fn wired_stream(action: Action) -> Option<Stream> {
    match action {
        Action::WireStdout => Some(Stream::Stdout),
        Action::WireStderr => Some(Stream::Stderr),
        _ => None,
    }
}

/// What remains to be done about an action.
fn follow(action: Action, prefs_open: bool, focus: u64) -> (r: Follow)
    ensures
        r == follow_up(action, prefs_open, focus),
{
    match action {
        Action::OpacityUp | Action::OpacityDown => Follow::Opacity,
        Action::ToggleFocusFollowsMouse => Follow::Persist,
        Action::ZoomIn | Action::ZoomOut | Action::ZoomReset => Follow::Fonts,
        Action::Preferences => if prefs_open {
            Follow::Paint
        } else {
            Follow::OpenPrefs
        },
        Action::Search | Action::WireStdout | Action::WireStderr | Action::Unwire | Action::Manual => Follow::Paint,
        Action::PipeInto => Follow::Pipe(focus),
        Action::Fullscreen => Follow::Fullscreen,
        other => Follow::Session(other),
    }
}

/// What an action does to the settings.
fn change_settings(s: &mut Settings, action: Action, default_font: u32)
    ensures
        final(s)@ == settings_after(old(s)@, action, default_font),
{
    match action {
        Action::OpacityUp => {
            s.adjust_opacity(OPACITY_KEY_STEP);
        },
        Action::OpacityDown => {
            s.adjust_opacity(-OPACITY_KEY_STEP);
        },
        Action::ToggleFocusFollowsMouse => {
            s.focus_follows_mouse = !s.focus_follows_mouse;
        },
        Action::ZoomIn => {
            let next: u64 = s.font_size as u64 + ZOOM_STEP as u64;
            s.font_size = if next < ZOOM_MAX as u64 {
                next as u32
            } else {
                ZOOM_MAX
            };
        },
        Action::ZoomOut => {
            s.font_size = if s.font_size > ZOOM_MIN + ZOOM_STEP {
                s.font_size - ZOOM_STEP
            } else {
                ZOOM_MIN
            };
        },
        Action::ZoomReset => {
            s.font_size = default_font;
        },
        _ => {},
    }
}

/// The search bar after an action: opened for the focused pane by the one that asks for
/// it, and left alone by any other.
pub open spec fn search_after(before: Search, after: Search, action: Action, focus: u64) -> bool {
    if action == Action::Search {
        &&& after.open
        &&& after.query@.len() == 0
        &&& after.matches@.len() == 0
        &&& after.index == 0
        &&& after.pane == Some(focus)
    } else {
        after == before
    }
}

/// The wires after an action: one armed or completed, those of the focused pane taken
/// out, or all of them as they were.
pub open spec fn bay_after(before: PatchBay, after: PatchBay, action: Action, focus: u64) -> bool {
    &&& after.jacked == before.jacked
    &&& match wired_stream(action) {
        Some(stream) => match before.armed {
            None => after.armed == Some((focus, stream)) && after.wires@ == before.wires@,
            Some((src, s)) => after.armed is None && after.wires@ == (if before.joinable(src, focus) {
                before.wires@.push(fresh_wire(src, s, focus))
            } else {
                before.wires@
            }),
        },
        None => after.armed == before.armed && after.wires@ == (if action == Action::Unwire {
            before.wires@.filter(|w: Wire| w.src != focus && w.dst != focus)
        } else {
            before.wires@
        }),
    }
}

/// Whether `after` is what an action makes of `before`, the focus being on a pane.
pub open spec fn acted(before: App, after: App, action: Action, focus: u64) -> bool {
    &&& after.settings@ == settings_after(before.settings@, action, before.default_font_size)
    &&& search_after(before.search, after.search, action, focus)
    &&& bay_after(before.desk.bay, after.desk.bay, action, focus)
    &&& after == (App {
        settings: after.settings,
        dialog: Dialog {
            open: before.dialog.open && action != Action::Preferences,
            ..before.dialog
        },
        manual: Manual {
            open: if action == Action::Manual {
                !before.manual.open
            } else {
                before.manual.open
            },
            ..before.manual
        },
        search: after.search,
        desk: Desk {
            bay: after.desk.bay,
            force_full: before.desk.force_full || action == Action::Unwire,
            ..before.desk
        },
        ..before
    })
}

/// Run an action, the focus being on the pane `focus`, and say what remains to be done.
pub fn apply_action(app: &mut App, action: Action, focus: u64) -> (r: Follow)
    requires
        old(app).wf(),
        old(app).picker is None,
    ensures
        final(app).wf(),
        r == follow_up(action, old(app).dialog.open, focus),
        acted(*old(app), *final(app), action, focus),
{
    let next: Follow = follow(action, app.dialog.open, focus);
    let default_font: u32 = app.default_font_size;
    change_settings(&mut app.settings, action, default_font);
    match action {
        Action::Preferences => {
            app.dialog.open = false;
        },
        Action::Search => {
            app.search.start(focus);
        },
        Action::WireStdout => {
            app.desk.bay.wire_gesture(focus, Stream::Stdout);
        },
        Action::WireStderr => {
            app.desk.bay.wire_gesture(focus, Stream::Stderr);
        },
        Action::Unwire => {
            app.desk.bay.unwire(focus);
            app.desk.force_full = true;
        },
        Action::Manual => {
            app.manual.open = !app.manual.open;
        },
        _ => {},
    }
    next
}

/// What the panes made of an action.
#[derive(Debug, Clone, Copy, PartialEq, Eq, Structural)]
pub enum SessionEvent {
    /// The last pane has closed.
    CloseWindow,
    Copy,
    Paste,
    /// What is on the screen has changed.
    Redraw,
}

/// What remains to be done about that.
#[derive(Debug, Clone, Copy, PartialEq, Eq, Structural)]
pub enum Next {
    Exit,
    CopySelection,
    PasteClipboard,
    Paint,
    Nothing,
}

/// What remains to be done about what the panes made of an action. A change of layout
/// must be painted whole: panes that come into view have nothing new to say of
/// themselves.
pub fn session_result(desk: &mut Desk, event: Option<SessionEvent>) -> (r: Next)
    ensures
        r == (match event {
            Some(SessionEvent::CloseWindow) => Next::Exit,
            Some(SessionEvent::Copy) => Next::CopySelection,
            Some(SessionEvent::Paste) => Next::PasteClipboard,
            Some(SessionEvent::Redraw) => Next::Paint,
            None => Next::Nothing,
        }),
        *final(desk) == (Desk {
            force_full: old(desk).force_full || event == Some(SessionEvent::Redraw),
            ..*old(desk)
        }),
{
    match event {
        Some(SessionEvent::CloseWindow) => Next::Exit,
        Some(SessionEvent::Copy) => Next::CopySelection,
        Some(SessionEvent::Paste) => Next::PasteClipboard,
        Some(SessionEvent::Redraw) => {
            desk.force_full = true;
            Next::Paint
        },
        None => Next::Nothing,
    }
}

/// Text that is composed from several keys.
#[derive(Debug, Clone)]
pub enum Composition {
    /// It is done, and this is it.
    Commit(String),
    /// It is under way: whether there is anything of it yet.
    Preedit(bool),
    Enabled,
    Disabled,
}

/// Take in what happens while a character is composed from several keys, and say whether
/// its text is to be typed. As long as anything of it is under way, its keys are not.
pub fn composition(app: &mut App, event: &Composition) -> (r: bool)
    requires
        old(app).wf(),
    ensures
        final(app).wf(),
        *final(app) == (App {
            composing_text: match event {
                Composition::Commit(_) => false,
                Composition::Preedit(any) => *any,
                Composition::Enabled => old(app).composing_text,
                Composition::Disabled => false,
            },
            ..*old(app)
        }),
        r == (match event {
            Composition::Commit(text) => text@.len() > 0,
            _ => false,
        }),
{
    match event {
        Composition::Commit(text) => {
            app.composing_text = false;
            !text.as_str().is_empty()
        },
        Composition::Preedit(any) => {
            app.composing_text = *any;
            false
        },
        Composition::Enabled => false,
        Composition::Disabled => {
            app.composing_text = false;
            false
        },
    }
}

/// Zooming never leaves its bounds, and asking for the opacity never does either.
pub proof fn zoom_and_opacity_stay_in_bounds(m: SettingsModel, action: Action, default_font: u32)
    ensures
        action == Action::ZoomIn ==> settings_after(m, action, default_font).font_size <= ZOOM_MAX,
        action == Action::ZoomOut ==> settings_after(m, action, default_font).font_size >= ZOOM_MIN,
        action == Action::OpacityUp || action == Action::OpacityDown ==> opacity_floor(
            m.background_blur,
        ) <= settings_after(m, action, default_font).background_opacity <= MAX_OPACITY,
{
}

} // verus!

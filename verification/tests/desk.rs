use rt::actions::{
    apply_action, composition, session_result, App, Composition, Follow, Next, SessionEvent,
};
use rt::commit::{commit_settings, set_slot, slot_of_swatch, Slot, Work};
use rt::geometry::{Area, Point};
use rt::gestures::{
    autoscroll, extend_to_edge, left_press, left_release, middle_press, pointer_moved, right_press,
    update_cursor, wheel_turned, Autoscroll, BarFound, Cell, Desk, Divider, Found, Icon, LeftPress,
    LeftRelease, LineFound, MiddlePress, Motion, RightPress, ScrollDrag, Wheel,
};
use rt::keymap::{Action, Chord, Key, Keymap, Mods};
use rt::keys::{
    arrow_accel_step, compose_bounds, compose_key, hold_arrow, on_key_press, scroll_head_into_view,
    Bounds, ComposeStep, Hold, NamedKey, Nav, Outcome, Press,
};
use rt::menu::{rows, MenuPick};
use rt::mouse::{Pointer, Pressed, Wants};
use rt::overlays::{
    dialog_event, manual_event, menu_event, picker_event, route, search_key, Dialog, DialogEvent,
    Drag, Kind, Layer, Manual, ManualEvent, Menu, MenuEvent, Open, Picker, PickerEvent, PickerHit,
    PickerTurn, SearchKey, SearchTurn,
};
use rt::patch_bay::{PatchBay, Stream};
use rt::prefs_model::{PickerDismiss, PrefRow};
use rt::prefs_native::RowKind;
use rt::reactions::KeyReaction;
use rt::scale_policy::ScaleArm;
use rt::search::{Match, Search};
use rt::selection::{Run, Selection, Spot};
use rt::settings::{Catalog, Rgb, Settings};
use rt::settings_window::PrefLine;
use rt::startup::{apply_overrides, Overrides};
use rt::tick::{
    badge_crash, badge_exit, ending, tick, window_title, Clock, Ending, Found as Turned, PaneEvent,
};

const NONE: Mods = Mods { control: false, shift: false, alt: false, logo: false };
const SHIFT: Mods = Mods { shift: true, ..NONE };
const CTRL: Mods = Mods { control: true, ..NONE };
const QUIET: Wants = Wants { mouse: false, motion: false, sgr: true };
const MOUSE: Wants = Wants { mouse: true, motion: false, sgr: true };

fn rgb(r: u8, g: u8, b: u8) -> Rgb {
    Rgb { r, g, b }
}

fn settings() -> Settings {
    Settings {
        font_size: 18_000,
        font_family: "Alpha Mono".to_string(),
        background_opacity: 900,
        background_blur: false,
        scrim_strength: 500,
        macos_glass_material: "regular".to_string(),
        macos_blur_radius: 20,
        chrome_theme: "classic".to_string(),
        foreground: rgb(200, 200, 200),
        background: rgb(0, 0, 0),
        palette: [rgb(1, 2, 3); 16],
        focus_follows_mouse: false,
        show_titlebar: true,
        scrollback: 10_000,
        inst_output: true,
        inst_heat: true,
        inst_latency: false,
        show_jacks: false,
        inst_remote: false,
        inst_animate: false,
        arrow_accel: true,
        arrow_accel_max: 6,
        term: "rt".to_string(),
    }
}

fn catalog() -> Catalog {
    Catalog {
        schemes: vec![],
        materials: vec![],
        themes: vec!["classic".to_string(), "paper".to_string()],
        min_blur_radius: 1,
        max_blur_radius: 64,
    }
}

fn desk() -> Desk {
    let mut bay = PatchBay::new();
    bay.jacked = vec![1, 2];
    Desk {
        mouse: Point { x: 0, y: 0 },
        mods: NONE,
        pointer: Pointer { pressed: None, hover: None },
        bay,
        drag_cursor: None,
        scroll_drag: None,
        divider: None,
        selection: None,
        selecting: false,
        composing: false,
        shift_press: false,
        last_click: None,
        click_count: 0,
        icon: None,
        last_autoscroll: 0,
        force_full: false,
    }
}

fn app() -> App {
    App {
        settings: settings(),
        default_font_size: 18_000,
        dialog: Dialog::closed(),
        picker: None,
        manual: Manual { open: false, scroll: 0 },
        menu: None,
        search: Search::closed(),
        desk: desk(),
        composing_text: false,
        hold: None,
    }
}

fn cell(col: usize, row: usize, wants: Wants) -> Option<Cell> {
    Some(Cell { pane: 1, col, row, offset: 2, wants })
}

fn found(cell: Option<Cell>) -> Found {
    Found {
        jack: None,
        divider: None,
        bar: None,
        tab: None,
        cell,
        link: false,
        word: Some(Run { start_row: 1, start_col: 3, end_row: 1, end_col: 6 }),
        line: LineFound { first_row: 1, last_row: 2, last_col: 9 },
    }
}

fn spot(col: usize, line: i32) -> Spot {
    Spot { col, line }
}

#[test]
fn one_two_and_three_clicks_select_more_and_more() {
    let mut d = desk();
    let f = found(cell(4, 1, QUIET));
    assert!(matches!(left_press(&mut d, &f, 1_000), LeftPress::Select));
    assert!(d.selecting);
    assert_eq!(d.selection.unwrap().anchor, spot(4, -1));
    assert!(matches!(left_release(&mut d, f.cell, None, None), LeftRelease::Ended { copy: false }));
    assert!(d.selection.is_none(), "a click selects nothing");
    assert!(matches!(left_press(&mut d, &f, 1_100), LeftPress::Selected));
    let s = d.selection.unwrap();
    assert_eq!((s.anchor, s.head), (spot(3, -1), spot(6, -1)), "the word");
    assert!(matches!(left_release(&mut d, f.cell, None, None), LeftRelease::Ended { copy: true }));
    assert!(matches!(left_press(&mut d, &f, 1_200), LeftPress::Selected));
    let s = d.selection.unwrap();
    assert_eq!((s.anchor, s.head), (spot(0, -1), spot(9, 0)), "the line");
    assert!(matches!(left_press(&mut d, &f, 1_300), LeftPress::Select), "and round again");
    assert!(matches!(left_press(&mut d, &f, 2_000), LeftPress::Select), "too late for a second");
    assert_eq!(d.click_count, 1);
}

#[test]
fn control_selects_a_block() {
    let mut d = desk();
    d.mods = CTRL;
    left_press(&mut d, &found(cell(4, 1, QUIET)), 0);
    assert!(d.selection.unwrap().block);
}

#[test]
fn shift_keeps_the_pointer_from_the_program() {
    let f = found(cell(4, 1, MOUSE));
    let mut d = desk();
    match left_press(&mut d, &f, 0) {
        LeftPress::Deliver(x) => assert_eq!(x.bytes, b"\x1b[<0;5;2M".to_vec()),
        other => panic!("{other:?}"),
    }
    assert_eq!(d.pointer.pressed, Some(Pressed { pane: 1, button: 0 }));
    let mut d = desk();
    d.mods = SHIFT;
    assert!(matches!(left_press(&mut d, &f, 0), LeftPress::Select));
    assert!(matches!(right_press(&mut d, None, f.cell), RightPress::Menu));
    assert!(matches!(middle_press(&mut d, f.cell), MiddlePress::Paste));
    assert!(matches!(wheel_turned(&mut d, 3, f.cell), Wheel::Scroll(3)));
}

#[test]
fn a_press_grabs_what_comes_first() {
    let bar = BarFound { pane: 1, rect: Area { x: 0, y: 0, w: 64, h: 6400 }, thumb_y: 640, thumb_h: 1280 };
    let divider = Divider { id: 5, horizontal: true, start: 0, len: 64_000 };
    let all = || Found {
        jack: Some((1, Stream::Stdout)),
        divider: Some(divider),
        bar: Some(bar),
        tab: Some(9),
        link: true,
        ..found(cell(0, 0, MOUSE))
    };
    let mut d = desk();
    assert!(matches!(left_press(&mut d, &all(), 0), LeftPress::Wiring));
    assert_eq!(d.icon, Some(Icon::Grabbing));
    let mut d = desk();
    assert!(matches!(left_press(&mut d, &Found { jack: None, ..all() }, 0), LeftPress::Resizing));
    assert_eq!(d.divider, Some(divider));
    let mut d = desk();
    d.mouse = Point { x: 0, y: 1000 };
    let f = Found { jack: None, divider: None, ..all() };
    assert!(matches!(left_press(&mut d, &f, 0), LeftPress::Scrolling));
    assert_eq!(d.scroll_drag, Some(ScrollDrag { pane: 1, grab: 360, rect: bar.rect }));
    let mut d = desk();
    assert!(matches!(left_press(&mut d, &f, 0), LeftPress::Scrolling));
    assert_eq!(d.scroll_drag.unwrap().grab, 640, "on the track, the thumb's middle");
    let f = Found { bar: None, ..f };
    assert!(matches!(left_press(&mut desk(), &f, 0), LeftPress::Tab(9)));
    let f = Found { tab: None, ..f };
    assert!(matches!(left_press(&mut desk(), &f, 0), LeftPress::Deliver(_)));
    let mut d = desk();
    d.mods = CTRL;
    assert!(matches!(left_press(&mut d, &f, 0), LeftPress::Link));
    let nowhere = Found { cell: None, ..f };
    assert!(matches!(left_press(&mut desk(), &nowhere, 0), LeftPress::Focus));
}

#[test]
fn shift_and_a_click_begin_a_selection_for_the_keyboard() {
    let mut d = desk();
    d.mods = SHIFT;
    left_press(&mut d, &found(cell(4, 1, QUIET)), 0);
    left_release(&mut d, cell(4, 1, QUIET), None, None);
    assert!(d.composing && d.selection.is_some());
    let far = found(cell(8, 3, QUIET));
    d.mouse = Point { x: 6_400, y: 6_400 };
    assert!(matches!(left_press(&mut d, &far, 50), LeftPress::Finished));
    assert_eq!(d.selection.unwrap().head, spot(8, 1));
    assert!(!d.composing);
    d.composing = true;
    d.mods = NONE;
    assert!(matches!(left_press(&mut d, &far, 9_000), LeftPress::GivenUp));
    assert!(d.selection.is_none() && !d.composing);
}

#[test]
fn a_drag_extends_the_selection_of_its_own_pane() {
    let mut d = desk();
    left_press(&mut d, &found(cell(4, 1, QUIET)), 0);
    let to = Point { x: 100, y: 100 };
    assert!(matches!(
        pointer_moved(&mut d, to, cell(7, 3, QUIET), false, false),
        Motion::Selecting(true)
    ));
    assert_eq!(d.selection.unwrap().head, spot(7, 1));
    let other = Some(Cell { pane: 2, ..cell(0, 0, QUIET).unwrap() });
    assert!(matches!(pointer_moved(&mut d, to, other, false, false), Motion::Selecting(false)));
    assert_eq!(d.selection.unwrap().head, spot(7, 1));
    assert!(matches!(left_release(&mut d, None, None, None), LeftRelease::Ended { copy: true }));
    assert!(!d.selecting);
}

#[test]
fn a_divider_follows_the_pointer_within_bounds() {
    let divider = Divider { id: 5, horizontal: true, start: 640, len: 64_000 };
    let mut d = desk();
    d.divider = Some(divider);
    let ratio = |d: &mut Desk, x: i64| match pointer_moved(d, Point { x, y: 0 }, None, false, false) {
        Motion::Resizing(_, r) => r,
        other => panic!("{other:?}"),
    };
    assert_eq!(ratio(&mut d, 640 + 32_000), 500_000_000);
    assert_eq!(ratio(&mut d, 640 + 32_064), 501_000_000, "one pixel further");
    assert_eq!(ratio(&mut d, 0), 50_000_000);
    assert_eq!(ratio(&mut d, 640 + 64_000), 950_000_000);
}

#[test]
fn motion_goes_to_who_owns_the_pointer() {
    let to = Point { x: 1, y: 1 };
    let mut d = desk();
    d.pointer.pressed = Some(Pressed { pane: 1, button: 0 });
    match pointer_moved(&mut d, to, cell(2, 0, MOUSE), false, false) {
        Motion::Dragging(Some(x)) => assert_eq!(x.bytes, b"\x1b[<32;3;1M".to_vec()),
        other => panic!("{other:?}"),
    }
    d.mods = SHIFT;
    assert!(matches!(pointer_moved(&mut d, to, cell(2, 0, MOUSE), false, false), Motion::Held));
    let mut d = desk();
    d.bay.armed = Some((1, Stream::Stdout));
    assert!(matches!(pointer_moved(&mut d, to, None, false, true), Motion::Wiring));
    assert_eq!(d.drag_cursor, Some(to));
    assert!(d.force_full);
    let mut d = desk();
    let watching = Wants { motion: true, ..MOUSE };
    assert!(matches!(
        pointer_moved(&mut d, to, cell(2, 0, watching), true, false),
        Motion::Hovering(Some(_))
    ));
    assert!(matches!(pointer_moved(&mut d, to, cell(2, 0, QUIET), true, false), Motion::Focus));
    assert!(matches!(pointer_moved(&mut d, to, None, false, false), Motion::Nothing));
}

#[test]
fn a_wire_is_joined_where_it_is_let_go() {
    let mut d = desk();
    d.bay.armed = Some((1, Stream::Stderr));
    assert!(matches!(left_release(&mut d, None, None, Some(2)), LeftRelease::Wired));
    assert_eq!((d.bay.wires[0].src, d.bay.wires[0].dst), (1, 2));
    assert!(matches!(
        right_press(&mut d, Some((1, Stream::Stderr)), None),
        RightPress::Unplugged
    ));
    assert!(d.bay.wires.is_empty());
    d.bay.armed = Some((1, Stream::Stderr));
    assert!(matches!(right_press(&mut d, None, None), RightPress::Dropped));
    assert_eq!(d.bay.armed, None);
}

#[test]
fn the_pointer_tells_what_a_press_would_grab() {
    let mut d = desk();
    let divider = Some(Divider { id: 5, horizontal: false, start: 0, len: 64 });
    assert!(update_cursor(&mut d, true, divider));
    assert_eq!(d.icon, Some(Icon::Grab));
    assert!(!update_cursor(&mut d, true, None), "nothing changed");
    assert!(update_cursor(&mut d, false, divider));
    assert_eq!(d.icon, Some(Icon::RowResize));
    d.selecting = true;
    assert!(!update_cursor(&mut d, false, None), "a gesture owns it");
}

#[test]
fn the_wheel_goes_to_the_program_a_few_notches_at_a_time() {
    let mut d = desk();
    match wheel_turned(&mut d, -20, cell(0, 0, MOUSE)) {
        Wheel::Deliver(x, times) => {
            assert_eq!(x.bytes, b"\x1b[<65;1;1M".to_vec());
            assert_eq!(times, 8);
        }
        other => panic!("{other:?}"),
    }
    assert!(matches!(wheel_turned(&mut d, 0, cell(0, 0, MOUSE)), Wheel::Nothing));
    assert!(matches!(wheel_turned(&mut d, -2, cell(0, 0, QUIET)), Wheel::Scroll(-2)));
}

#[test]
fn a_drag_beyond_the_edge_scrolls() {
    let content = Area { x: 0, y: 640, w: 6400, h: 6400 };
    let mut d = desk();
    assert_eq!(autoscroll(&mut d, Some(content), 100), Autoscroll::Idle);
    left_press(&mut d, &found(cell(4, 1, QUIET)), 0);
    d.mouse = Point { x: 1280, y: 0 };
    assert_eq!(autoscroll(&mut d, Some(content), 100), Autoscroll::Line { older: true });
    assert_eq!(autoscroll(&mut d, Some(content), 120), Autoscroll::Wait);
    extend_to_edge(&mut d, content, 640, true, 5, 24);
    assert_eq!(d.selection.unwrap().head, spot(2, -5));
    d.mouse = Point { x: 1280, y: 7040 };
    assert_eq!(autoscroll(&mut d, Some(content), 200), Autoscroll::Line { older: false });
    extend_to_edge(&mut d, content, 640, false, 4, 24);
    assert_eq!(d.selection.unwrap().head, spot(2, 19));
    d.mouse = Point { x: 0, y: 1000 };
    assert_eq!(autoscroll(&mut d, Some(content), 300), Autoscroll::Idle);
}

#[test]
fn holding_an_arrow_moves_faster() {
    assert_eq!(arrow_accel_step(0, 6), 1);
    assert_eq!(arrow_accel_step(4, 6), 1);
    assert_eq!(arrow_accel_step(5, 6), 2);
    assert_eq!(arrow_accel_step(99, 6), 6);
    assert_eq!(arrow_accel_step(99, 1), 1, "a cap of one turns it off");
    assert_eq!(arrow_accel_step(99, 0), 1);
    let mut hold = None;
    let mut moves = Vec::new();
    for k in 0..8u64 {
        moves.push(hold_arrow(&mut hold, true, Some(0), k * 30, 6));
    }
    assert_eq!(moves, vec![1, 1, 1, 1, 1, 2, 3, 4]);
    assert_eq!(hold_arrow(&mut hold, true, Some(1), 240, 6), 1, "another arrow");
    assert_eq!(hold_arrow(&mut hold, true, Some(1), 490, 6), 1, "too late");
    assert_eq!(hold, Some(Hold { arrow: 1, at: 490, repeats: 0 }));
    assert_eq!(hold_arrow(&mut hold, true, None, 500, 6), 1);
    assert_eq!(hold, None);
}

fn press(key: NamedKey) -> Press {
    Press { key, ctrl: false, chord: None, sequence: false, key_bytes: None, text_bytes: None }
}

#[test]
fn keys_drive_a_selection() {
    assert_eq!(compose_key(NamedKey::Escape, false), ComposeStep::Cancel);
    assert_eq!(compose_key(NamedKey::Enter, false), ComposeStep::Commit);
    assert_eq!(compose_key(NamedKey::Left, false), ComposeStep::Glide(Nav::Left));
    assert_eq!(compose_key(NamedKey::Home, false), ComposeStep::Jump(Nav::LineStart));
    assert_eq!(compose_key(NamedKey::Home, true), ComposeStep::Jump(Nav::BufTop));
    assert_eq!(compose_key(NamedKey::End, true), ComposeStep::Jump(Nav::BufBottom));
    assert_eq!(compose_key(NamedKey::PageUp, false), ComposeStep::Jump(Nav::PageUp));
    assert_eq!(compose_key(NamedKey::Space, false), ComposeStep::Swallow);
    assert_eq!(
        compose_bounds(105, 10, 500, 24),
        Bounds { cols: 10, min_line: -500, max_line: 23, page: 24 }
    );
}

#[test]
fn the_free_end_comes_into_view() {
    assert_eq!(scroll_head_into_view(0, 24, 5), 0);
    assert_eq!(scroll_head_into_view(0, 24, -3), 3);
    assert_eq!(scroll_head_into_view(10, 24, 20), -7);
    assert_eq!(scroll_head_into_view(0, 24, -50_000), 10_000);
}

#[test]
fn a_press_is_an_action_or_is_typed() {
    let mut km = Keymap::new();
    let chord = Chord { key: Key::Char('C'), mods: Mods { control: true, shift: true, ..NONE } };
    km.bind(chord, Action::Copy, "Ctrl+Shift+C");
    let mut hold = None;
    let mut go = |p: &Press, text: bool, sel: bool| {
        on_key_press(p, text, sel, &km, &mut hold, true, 6, 0)
    };
    let copy = Press { chord: Some(chord), key_bytes: Some(vec![3]), ..press(NamedKey::Other) };
    assert!(matches!(go(&copy, false, false), Outcome::Act(Action::Copy)));
    assert!(matches!(go(&copy, true, false), Outcome::Nothing), "a character is being composed");
    assert!(matches!(go(&copy, false, true), Outcome::Compose(ComposeStep::Swallow)));
    let typed = Press {
        key_bytes: Some(vec![1]),
        text_bytes: Some(b"x".to_vec()),
        ..press(NamedKey::Other)
    };
    assert!(matches!(go(&typed, false, false), Outcome::Feed(b) if b == b"x".to_vec()));
    let sequence = Press { sequence: true, ..typed.clone() };
    assert!(matches!(go(&sequence, false, false), Outcome::Feed(b) if b == vec![1]));
    let textless = Press { text_bytes: None, ..typed };
    assert!(matches!(go(&textless, false, false), Outcome::Feed(b) if b == vec![1]));
    assert!(matches!(go(&press(NamedKey::Other), false, false), Outcome::Nothing));
}

#[test]
fn what_is_open_takes_the_keyboard() {
    let none = Open { picker: false, prefs: false, manual: false, menu: false, search: false };
    assert_eq!(route(none, Kind::Key), Layer::Main);
    let search = Open { search: true, ..none };
    assert_eq!(route(search, Kind::Key), Layer::Search);
    assert_eq!(route(search, Kind::LeftPress), Layer::Main);
    let menu = Open { menu: true, ..search };
    assert_eq!(route(menu, Kind::Wheel), Layer::Menu);
    let manual = Open { manual: true, ..menu };
    assert_eq!(route(manual, Kind::Ime), Layer::Manual);
    let prefs = Open { prefs: true, ..manual };
    assert_eq!(route(prefs, Kind::Motion), Layer::Prefs);
    let picker = Open { picker: true, ..prefs };
    assert_eq!(route(picker, Kind::Modifiers), Layer::Picker);
    assert_eq!(route(picker, Kind::OtherButton), Layer::Prefs);
    assert_eq!(route(picker, Kind::Lifecycle), Layer::Main);
}

fn lines() -> Vec<PrefLine> {
    let line = |kind, pref| PrefLine {
        kind,
        label: String::new(),
        value: String::new(),
        pref,
        enabled: true,
    };
    vec![
        line(RowKind::Section, None),
        line(RowKind::Step, Some(PrefRow::FontSize)),
        line(RowKind::Toggle, Some(PrefRow::Titlebar)),
        line(RowKind::Action, Some(PrefRow::Close)),
    ]
}

#[test]
fn the_dialog_edits_a_copy_until_it_closes() {
    let s = settings();
    let mut d = Dialog::closed();
    d.open_on(&vec![1, 2, 3]);
    assert!(d.open && d.sel == 1);
    let none: Vec<String> = Vec::new();
    let mut go = |d: &mut Dialog, e: DialogEvent| {
        dialog_event(d, e, &s, &lines(), &none, &none, &catalog(), &mut |_: &String| true, 40)
    };
    assert!(go(&mut d, DialogEvent::Step(1)).is_none());
    assert_eq!(d.pending.as_ref().unwrap().font_size, 19_000);
    assert_eq!((d.edits, d.last_edit), (1, 40));
    assert!(go(&mut d, DialogEvent::HitRow(2)).is_none(), "a press on a toggle steps it");
    assert!(!d.pending.as_ref().unwrap().show_titlebar);
    assert_eq!(d.sel, 2);
    go(&mut d, DialogEvent::HitRow(1));
    assert_eq!((d.sel, d.edits), (1, 2), "a press on another row selects it");
    go(&mut d, DialogEvent::HitRow(0));
    assert_eq!(d.sel, 1, "a heading is no row");
    go(&mut d, DialogEvent::HitStep(1, -1));
    assert_eq!(d.pending.as_ref().unwrap().font_size, 18_000);
    go(&mut d, DialogEvent::Select(3, 7));
    assert_eq!((d.sel, d.scroll), (3, 7));
    go(&mut d, DialogEvent::Step(1));
    assert_eq!(d.edits, 3, "Close has nothing to step");
    let applied = go(&mut d, DialogEvent::Activate).unwrap();
    assert!(!applied.show_titlebar && !d.open && d.pending.is_none());
    assert!(go(&mut d, DialogEvent::Escape).is_none(), "nothing is pending");
    assert_eq!(d.sel, 3, "Escape leaves the selection");
    d.open_on(&vec![1, 2, 3]);
    assert_eq!(d.sel, 1);
    go(&mut d, DialogEvent::HitRow(3));
    assert!(!d.open);
    assert_eq!(d.sel, 3, "a press on Close selects it");
}

#[test]
fn closing_the_preferences_applies_them() {
    let mut a = app();
    a.dialog.open_on(&vec![1]);
    let none: Vec<String> = Vec::new();
    let mut go = |a: &mut App, e: DialogEvent| {
        a.dialog_input(e, &lines(), &none, &none, &catalog(), &mut |_: &String| true, 7)
    };
    assert!(go(&mut a, DialogEvent::Step(-1)).is_none());
    assert_eq!(a.settings.font_size, 18_000, "nothing is applied yet");
    assert_eq!((a.dialog.last_edit, a.dialog.edits), (7, 1));
    let applied = go(&mut a, DialogEvent::Escape).unwrap();
    assert_eq!((a.dialog.last_edit, a.dialog.edits), (7, 0), "nothing is pending any more");
    assert_eq!(applied.font_size, 17_000);
    assert!(!a.dialog.open);
}

fn picker() -> Picker {
    Picker { slot: Slot::Palette(4), h: 0, s: 0, v: 0, drag: None }
}

#[test]
fn the_picker_follows_its_drag() {
    let mut p = Some(picker());
    let hit = PickerEvent::Press(PickerHit::Square(5, 6));
    assert_eq!(picker_event(&mut p, hit), PickerTurn::Write);
    assert_eq!(p, Some(Picker { s: 5, v: 6, drag: Some(Drag::Square), ..picker() }));
    assert_eq!(picker_event(&mut p, PickerEvent::Motion(7, 8, 9)), PickerTurn::Write);
    assert_eq!(p.map(|p| (p.h, p.s, p.v)), Some((0, 7, 8)), "the hue stays");
    assert_eq!(picker_event(&mut p, PickerEvent::Release), PickerTurn::Nothing);
    assert_eq!(picker_event(&mut p, PickerEvent::Motion(1, 1, 1)), PickerTurn::Nothing);
    assert_eq!(picker_event(&mut p, PickerEvent::Press(PickerHit::Strip(3))), PickerTurn::Write);
    assert_eq!(picker_event(&mut p, PickerEvent::Press(PickerHit::Panel)), PickerTurn::Nothing);
    assert_eq!(picker_event(&mut p, PickerEvent::Other), PickerTurn::Nothing);
    assert_eq!(picker_event(&mut p, PickerEvent::Press(PickerHit::Outside)), PickerTurn::Closed);
    assert_eq!(p, None);
}

#[test]
fn dismissing_the_picker_applies_the_colour() {
    for event in [
        PickerEvent::Escape,
        PickerEvent::Press(PickerHit::Done),
        PickerEvent::Press(PickerHit::Outside),
    ] {
        let mut a = app();
        a.dialog.open = true;
        a.open_picker(6, 1, 2, 3);
        assert_eq!(a.picker.unwrap().slot, Slot::Palette(4));
        let red = rgb(255, 0, 0);
        let drag = PickerEvent::Press(PickerHit::Strip(9));
        assert!(a.picker_input(drag, |p| rgb(p.h as u8, 0, 0), 10).is_none());
        assert_eq!(a.dialog.pending.as_ref().unwrap().palette[4], rgb(9, 0, 0));
        assert!(a.picker_input(drag, |_| red, 10).is_none());
        let applied = a.picker_input(event, |_| red, 20).unwrap();
        assert_eq!(applied.palette[4], red);
        assert!(a.picker.is_none() && a.dialog.open && a.dialog.pending.is_none());
    }
    let mut d = Dialog::closed();
    assert!(d.close_picker(PickerDismiss::Done).is_none(), "nothing was edited");
}

#[test]
fn swatches_have_their_slots() {
    assert_eq!(slot_of_swatch(0), Slot::Fg);
    assert_eq!(slot_of_swatch(1), Slot::Bg);
    assert_eq!(slot_of_swatch(17), Slot::Palette(15));
    let mut s = settings();
    let red = rgb(255, 0, 0);
    set_slot(&mut s, Slot::Fg, red);
    set_slot(&mut s, Slot::Palette(15), red);
    set_slot(&mut s, Slot::Palette(16), red);
    assert_eq!((s.foreground, s.palette[15], s.palette[14]), (red, red, rgb(1, 2, 3)));
    set_slot(&mut s, Slot::Bg, red);
    assert_eq!(s.background, red);
}

#[test]
fn the_manual_scrolls_to_its_ends() {
    let mut m = Manual { open: true, scroll: 0 };
    assert!(manual_event(&mut m, ManualEvent::Scroll(10), 100));
    assert!(manual_event(&mut m, ManualEvent::Wheel(3), 100));
    assert_eq!(m.scroll, 7);
    manual_event(&mut m, ManualEvent::Scroll(i32::MAX), 100);
    assert_eq!(m.scroll, 100);
    manual_event(&mut m, ManualEvent::Scroll(-500), 100);
    assert_eq!(m.scroll, 0);
    assert!(!manual_event(&mut m, ManualEvent::Other, 100));
    assert!(manual_event(&mut m, ManualEvent::Key, 100), "any key paints again");
    assert_eq!(m, Manual { open: true, scroll: 0 });
    assert!(manual_event(&mut m, ManualEvent::Close, 100));
    assert!(!m.open);
}

#[test]
fn a_click_on_a_live_row_closes_the_menu() {
    let all = rows(&Keymap::new(), false, None, &vec![], "rt 1");
    let at = Point { x: 0, y: 0 };
    let place = |label: &str| all.iter().position(|r| r.label == label);
    let mut m = Some(Menu { at, hover: None });
    assert!(menu_event(&mut m, MenuEvent::Motion(Some(3)), &all).is_none());
    assert_eq!(m.unwrap().hover, Some(3));
    assert!(menu_event(&mut m, MenuEvent::Click(place("Copy")), &all).is_none());
    assert!(m.is_some(), "nothing is selected, so Copy is dead");
    assert!(menu_event(&mut m, MenuEvent::Click(None), &all).is_none());
    assert!(menu_event(&mut m, MenuEvent::Other, &all).is_none());
    assert!(matches!(
        menu_event(&mut m, MenuEvent::Click(place("Paste")), &all),
        Some(MenuPick::Do(Action::Paste))
    ));
    assert!(m.is_none());
    for e in [MenuEvent::Escape, MenuEvent::Outside] {
        let mut m = Some(Menu { at, hover: None });
        assert!(menu_event(&mut m, e, &all).is_none() && m.is_none());
    }
}

#[test]
fn a_menu_row_runs_its_action() {
    let all = rows(&Keymap::new(), false, None, &vec![], "rt 1");
    let manual = all.iter().position(|r| r.label == "Manual");
    let mut a = app();
    a.menu = Some(Menu { at: Point { x: 0, y: 0 }, hover: None });
    let (pick, next) = a.menu_input(MenuEvent::Click(manual), &all, 7);
    assert!(matches!(pick, Some(MenuPick::Do(Action::Manual))));
    assert_eq!(next, Some(Follow::Paint));
    assert!(a.manual.open && a.menu.is_none());
}

#[test]
fn the_search_bar_edits_its_query() {
    let mut s = Search::closed();
    s.start(3);
    assert_eq!(search_key(&mut s, SearchKey::Text("hé".into())), SearchTurn::Again);
    assert_eq!(search_key(&mut s, SearchKey::Text("\u{1b}".into())), SearchTurn::Nothing);
    assert_eq!(search_key(&mut s, SearchKey::Text(String::new())), SearchTurn::Nothing);
    assert_eq!(search_key(&mut s, SearchKey::Backspace), SearchTurn::Again);
    assert_eq!(s.query, "h");
    assert_eq!(search_key(&mut s, SearchKey::Enter(false)), SearchTurn::Show(None));
    let hit = |line| Match { line, col: 0, len: 1 };
    s.take_matches(3, vec![hit(1), hit(2), hit(3)], true);
    assert_eq!(search_key(&mut s, SearchKey::Enter(false)), SearchTurn::Show(Some(2)));
    assert_eq!(search_key(&mut s, SearchKey::Enter(true)), SearchTurn::Show(Some(1)));
    assert_eq!(search_key(&mut s, SearchKey::Enter(true)), SearchTurn::Show(Some(3)));
    assert_eq!(search_key(&mut s, SearchKey::Other), SearchTurn::Nothing);
    assert_eq!(search_key(&mut s, SearchKey::Escape), SearchTurn::Closed);
    assert!(!s.open);
}

#[test]
fn backspace_undoes_a_character() {
    let mut s = Search::closed();
    s.query = "ab".to_string();
    search_key(&mut s, SearchKey::Text("漢".into()));
    assert_eq!(s.query, "ab漢");
    search_key(&mut s, SearchKey::Backspace);
    assert_eq!(s.query, "ab");
}

#[test]
fn an_action_is_run_or_handed_on() {
    let mut a = app();
    assert_eq!(apply_action(&mut a, Action::OpacityDown, 1), Follow::Opacity);
    assert_eq!(a.settings.background_opacity, 850);
    assert_eq!(apply_action(&mut a, Action::ZoomIn, 1), Follow::Fonts);
    assert_eq!(a.settings.font_size, 20_000);
    assert_eq!(apply_action(&mut a, Action::ZoomReset, 1), Follow::Fonts);
    assert_eq!(a.settings.font_size, 18_000);
    assert_eq!(apply_action(&mut a, Action::ToggleFocusFollowsMouse, 1), Follow::Persist);
    assert!(a.settings.focus_follows_mouse);
    assert_eq!(apply_action(&mut a, Action::Preferences, 1), Follow::OpenPrefs);
    a.dialog.open = true;
    assert_eq!(apply_action(&mut a, Action::Preferences, 1), Follow::Paint);
    assert!(!a.dialog.open);
    assert_eq!(apply_action(&mut a, Action::Search, 5), Follow::Paint);
    assert_eq!(a.search.pane, Some(5));
    assert_eq!(apply_action(&mut a, Action::WireStdout, 1), Follow::Paint);
    apply_action(&mut a, Action::WireStderr, 2);
    assert_eq!(a.desk.bay.wires.len(), 1);
    assert_eq!(a.desk.bay.wires[0].stream, Stream::Stdout);
    apply_action(&mut a, Action::Unwire, 2);
    assert!(a.desk.bay.wires.is_empty() && a.desk.force_full);
    assert_eq!(apply_action(&mut a, Action::PipeInto, 4), Follow::Pipe(4));
    assert_eq!(apply_action(&mut a, Action::Fullscreen, 4), Follow::Fullscreen);
    assert_eq!(apply_action(&mut a, Action::NewTab, 4), Follow::Session(Action::NewTab));
}

#[test]
fn zoom_and_opacity_stay_in_bounds() {
    let mut a = app();
    for _ in 0..60 {
        apply_action(&mut a, Action::ZoomIn, 1);
        apply_action(&mut a, Action::OpacityUp, 1);
    }
    assert_eq!((a.settings.font_size, a.settings.background_opacity), (72_000, 1_000));
    for _ in 0..60 {
        apply_action(&mut a, Action::ZoomOut, 1);
        apply_action(&mut a, Action::OpacityDown, 1);
    }
    assert_eq!((a.settings.font_size, a.settings.background_opacity), (6_000, 50));
}

#[test]
fn what_the_panes_made_of_an_action_is_followed_up() {
    let mut d = desk();
    assert_eq!(session_result(&mut d, None), Next::Nothing);
    assert_eq!(session_result(&mut d, Some(SessionEvent::Copy)), Next::CopySelection);
    assert_eq!(session_result(&mut d, Some(SessionEvent::Paste)), Next::PasteClipboard);
    assert_eq!(session_result(&mut d, Some(SessionEvent::CloseWindow)), Next::Exit);
    assert!(!d.force_full);
    assert_eq!(session_result(&mut d, Some(SessionEvent::Redraw)), Next::Paint);
    assert!(d.force_full);
}

#[test]
fn composed_text_is_typed_when_it_is_done() {
    let mut a = app();
    assert!(!composition(&mut a, &Composition::Preedit(true)));
    assert!(a.composing_text);
    assert!(!composition(&mut a, &Composition::Enabled));
    assert!(a.composing_text);
    assert!(composition(&mut a, &Composition::Commit("é".into())));
    assert!(!a.composing_text);
    assert!(!composition(&mut a, &Composition::Commit(String::new())));
    composition(&mut a, &Composition::Preedit(true));
    assert!(!composition(&mut a, &Composition::Disabled));
    assert!(!a.composing_text);
}

fn left(from: Spot, _: Nav, _: Bounds) -> Spot {
    Spot { col: from.col - 1, ..from }
}

#[test]
fn a_key_does_what_it_decides() {
    let km = Keymap::new();
    let bounds = Some(Bounds { cols: 80, min_line: -9, max_line: 23, page: 24 });
    let mut a = app();
    a.desk.selection =
        Some(Selection { pane: 1, anchor: spot(40, 0), head: spot(40, 0), block: false });
    a.desk.composing = true;
    for k in 0..7u64 {
        let r = a.key_input(&press(NamedKey::Left), &km, 1, bounds, k * 30, left);
        assert!(matches!(r, KeyReaction::Moved));
    }
    assert_eq!(a.desk.selection.unwrap().head, spot(40 - 1 - 1 - 1 - 1 - 1 - 2 - 3, 0));
    assert_eq!(a.desk.selection.unwrap().anchor, spot(40, 0));
    assert!(a.hold.is_some_and(|h| h.repeats > 0), "the arrow is still held");
    let r = a.key_input(&press(NamedKey::Home), &km, 1, bounds, 400, left);
    assert_eq!(a.hold, None, "a jump lets it go");
    assert!(matches!(r, KeyReaction::Moved));
    let r = a.key_input(&press(NamedKey::Enter), &km, 1, bounds, 500, left);
    assert!(matches!(r, KeyReaction::Finished));
    assert!(a.desk.selection.is_some() && !a.desk.composing);
    a.desk.composing = true;
    let r = a.key_input(&press(NamedKey::Escape), &km, 1, bounds, 600, left);
    assert!(matches!(r, KeyReaction::GivenUp));
    assert!(a.desk.selection.is_none());
    let arrow = Press { key_bytes: Some(b"\x1b[D".to_vec()), sequence: true, ..press(NamedKey::Left) };
    let mut sent = Vec::new();
    for k in 0..6u64 {
        match a.key_input(&arrow, &km, 1, bounds, 5_000 + k * 30, left) {
            KeyReaction::Feed(b) => sent.push(b.len() / 3),
            other => panic!("{other:?}"),
        }
    }
    assert_eq!(sent, vec![1, 1, 1, 1, 1, 2]);
}

#[test]
fn a_change_of_settings_costs_what_it_needs() {
    let mut s = settings();
    assert_eq!(commit_settings(&mut s, settings()), None);
    let mut new = settings();
    new.font_size = 20_000;
    new.show_titlebar = false;
    let work = Work { blur: false, titlebar: true, colours: false, fonts: true, family: false };
    assert_eq!(commit_settings(&mut s, new), Some(work));
    assert_eq!(s.font_size, 20_000);
    let mut new = s.clone();
    new.background_blur = true;
    new.palette[3] = rgb(9, 9, 9);
    new.font_family = "Beta Mono".to_string();
    let work = Work { blur: true, titlebar: false, colours: true, fonts: true, family: true };
    assert_eq!(commit_settings(&mut s, new), Some(work));
}

#[test]
fn one_run_can_be_overridden() {
    let mut s = settings();
    let o = Overrides {
        opacity: Some(-3),
        focus: Some("sloppy".into()),
        font: Some("Beta Mono".into()),
        font_size: Some(0),
    };
    apply_overrides(&mut s, &o);
    assert_eq!((s.background_opacity, s.font_size), (50, 1_000));
    assert!(s.focus_follows_mouse);
    assert_eq!(s.font_family, "Beta Mono");
    let o = Overrides { opacity: None, focus: Some("click".into()), font: None, font_size: None };
    apply_overrides(&mut s, &o);
    assert!(!s.focus_follows_mouse);
}

fn clock() -> Clock {
    Clock {
        active_until: 0,
        last_input: 0,
        last_anim: 0,
        last_instr_tick: 0,
        last_bcast_tick: 0,
        resize_pending: false,
        surface_pending: false,
        scale_pending: false,
        last_resize_at: 0,
        deferred_resizes: 0,
        poll: 0,
    }
}

const STILL: Turned = Turned {
    changed: false,
    broadcasting: false,
    gl: true,
    low_power: false,
    wires_busy: false,
    heat_live: false,
    flow_busy: false,
    stalling: false,
    inst_remote: false,
    inst_animate: false,
    autoscrolling: false,
    searching: false,
};

#[test]
fn a_still_terminal_waits() {
    let mut c = clock();
    let t = tick(&mut c, &mut Dialog::closed(), &STILL, 20_000);
    assert!(!t.redraw && t.settle.is_none() && t.commit.is_none());
    assert_eq!(t.wait, 100);
    c.note(&PaneEvent::Output, 20_000);
    let t = tick(&mut c, &mut Dialog::closed(), &Turned { changed: true, searching: true, ..STILL }, 20_001);
    assert!(t.redraw && t.refresh_search);
    assert_eq!(t.wait, 16);
    c.last_input = 30_000;
    let t = tick(&mut c, &mut Dialog::closed(), &STILL, 30_000);
    assert!(t.redraw, "the cursor pulses");
    assert_eq!(t.wait, 50);
}

#[test]
fn a_resize_is_paid_for_once() {
    let mut c = clock();
    c.resized(50_000);
    c.resized(50_050);
    c.split_moved(50_100);
    c.scale_changed(
        ScaleArm { arm_settle: true, reload_owed: true, suspend_painting: true },
        50_100,
    );
    assert_eq!(c.deferred_resizes, 3);
    let mut d = Dialog::closed();
    let t = tick(&mut c, &mut d, &STILL, 50_219);
    assert!(t.settle.is_none());
    assert_eq!(t.wait, 120);
    let t = tick(&mut c, &mut d, &STILL, 50_220);
    let work = t.settle.unwrap();
    assert!(work.resize_surface && work.reload_fonts && !work.relayout);
    assert!(t.full && t.redraw);
    assert!(!c.resize_pending && !c.surface_pending && !c.scale_pending);
    assert!(tick(&mut c, &mut d, &STILL, 50_900).settle.is_none());
}

#[test]
fn edits_are_applied_once_they_hold_still() {
    let mut c = clock();
    let mut d = Dialog::closed();
    d.picker_write(&settings(), Slot::Fg, rgb(7, 7, 7), 40_000);
    let t = tick(&mut c, &mut d, &STILL, 40_149);
    assert!(t.commit.is_none());
    assert_eq!(t.wait, 150);
    let t = tick(&mut c, &mut d, &STILL, 40_150);
    assert_eq!(t.commit.unwrap().foreground, rgb(7, 7, 7));
    assert!(d.pending.is_none() && t.redraw);
}

#[test]
fn broadcast_and_instruments_have_their_own_pace() {
    let mut c = clock();
    let f = Turned { broadcasting: true, gl: false, low_power: true, ..STILL };
    let t = tick(&mut c, &mut Dialog::closed(), &f, 40_000);
    assert_eq!(t.pulse, Some(40_000));
    assert_eq!(t.wait, 200);
    let t = tick(&mut c, &mut Dialog::closed(), &f, 40_100);
    assert_eq!(t.pulse, None);
    let f = Turned {
        gl: false,
        low_power: true,
        heat_live: true,
        inst_remote: true,
        inst_animate: true,
        ..STILL
    };
    let t = tick(&mut c, &mut Dialog::closed(), &f, 41_000);
    assert!(t.instr_tick && t.full);
    assert_eq!(t.wait, 166);
    assert!(!tick(&mut c, &mut Dialog::closed(), &f, 41_100).instr_tick);
}

#[test]
fn a_pane_closes_or_keeps_its_last_words() {
    assert_eq!(ending(Some(0)), Ending::Reap);
    assert_eq!(ending(None), Ending::Reap);
    assert_eq!(ending(Some(-9)), Ending::Keep(-9));
    assert_eq!(badge_exit("make", 2), "make [exited 2]");
    assert_eq!(badge_exit("", -9), "[exited -9]");
    assert_eq!(badge_crash("vim"), "vim [crashed]");
    assert_eq!(window_title(Some("vim")), "vim — rt");
    assert_eq!(window_title(None), "rt");
}

#[test]
fn a_badge_is_put_on_once() {
    let once = badge_exit("make", 2);
    assert_eq!(badge_exit(&once, 3), once);
    let once = badge_crash("vim");
    assert_eq!(badge_crash(&once), once);
}

#[test]
fn what_a_pane_does_is_painted_unless_it_closes() {
    let mut c = clock();
    assert!(!c.note(&PaneEvent::Exited(Some(0)), 10));
    assert!(c.note(&PaneEvent::Exited(Some(1)), 10));
    assert!(c.note(&PaneEvent::Crashed, 10));
    assert!(c.note(&PaneEvent::Title("x".into()), 10));
    assert_eq!(c.active_until, 0);
    assert!(c.note(&PaneEvent::Bell, 10));
    assert_eq!(c.active_until, 130);
    assert!(c.note(&PaneEvent::Output, 10));
    assert_eq!(c.active_until, 760);
}

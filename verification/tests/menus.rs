use rt::geometry::Point;
use rt::keymap::{Action, Chord, Key, Keymap, Mods};
use rt::menu::{rows, MenuPick, Row, RowAction};
use rt::menubar_model::{
    app_menu_table, categories, chord_key_equivalent, context_rows, model, BarItem, BarModel, Entry,
    KeyEquivalent,
};
use rt::native::{closes_panel, enabled_flags, finds_in_manual, Bridge, DropInbox, NativeMods};
use rt::startup::version_string;

const VERSION: &str = "0.2.8";

fn mods(control: bool, shift: bool, alt: bool, logo: bool) -> Mods {
    Mods { control, shift, alt, logo }
}

fn chord(key: Key, mods: Mods) -> Chord {
    Chord { key, mods }
}

fn defaults() -> Keymap {
    let mut km = Keymap::new();
    let cs = mods(true, true, false, false);
    km.bind(chord(Key::Char('C'), cs), Action::Copy, "Ctrl+Shift+C");
    km.bind(chord(Key::Char('V'), cs), Action::Paste, "Ctrl+Shift+V");
    km.bind(chord(Key::Char('O'), cs), Action::SplitHoriz, "Ctrl+Shift+O");
    km.bind(chord(Key::Char('E'), cs), Action::SplitVert, "Ctrl+Shift+E");
    km.bind(chord(Key::Function(1), mods(false, false, false, false)), Action::Manual, "F1");
    km.bind(chord(Key::Function(11), mods(false, false, false, false)), Action::Fullscreen, "F11");
    km.bind(chord(Key::PageDown, mods(true, false, false, false)), Action::NextTab, "Ctrl+PgDn");
    km
}

fn mac_keymap() -> Keymap {
    let mut km = defaults();
    let cmd = mods(false, false, false, true);
    let shift_cmd = mods(false, true, false, true);
    km.bind(chord(Key::Char('c'), cmd), Action::Copy, "Cmd+C");
    km.bind(chord(Key::Char('v'), cmd), Action::Paste, "Cmd+V");
    km.bind(chord(Key::Char('d'), cmd), Action::SplitVert, "Cmd+D");
    km.bind(chord(Key::Char('d'), shift_cmd), Action::SplitHoriz, "Shift+Cmd+D");
    km.bind(chord(Key::Char('?'), shift_cmd), Action::Manual, "Shift+Cmd+?");
    km.bind(chord(Key::Char('}'), shift_cmd), Action::NextTab, "Shift+Cmd+}");
    km.bind(chord(Key::Left, mods(false, false, true, true)), Action::PrevTab, "Alt+Cmd+Left");
    km.bind(chord(Key::Char('f'), mods(true, false, false, true)), Action::Fullscreen, "Ctrl+Cmd+F");
    km.bind(chord(Key::Char(','), cmd), Action::Preferences, "Cmd+,");
    km
}

fn menu(km: &Keymap, sel: bool, url: Option<&str>, targets: &[&str]) -> Vec<Row> {
    let targets: Vec<String> = targets.iter().map(|t| t.to_string()).collect();
    rows(km, sel, url, &targets, &version_string(VERSION, None))
}

fn find<'a>(m: &'a BarModel, label: &str) -> &'a BarItem {
    m.items()
        .into_iter()
        .find(|i| i.label == label)
        .unwrap_or_else(|| panic!("no item labelled {label:?}"))
}

#[test]
fn url_rows_present_only_with_a_url() {
    let km = defaults();
    let without = menu(&km, false, None, &[]);
    assert!(!without.iter().any(|r| r.label == "Open Link"));
    let with = menu(&km, false, Some("https://x"), &[]);
    assert!(with.iter().any(|r| r.label == "Open Link"));
}

#[test]
fn copy_disabled_without_selection() {
    let km = defaults();
    let r = menu(&km, false, None, &[]);
    let copy = r.iter().find(|r| r.label == "Copy").unwrap();
    assert!(!copy.enabled, "Copy needs a selection");
    let r2 = menu(&km, true, None, &[]);
    assert!(r2.iter().find(|r| r.label == "Copy").unwrap().enabled);
}

#[test]
fn separators_have_no_action() {
    let r = menu(&defaults(), false, None, &[]);
    assert!(r.iter().any(|r| r.action.is_none()), "at least one separator");
}

#[test]
fn move_to_window_rows_appear_per_target() {
    let km = defaults();
    let none = menu(&km, false, None, &[]);
    assert!(!none.iter().any(|r| r.label.starts_with("Move Pane to ")));
    let some = menu(&km, false, None, &["2: htop", "3: logs"]);
    let labels: Vec<_> = some
        .iter()
        .filter(|r| r.label.starts_with("Move Pane to "))
        .map(|r| r.label.clone())
        .collect();
    assert_eq!(labels, vec!["Move Pane to 2: htop", "Move Pane to 3: logs"]);
    let at = some.iter().position(|r| r.label == "Detach Tab to New Window").unwrap();
    assert!(matches!(some[at + 1].action, Some(RowAction::MoveToWindow(0))));
    assert!(matches!(some[at + 2].action, Some(RowAction::MoveToWindow(1))));
}

#[test]
fn version_row_is_a_disabled_info_footer() {
    let r = menu(&defaults(), false, None, &[]);
    let v = r.iter().find(|r| r.label.starts_with("rt ")).expect("a version row");
    assert!(v.label.contains(VERSION), "shows the crate version");
    assert!(!v.enabled, "the version row is informational, not clickable");
    assert!(v.action.is_none(), "the version row dispatches nothing");
    assert!(!v.label.is_empty());
    assert_eq!(r.last().unwrap().label, "rt 0.2.8");
}

#[test]
fn a_row_shows_the_chord_of_its_action() {
    let r = menu(&defaults(), true, None, &[]);
    let accel = |label: &str| r.iter().find(|r| r.label == label).unwrap().accel.clone();
    assert_eq!(accel("Copy"), Some("Ctrl+Shift+C".to_string()));
    assert_eq!(accel("Rotate Split"), None);
}

#[test]
fn a_row_becomes_a_pick() {
    assert!(matches!(RowAction::Copy.into_pick(), MenuPick::Do(Action::Copy)));
    assert!(matches!(RowAction::Paste.into_pick(), MenuPick::Do(Action::Paste)));
    assert!(matches!(RowAction::Do(Action::Rotate).into_pick(), MenuPick::Do(Action::Rotate)));
    assert!(matches!(RowAction::OpenUrl("u".into()).into_pick(), MenuPick::OpenUrl(u) if u == "u"));
    assert!(matches!(RowAction::CopyUrl("u".into()).into_pick(), MenuPick::CopyUrl(u) if u == "u"));
    assert!(matches!(RowAction::MoveToWindow(3).into_pick(), MenuPick::MoveToWindow(3)));
    assert_eq!(RowAction::Copy.action(), Some(Action::Copy));
    assert_eq!(RowAction::Do(Action::Rotate).action(), Some(Action::Rotate));
    assert_eq!(RowAction::OpenUrl("u".into()).action(), None);
    assert_eq!(RowAction::CopyUrl("u".into()).action(), None);
    assert_eq!(RowAction::MoveToWindow(3).action(), None);
}

#[test]
fn every_context_menu_action_is_in_the_bar_or_declared_context_only() {
    let km = defaults();
    let m = model(&km, true, false);
    let in_bar: Vec<Action> = m.items().into_iter().filter_map(|i| i.action).collect();
    let missing: Vec<Action> = context_rows(&km, true)
        .into_iter()
        .map(|(a, ..)| a)
        .filter(|a| !in_bar.contains(a))
        .collect();
    assert!(missing.is_empty(), "these right-click actions reach no menu: {missing:?}");
}

#[test]
fn every_ctx_entry_has_a_context_menu_row() {
    let km = defaults();
    let ctx: Vec<Action> = context_rows(&km, true).into_iter().map(|(a, ..)| a).collect();
    let mut orphans: Vec<String> = app_menu_table()
        .iter()
        .chain(categories().iter().flat_map(|(_, e)| e.iter()))
        .filter_map(|e| match e {
            Entry::Ctx(a) | Entry::Relabel(a, _) if !ctx.contains(a) => Some(format!("{a:?}")),
            _ => None,
        })
        .collect();
    orphans.sort();
    assert!(
        orphans.is_empty(),
        "these entries name actions the context menu has no row for: {orphans:?}"
    );
}

#[test]
fn pointer_dependent_rows_never_reach_the_menu_bar() {
    let km = defaults();
    let ctx = menu(&km, true, Some("https://example.invalid"), &["2: htop"]);
    assert!(ctx.iter().any(|r| r.label == "Open Link"), "the context menu still has its URL rows");
    assert!(ctx.iter().any(|r| r.label.starts_with("Move Pane to ")), "…and its move targets");
    let m = model(&km, true, false);
    for i in m.items() {
        assert_ne!(i.label, "Open Link");
        assert_ne!(i.label, "Copy Address");
        assert!(!i.label.starts_with("Move Pane to "), "{:?} is pointer-dependent", i.label);
    }
}

#[test]
fn copy_follows_the_context_menus_selection_gate() {
    let km = defaults();
    assert!(!find(&model(&km, false, false), "Copy").enabled, "no selection: Copy is greyed");
    assert!(find(&model(&km, true, false), "Copy").enabled, "with a selection: Copy is live");
    assert!(find(&model(&km, false, false), "Paste").enabled);
}

#[test]
fn a_suspended_keyboard_greys_the_whole_bar() {
    let km = defaults();
    let m = model(&km, true, true);
    for i in m.items() {
        assert!(!i.enabled, "{:?} must be greyed while the keyboard is not rt's", i.label);
    }
}

#[test]
fn separators_are_never_items() {
    let m = model(&defaults(), true, false);
    for menu in &m.menus {
        assert!(!menu.items.is_empty(), "{} is empty", menu.title);
        assert!(!menu.items[0].is_separator(), "{} opens with a divider", menu.title);
        assert!(
            !menu.items[menu.items.len() - 1].is_separator(),
            "{} ends with a divider",
            menu.title
        );
        for w in menu.items.windows(2) {
            assert!(
                !(w[0].is_separator() && w[1].is_separator()),
                "{} stacks two dividers",
                menu.title
            );
        }
        for i in &menu.items {
            if i.is_separator() {
                assert!(i.label.is_empty(), "a divider carries no label");
                assert!(i.key.is_none(), "a divider carries no chord");
                assert!(!i.enabled, "a divider is never clickable");
            } else {
                assert!(!i.label.is_empty(), "an item must be labelled");
            }
        }
    }
}

#[test]
fn structure_is_independent_of_state() {
    let km = defaults();
    let base = model(&km, false, false);
    for (sel, susp) in [(false, true), (true, false), (true, true)] {
        let other = model(&km, sel, susp);
        assert_eq!(base.menus.len(), other.menus.len());
        let a: Vec<_> = base.items().into_iter().map(|i| (&i.label, &i.key, i.action)).collect();
        let b: Vec<_> = other.items().into_iter().map(|i| (&i.label, &i.key, i.action)).collect();
        assert_eq!(a, b, "the bar's shape changed with (has_selection={sel}, suspended={susp})");
    }
}

#[test]
fn labels_are_taken_verbatim_from_the_context_menu() {
    let km = defaults();
    let ctx = context_rows(&km, true);
    let m = model(&km, true, false);
    for (action, label, _) in &ctx {
        let is_ctx_entry = app_menu_table()
            .iter()
            .chain(categories().iter().flat_map(|(_, e)| e.iter()))
            .any(|e| matches!(e, Entry::Ctx(a) if a == action));
        if !is_ctx_entry {
            continue;
        }
        let item = m.items().into_iter().find(|i| i.action == Some(*action)).unwrap();
        assert_eq!(&item.label, label, "{action:?} is relabelled in the menu bar");
    }
}

#[test]
fn no_action_is_filed_in_two_places() {
    let m = model(&defaults(), true, false);
    let mut seen: Vec<Action> = Vec::new();
    for a in m.items().into_iter().filter_map(|i| i.action) {
        assert!(!seen.contains(&a), "{a:?} appears twice in the menu bar");
        seen.push(a);
    }
}

#[test]
fn settings_lives_in_the_application_menu() {
    let m = model(&defaults(), true, false);
    assert_eq!(
        m.app_menu.iter().filter_map(|i| i.action).collect::<Vec<_>>(),
        vec![Action::Preferences]
    );
    for menu in &m.menus {
        assert!(
            !menu.items.iter().any(|i| i.action == Some(Action::Preferences)),
            "{} duplicates Settings",
            menu.title
        );
    }
    let item = m
        .app_menu
        .iter()
        .find(|i| i.action == Some(Action::Preferences))
        .expect("a Settings row");
    assert_eq!(item.label, "Settings…", "the application menu must use the macOS 13+ name");
    let ctx_label = context_rows(&defaults(), true)
        .into_iter()
        .find(|(a, ..)| *a == Action::Preferences)
        .map(|(_, l, _)| l)
        .expect("the context menu still offers Preferences");
    assert_eq!(ctx_label, "Preferences…", "rt's own menu keeps rt's own name");
}

#[test]
fn the_bar_reads_left_to_right_like_a_mac_app() {
    let m = model(&defaults(), true, false);
    let titles: Vec<_> = m.menus.iter().map(|x| x.title).collect();
    assert_eq!(titles, vec!["Shell", "Edit", "View", "Window", "Help"]);
}

#[test]
fn key_equivalents_come_from_the_keymap_and_nowhere_else() {
    let km = mac_keymap();
    let m = model(&km, true, false);
    let ke = |label: &str| find(&m, label).key.clone().unwrap();
    assert_eq!(
        ke("Copy"),
        KeyEquivalent { key: "c".into(), command: true, shift: false, control: false, option: false }
    );
    assert_eq!(
        ke("Paste"),
        KeyEquivalent { key: "v".into(), command: true, shift: false, control: false, option: false }
    );
    assert_eq!(
        ke("Split Horizontally"),
        KeyEquivalent { key: "d".into(), command: true, shift: true, control: false, option: false }
    );
    assert_eq!(
        ke("Enter Full Screen"),
        KeyEquivalent { key: "f".into(), command: true, shift: false, control: true, option: false }
    );
    assert_eq!(
        ke("Previous Tab"),
        KeyEquivalent {
            key: "\u{F702}".into(),
            command: true,
            shift: false,
            control: false,
            option: true
        },
        "a named key becomes AppKit's function-key code point"
    );
}

#[test]
fn a_shifted_symbol_carries_no_shift_in_the_mask() {
    let km = mac_keymap();
    let m = model(&km, true, false);
    assert_eq!(
        find(&m, "Manual").key.clone().unwrap(),
        KeyEquivalent { key: "?".into(), command: true, shift: false, control: false, option: false }
    );
    assert_eq!(
        find(&m, "Next Tab").key.clone().unwrap(),
        KeyEquivalent { key: "}".into(), command: true, shift: false, control: false, option: false }
    );
    assert!(find(&m, "Split Horizontally").key.as_ref().unwrap().shift);
}

#[test]
fn a_chord_is_only_ever_what_the_keymap_says() {
    let km = mac_keymap();
    let m = model(&km, true, false);
    for i in m.items() {
        let Some(a) = i.action else { continue };
        assert_eq!(
            i.key,
            km.chord_for(a).and_then(|c| chord_key_equivalent(&c)),
            "{:?} advertises a chord the keymap does not hold",
            i.label
        );
    }
}

#[test]
fn named_keys_have_their_code_points() {
    let plain = mods(false, false, false, false);
    let key = |k: Key| chord_key_equivalent(&chord(k, plain)).map(|e| e.key);
    assert_eq!(key(Key::Up), Some("\u{F700}".to_string()));
    assert_eq!(key(Key::Down), Some("\u{F701}".to_string()));
    assert_eq!(key(Key::Right), Some("\u{F703}".to_string()));
    assert_eq!(key(Key::PageUp), Some("\u{F72C}".to_string()));
    assert_eq!(key(Key::PageDown), Some("\u{F72D}".to_string()));
    assert_eq!(key(Key::Function(1)), Some("\u{F704}".to_string()));
    assert_eq!(key(Key::Function(12)), Some("\u{F70F}".to_string()));
    assert_eq!(key(Key::Function(0)), None);
    assert_eq!(key(Key::Function(13)), None);
    assert_eq!(key(Key::Tab), Some("\t".to_string()));
    assert_eq!(key(Key::Enter), Some("\r".to_string()));
    assert_eq!(key(Key::Char('Z')), Some("z".to_string()));
}

#[test]
fn the_last_binding_counts() {
    let mut km = defaults();
    let c = chord(Key::Char('C'), mods(true, true, false, false));
    assert_eq!(km.action_for(c), Some(Action::Copy));
    km.bind(c, Action::Rotate, "Ctrl+Shift+C");
    assert_eq!(km.action_for(c), Some(Action::Rotate));
    assert_eq!(km.chord_for(Action::Rotate), Some(c));
    assert_eq!(km.chord_for(Action::OpacityUp), None);
    assert_eq!(km.shortcut_for(Action::Rotate), Some("Ctrl+Shift+C".to_string()));
}

#[test]
fn a_click_on_the_bar_is_collected_once() {
    let m = model(&defaults(), false, false);
    let mut b = Bridge::new(&m);
    let tag = m.items().iter().position(|i| i.action == Some(Action::Paste)).unwrap() as i64;
    let copy = m.items().iter().position(|i| i.action == Some(Action::Copy)).unwrap() as i64;
    let sep = m.items().iter().position(|i| i.is_separator()).unwrap() as i64;
    assert!(b.clicked(tag));
    assert!(!b.clicked(sep), "a divider does nothing");
    assert!(!b.clicked(-1));
    assert!(!b.clicked(100_000));
    assert_eq!(b.take_pending(), vec![Action::Paste]);
    assert_eq!(b.take_pending(), vec![]);
    assert!(b.is_enabled(tag));
    assert!(!b.is_enabled(copy));
    assert!(!b.is_enabled(-1) && !b.is_enabled(100_000), "what is unknown is dead");
    b.refresh(enabled_flags(&model(&defaults(), true, false)));
    assert!(b.is_enabled(copy));
}

#[test]
fn a_panel_takes_its_own_keys_only() {
    let cmd = NativeMods { command: true, option: false, control: false, shift: false };
    assert!(closes_panel(cmd, Some("w")));
    assert!(!closes_panel(NativeMods { shift: true, ..cmd }, Some("w")));
    assert!(!closes_panel(cmd, Some("f")));
    assert!(!closes_panel(cmd, None));
    assert!(finds_in_manual(cmd, Some("f")));
    assert!(finds_in_manual(NativeMods { shift: true, ..cmd }, Some("f")));
    assert!(!finds_in_manual(NativeMods { control: true, ..cmd }, Some("f")));
}

#[test]
fn a_drop_is_handed_over_once() {
    let at = Point { x: 64, y: 128 };
    let mut inbox = DropInbox::new();
    assert!(inbox.take_change().is_none());
    assert!(!inbox.moved(Some(at)), "what was not taken on is none of ours");
    assert!(inbox.entered("some text".into(), Some(at)));
    let news = inbox.take_change().unwrap();
    assert_eq!(news.hover, Some((at, "some text".to_string())));
    assert_eq!(news.dropped, None);
    assert!(inbox.take_change().is_none());
    assert!(inbox.moved(Some(at)));
    assert!(!inbox.performed(None, Some(at)));
    assert!(inbox.performed(Some("payload".into()), Some(at)));
    let news = inbox.take_change().unwrap();
    assert_eq!(news.hover, None);
    assert_eq!(news.dropped, Some((at, "payload".to_string())));
    assert!(inbox.take_change().is_none());
    inbox.entered("again".into(), None);
    inbox.exited();
    assert_eq!(inbox.take_change().unwrap().hover, None);
    assert!(!inbox.accepted);
}

#[test]
fn the_version_names_the_build() {
    assert_eq!(version_string("0.2.8", Some("42c5ba7")), "rt 0.2.8 (42c5ba7)");
    assert_eq!(version_string("0.2.8", Some("")), "rt 0.2.8");
    assert_eq!(version_string("0.2.8", None), "rt 0.2.8");
}

use rt::cli::{parse_cli, spells_number, Stop, USAGE};
use rt::frame::{
    border_bands, chrome_damage, frame_damage, full_next, needs_full, paint_over, paints, plan_blit,
    plan_frame, FrameDamage, FrameFacts, FramePane, FramePlan, Over, PaneChrome, PaneDamage, PxRect, Span,
};
use rt::keymap::Action;
use rt::overlays::Open;
use rt::pane_title::ProcFacts;
use rt::panes::{
    draw_cursor, draw_grid, fill_level, group_hue, mix, size_label, swatch, tab_label, title_for,
    At, Broadcast, CellLook, Cursor, CursorLook, CursorShape, Fill, Marks, Op, Tiling,
};
use rt::search::Match;
use rt::selection::{Selection, Spot};
use rt::settings::Rgb;
use rt::startup::{
    choose_config, pinned_grid, startup_actions, startup_shell, windowing, GlConfig, Layout,
    Windowing,
};

fn args(words: &[&str]) -> Vec<String> {
    words.iter().map(|w| w.to_string()).collect()
}

fn complaint(words: &[&str]) -> String {
    match parse_cli(&args(words)) {
        Err(Stop::Error(w)) => w,
        other => panic!("{other:?}"),
    }
}

#[test]
fn options_take_their_value_either_way() {
    let cli = parse_cli(&args(&[
        "--cols", "120", "--rows=40", "--font", "Fira Code", "--font-size=17.5", "--backend", "GL",
    ]))
    .unwrap();
    assert_eq!(cli.cols, Some(120));
    assert_eq!(cli.rows, Some(40));
    assert_eq!(cli.font.as_deref(), Some("Fira Code"));
    assert_eq!(cli.font_size.as_deref(), Some("17.5"));
    assert_eq!(cli.backend.as_deref(), Some("GL"));
    let none = parse_cli(&args(&[])).unwrap();
    assert!(none.cols.is_none() && none.font.is_none() && none.backend.is_none());
}

#[test]
fn asking_for_the_usage_or_the_version_stops() {
    for w in ["-h", "--help"] {
        assert!(matches!(parse_cli(&args(&[w])), Err(Stop::Help)));
    }
    for w in ["-V", "--version"] {
        assert!(matches!(parse_cli(&args(&[w, "--nonsense"])), Err(Stop::Version)));
    }
    assert!(USAGE.contains("--cols N"));
}

#[test]
fn a_wrong_command_line_is_told_in_words() {
    assert!(complaint(&["--cols", "wide"]).contains("wide"));
    assert!(complaint(&["--font-size", "big"]).contains("big"));
    assert!(complaint(&["--backend", "vulkan"]).contains("'gl' or 'xrender', got 'vulkan'"));
    assert!(complaint(&["--nonsense"]).contains("--nonsense"));
    assert!(complaint(&["--rows"]).contains("--rows"), "a value is missing");
}

#[test]
fn a_size_is_any_decimal_number() {
    for s in ["18", "18.5", ".5", "5.", "+3", "-3", "1e3", "1.5E-2", "inf", "NaN", "infinity"] {
        assert_eq!(spells_number(s), s.parse::<f32>().is_ok(), "{s}");
        assert!(spells_number(s), "{s}");
    }
    for s in ["", ".", "e3", "1e", "1 ", " 1", "0x10", "1_000", "1.2.3", "+", "infinite"] {
        assert_eq!(spells_number(s), s.parse::<f32>().is_ok(), "{s:?}");
        assert!(!spells_number(s), "{s:?}");
    }
}

#[test]
fn a_grid_is_pinned_by_both_sides() {
    assert_eq!(pinned_grid(Some(80), Some(24)), Some((80, 24)));
    assert_eq!(pinned_grid(Some(80), None), None);
    assert_eq!(pinned_grid(Some(0), Some(24)), None);
}

#[test]
fn a_startup_command_leaves_a_shell() {
    let (program, rest) = startup_shell("htop");
    assert_eq!(program, "/bin/sh");
    assert_eq!(rest, vec!["-c", "htop; exec /bin/sh -i"]);
}

#[test]
fn a_layout_is_asked_for_by_the_environment() {
    let none = || Layout {
        split: None,
        columns: None,
        tabs: None,
        zoom: false,
        groups: false,
        broadcast: None,
    };
    assert_eq!(startup_actions(&none()), vec![]);
    let l = Layout {
        split: Some("v".into()),
        columns: Some("3".into()),
        tabs: Some("x".into()),
        zoom: true,
        broadcast: Some("group".into()),
        ..none()
    };
    assert_eq!(
        startup_actions(&l),
        vec![
            Action::SplitVert,
            Action::ColumnsMore,
            Action::ColumnsMore,
            Action::ToggleZoom,
            Action::BroadcastGroup
        ]
    );
    assert_eq!(startup_actions(&Layout { groups: true, ..none() }).len(), 8);
}

#[test]
fn transparency_comes_before_everything() {
    let c = |transparent, alpha, samples| GlConfig { transparent, alpha, samples };
    assert_eq!(choose_config(&vec![]), None);
    let all = vec![c(false, 8, 16), c(true, 8, 0), c(true, 8, 4), c(true, 8, 4), c(true, 0, 16)];
    assert_eq!(choose_config(&all), Some(2), "the first of the best");
}

#[test]
fn the_session_decides_the_windowing() {
    assert_eq!(windowing(true, true), Windowing::Unchanged);
    assert_eq!(windowing(false, true), Windowing::Wayland);
    assert_eq!(windowing(false, false), Windowing::X11);
}

fn px(x: i32, y: i32, w: i32, h: i32) -> PxRect {
    PxRect { x, y, w, h }
}

#[test]
fn the_bands_carry_the_chrome() {
    let (top, bottom, left, right) = border_bands(px(10, 20, 100, 50), 18);
    assert_eq!(top, px(10, 20, 100, 18));
    assert_eq!(bottom, px(10, 64, 100, 6));
    assert_eq!(left, px(10, 20, 6, 50));
    assert_eq!(right, px(104, 20, 6, 50));
    assert_eq!(border_bands(px(0, 0, 9, 9), 0).0.h, 6);
}

#[test]
fn chrome_is_damaged_where_it_can_change() {
    let swatch = px(12, 22, 9, 9);
    let panes = vec![
        PaneChrome { rect: px(10, 20, 100, 50), swatch: Some(swatch) },
        PaneChrome { rect: px(200, 20, 100, 50), swatch: None },
    ];
    let (a, b, c, d) = border_bands(panes[0].rect, 18);
    let all = chrome_damage(&panes, 18, false, true);
    assert_eq!(all.len(), 9);
    assert_eq!(all[..4], [a, b, c, d]);
    assert_eq!(all[8], swatch);
    assert_eq!(chrome_damage(&panes, 18, true, true), vec![swatch]);
    assert_eq!(chrome_damage(&panes, 0, true, true), vec![], "there is no titlebar");
    assert_eq!(chrome_damage(&panes, 18, false, false).len(), 8);
}

fn rects(r: &[PxRect]) -> FrameDamage {
    FrameDamage::Rects(r.to_vec())
}

#[test]
fn a_frame_repaints_what_its_buffer_missed() {
    let mut history = Vec::new();
    let a = px(0, 0, 10, 10);
    let b = px(20, 30, 5, 5);
    assert!(matches!(plan_frame(&mut history, rects(&[a]), 0), FramePlan::Full), "nothing known");
    match plan_frame(&mut history, rects(&[b]), 2) {
        FramePlan::Partial(all, named) => {
            assert_eq!(all, px(0, 0, 25, 35));
            assert_eq!(named, vec![b, a]);
        }
        FramePlan::Full => panic!("two frames are known"),
    }
    match plan_frame(&mut history, rects(&[]), 1) {
        FramePlan::Partial(all, named) => {
            assert_eq!(all, px(0, 0, 0, 0));
            assert!(named.is_empty());
        }
        FramePlan::Full => panic!("nothing changed"),
    }
    assert!(matches!(plan_frame(&mut history, rects(&[a]), 3), FramePlan::Full), "too old");
    assert!(matches!(plan_frame(&mut history, FrameDamage::Full, 1), FramePlan::Full));
    assert!(matches!(plan_frame(&mut history, rects(&[a]), 2), FramePlan::Full), "the last was whole");
    assert_eq!(history.len(), 2);
}

const QUIET: FrameFacts = FrameFacts {
    force_full: false,
    focus_kept: true,
    overlay: false,
    bell: false,
    software: true,
    gl: false,
    wires: false,
    partial_present: true,
    surface_pending: false,
    broadcasting: false,
    can_blit: true,
};

#[test]
fn a_frame_is_whole_where_it_must_be() {
    assert!(!needs_full(&QUIET));
    assert!(needs_full(&FrameFacts { force_full: true, ..QUIET }));
    assert!(needs_full(&FrameFacts { focus_kept: false, ..QUIET }));
    assert!(needs_full(&FrameFacts { overlay: true, ..QUIET }));
    assert!(needs_full(&FrameFacts { bell: true, ..QUIET }));
    assert!(needs_full(&FrameFacts { software: false, ..QUIET }));
    assert!(needs_full(&FrameFacts { partial_present: false, ..QUIET }));
    assert!(needs_full(&FrameFacts { gl: true, wires: true, ..QUIET }));
    assert!(!needs_full(&FrameFacts { wires: true, ..QUIET }));
    assert!(paints(&QUIET) && !paints(&FrameFacts { surface_pending: true, ..QUIET }));
    assert!(full_next(&FrameFacts { overlay: true, ..QUIET }, false));
    assert!(full_next(&QUIET, true) && !full_next(&QUIET, false));
}

fn scrolled(columned: bool, lines: u16) -> FramePane {
    FramePane {
        content: px(10, 20, 100, 200),
        columned,
        damage: PaneDamage::Scroll(lines, vec![Span { line: 9, left: 1, right: 3 }]),
    }
}

#[test]
fn a_frame_that_only_scrolls_moves_the_window() {
    let still = FramePane {
        content: px(200, 0, 9, 9),
        columned: false,
        damage: PaneDamage::Runs(vec![]),
    };
    let b = plan_blit(&QUIET, &vec![scrolled(false, 2), still.clone()], 10, 20).unwrap();
    assert_eq!(b.moves, vec![(px(10, 20, 100, 200), 40)]);
    assert_eq!(b.paint, px(20, 200, 30, 20));
    assert_eq!(b.show, px(10, 20, 100, 200));
    let idle = FramePane { columned: true, ..still.clone() };
    assert!(plan_blit(&QUIET, &vec![scrolled(false, 2), idle], 10, 20).is_some());
    let other = FramePane { damage: PaneDamage::Full, ..still.clone() };
    assert!(plan_blit(&QUIET, &vec![scrolled(false, 2), other], 10, 20).is_none());
    let runs = PaneDamage::Runs(vec![Span { line: 0, left: 0, right: 0 }]);
    let changed = FramePane { damage: runs, ..still.clone() };
    assert!(plan_blit(&QUIET, &vec![scrolled(false, 2), changed], 10, 20).is_none());
    assert!(plan_blit(&QUIET, &vec![scrolled(true, 2)], 10, 20).is_none());
    assert!(plan_blit(&QUIET, &vec![still], 10, 20).is_none(), "nothing scrolled");
    let broadcasting = FrameFacts { broadcasting: true, ..QUIET };
    assert!(plan_blit(&broadcasting, &vec![scrolled(false, 2)], 10, 20).is_none());
}

#[test]
fn a_frame_paints_the_cells_that_changed_and_then_the_chrome() {
    let runs = vec![Span { line: 9, left: 1, right: 3 }, Span { line: 0, left: 0, right: 0 }];
    let pane = FramePane {
        content: px(10, 20, 100, 200),
        columned: false,
        damage: PaneDamage::Runs(runs),
    };
    let still = FramePane {
        content: px(200, 0, 9, 9),
        columned: false,
        damage: PaneDamage::Runs(vec![]),
    };
    let go = |facts: &FrameFacts, panes: Vec<FramePane>| {
        match frame_damage(facts, &panes, 10, 20, vec![px(1, 2, 3, 4)]) {
            FrameDamage::Full => None,
            FrameDamage::Rects(rects) => Some(rects),
        }
    };
    let wanted = vec![px(20, 200, 30, 20), px(10, 20, 10, 20), px(1, 2, 3, 4)];
    assert_eq!(go(&QUIET, vec![still.clone(), pane.clone()]), Some(wanted));
    assert_eq!(go(&QUIET, vec![still.clone()]), Some(vec![px(1, 2, 3, 4)]));
    assert_eq!(go(&FrameFacts { bell: true, ..QUIET }, vec![pane.clone()]), None);
    let columned = FramePane { columned: true, ..still.clone() };
    assert_eq!(go(&QUIET, vec![pane.clone(), columned]), None, "its cells have no one place");
    assert_eq!(go(&QUIET, vec![pane.clone(), scrolled(false, 2)]), None);
    let whole = FramePane { damage: PaneDamage::Full, ..still };
    assert_eq!(go(&QUIET, vec![pane, whole]), None);
}

#[test]
fn one_thing_is_painted_over_the_panes() {
    let none = Open { picker: false, prefs: false, manual: false, menu: false, search: false };
    assert_eq!(paint_over(none, true, false, false, false), (Over::Nothing, true, true));
    assert_eq!(paint_over(none, false, true, false, false), (Over::Nothing, true, false));
    assert_eq!(paint_over(none, false, true, true, true), (Over::Nothing, false, false));
    let prefs = Open { prefs: true, search: true, ..none };
    assert_eq!(paint_over(prefs, true, true, false, true), (Over::Prefs, false, false));
    let picker = Open { picker: true, ..prefs };
    assert_eq!(paint_over(picker, true, true, false, true).0, Over::PrefsAndPicker);
    assert_eq!(paint_over(Open { menu: true, ..none }, true, true, false, true).0, Over::Menu);
    assert_eq!(paint_over(Open { manual: true, ..none }, true, true, false, true).0, Over::Manual);
    assert_eq!(paint_over(Open { search: true, ..none }, true, true, false, true).0, Over::Search);
}

fn rgb(r: u8, g: u8, b: u8) -> Rgb {
    Rgb { r, g, b }
}

fn look(c: char) -> CellLook {
    CellLook {
        c,
        fg: rgb(200, 200, 200),
        bg: rgb(0, 0, 0),
        bold: false,
        italic: false,
        underline: false,
        strikeout: false,
    }
}

fn marks() -> Marks {
    Marks { hits: vec![], current: 0, selection: None, offset: 0, default_bg: rgb(0, 0, 0) }
}

const PLAIN: Tiling = Tiling { columns: 1, per_column: 0, max_cols: 80, max_rows: 24 };

fn cell(col: usize, row: usize) -> At {
    At { tile: 0, col, row }
}

#[test]
fn a_grid_is_drawn_cell_by_cell() {
    let underlined = CellLook { underline: true, bg: rgb(1, 2, 3), ..look(' ') };
    let rows = vec![vec![look('a'), look(' '), underlined]];
    let fg = rgb(200, 200, 200);
    assert_eq!(
        draw_grid(&rows, PLAIN, &marks()),
        vec![
            Op::Glyph(cell(0, 0), 'a', fg, false, false),
            Op::Fill(cell(2, 0), rgb(1, 2, 3)),
            Op::Underline(cell(2, 0), fg),
        ]
    );
    let narrow = Tiling { max_cols: 1, ..PLAIN };
    assert_eq!(draw_grid(&rows, narrow, &marks()).len(), 1);
    assert!(draw_grid(&rows, Tiling { max_rows: 0, ..PLAIN }, &marks()).is_empty());
}

#[test]
fn text_runs_in_columns() {
    let rows = vec![vec![look('a')], vec![look('b')], vec![look('c')], vec![look('d')], vec![look('e')]];
    let two = Tiling { columns: 2, per_column: 2, max_cols: 80, max_rows: 24 };
    let places: Vec<(usize, usize)> = draw_grid(&rows, two, &marks())
        .iter()
        .map(|op| match op {
            Op::Glyph(at, ..) => (at.tile, at.row),
            other => panic!("{other:?}"),
        })
        .collect();
    assert_eq!(places, vec![(0, 0), (0, 1), (1, 0), (1, 1)], "the fifth row has no column");
}

#[test]
fn the_current_hit_is_always_seen() {
    let everything = Selection {
        pane: 1,
        anchor: Spot { col: 0, line: -9 },
        head: Spot { col: 9, line: 9 },
        block: false,
    };
    let k = Marks {
        hits: vec![Match { line: -1, col: 0, len: 2 }, Match { line: -1, col: 1, len: 2 }],
        current: 1,
        selection: Some(everything),
        offset: 1,
        ..marks()
    };
    let rows = vec![vec![look(' '); 4]];
    assert_eq!(
        draw_grid(&rows, PLAIN, &k),
        vec![
            Op::Fill(cell(0, 0), rgb(0x5a, 0x4a, 0x10)),
            Op::Fill(cell(1, 0), rgb(0xbb, 0x99, 0x22)),
            Op::Fill(cell(2, 0), rgb(0xbb, 0x99, 0x22)),
            Op::Fill(cell(3, 0), rgb(0x33, 0x44, 0x66)),
        ]
    );
}

#[test]
fn a_cursor_has_the_shape_that_was_asked_for() {
    let rows = vec![vec![look('a'), look(' ')]];
    let at = |col, shape, focused| {
        draw_cursor(Cursor { col, line: 0, shape }, PLAIN, &rows, focused)
    };
    assert_eq!(
        at(0, CursorShape::Block, true),
        CursorLook::BlockOver(cell(0, 0), 'a', rgb(0, 0, 0), false, false)
    );
    assert_eq!(at(1, CursorShape::Block, true), CursorLook::Block(cell(1, 0)));
    assert_eq!(at(5, CursorShape::Block, true), CursorLook::Block(cell(5, 0)));
    assert_eq!(at(0, CursorShape::Beam, true), CursorLook::Beam(cell(0, 0)));
    assert_eq!(at(0, CursorShape::Underline, true), CursorLook::Underline(cell(0, 0)));
    assert_eq!(at(0, CursorShape::HollowBlock, true), CursorLook::Hollow(cell(0, 0)));
    assert_eq!(at(0, CursorShape::Hidden, true), CursorLook::Nothing);
    assert_eq!(at(0, CursorShape::Beam, false), CursorLook::Hollow(cell(0, 0)));
    assert_eq!(at(80, CursorShape::Block, true), CursorLook::Nothing, "no room");
    let below = Cursor { col: 0, line: 1, shape: CursorShape::Block };
    assert_eq!(draw_cursor(below, PLAIN, &rows, true), CursorLook::Nothing);
}

#[test]
fn a_swatch_warns_before_it_names_the_group() {
    assert_eq!(swatch(None, Broadcast::Off, false), None);
    assert_eq!(swatch(Some(2), Broadcast::Off, true), Some((group_hue(2), false)));
    assert_eq!(swatch(Some(2), Broadcast::All, true), Some((rgb(0xd9, 0x4a, 0x4a), true)));
    assert_eq!(swatch(None, Broadcast::Group, true), Some((rgb(0xd9, 0x90, 0x4a), true)));
    assert_eq!(swatch(Some(1), Broadcast::Group, false), Some((group_hue(1), false)));
}

#[test]
fn a_meter_warms_as_the_buffer_fills() {
    assert_eq!(fill_level(60, 100), Fill::Calm);
    assert_eq!(fill_level(61, 100), Fill::Warm);
    assert_eq!(fill_level(85, 100), Fill::Warm);
    assert_eq!(fill_level(86, 100), Fill::Hot);
    assert_eq!(fill_level(usize::MAX, usize::MAX), Fill::Hot);
}

#[test]
fn colours_mix_by_hundredths() {
    let (a, b) = (rgb(0, 100, 255), rgb(255, 200, 0));
    assert_eq!(mix(a, b, 0), a);
    assert_eq!(mix(a, b, 100), b);
    assert_eq!(mix(a, b, 50), rgb(128, 150, 128));
}

#[test]
fn a_titlebar_says_what_matters_most() {
    let facts = ProcFacts { cwd: Some("/home/me/rt".into()), name: Some("vim".into()) };
    let none = ProcFacts { cwd: None, name: None };
    assert_eq!(title_for(Some("SELECT"), Some("t"), &facts, 80, 24, 40), "SELECT");
    assert_eq!(title_for(None, Some("me@host: ~/git/rt"), &facts, 80, 24, 6), "…it/rt");
    assert_eq!(title_for(None, Some(""), &facts, 80, 24, 40), "rt — vim — 80x24");
    assert_eq!(title_for(None, None, &none, 80, 24, 40), "Terminal");
    assert_eq!(title_for(None, None, &none, 80, 24, 5), "Term…", "a label keeps its head");
    assert_eq!(size_label(80, 24), "80x24");
    assert_eq!(tab_label(2, Some("vim"), 40), "2: vim");
    assert_eq!(tab_label(2, Some("a long title"), 6), "2: a …");
    assert_eq!(tab_label(12, None, 1), "12");
}

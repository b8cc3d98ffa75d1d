use rt::geometry::{
    cell_at, column_separator, content_bounds, drag_offset, pane_at, scrollbar_at,
    scrollbar_metrics, Area, Hit, PaneArea, Point, ScrollInfo, Scrollbar, SUB,
};
use rt::keymap::Mods;
use rt::manual::{document, manual_lines, Line, LineKind, Role, MANUAL, MANUAL_MACOS};
use rt::mouse::{
    encode_mouse, end_mouse_report, forward_hover, forward_mouse, MouseReport, Pointer, Pressed,
    Under, Wants,
};
use rt::search::{hit_marker_ys, Match, Search};
use rt::selection::{
    is_word, line_last_col, logical_line, redact_url, url_at, word_at, Grid, Run, Selection, Spot,
};
use rt::settings::Rgb;

fn sel(anchor: (usize, i32), head: (usize, i32), block: bool) -> Selection {
    Selection {
        pane: 1,
        anchor: Spot { col: anchor.0, line: anchor.1 },
        head: Spot { col: head.0, line: head.1 },
        block,
    }
}

#[test]
fn linear_spans_rows_and_bounds_ends_by_column() {
    let s = sel((5, 2), (3, 4), false);
    assert!(!s.contains(4, 2));
    assert!(s.contains(5, 2));
    assert!(s.contains(80, 2));
    assert!(s.contains(0, 3));
    assert!(s.contains(999, 3));
    assert!(s.contains(3, 4));
    assert!(!s.contains(4, 4));
    assert!(!s.contains(0, 1) && !s.contains(0, 5));
}

#[test]
fn linear_is_order_independent_and_handles_history_lines() {
    let a = sel((2, -3), (7, -1), false);
    let b = sel((7, -1), (2, -3), false);
    for line in -4..=0 {
        for col in 0..10 {
            assert_eq!(a.contains(col, line), b.contains(col, line), "col {col} line {line}");
        }
    }
    assert!(a.contains(2, -3));
    assert!(a.contains(7, -1));
    assert!(a.contains(0, -2));
    assert!(!a.contains(1, -3));
    assert_eq!(a.ordered(), b.ordered());
}

#[test]
fn block_is_a_rectangle_not_row_major() {
    let s = sel((6, 1), (2, 3), true);
    for line in 1..=3 {
        assert!(s.contains(2, line) && s.contains(6, line));
        assert!(!s.contains(1, line) && !s.contains(7, line));
    }
    assert!(!s.contains(4, 0) && !s.contains(4, 4));
    assert!(!s.contains(0, 2));
    assert!(sel((6, 1), (2, 3), false).contains(0, 2));
}

fn rows(text: &[&str]) -> Vec<Vec<char>> {
    text.iter().map(|l| l.chars().collect()).collect()
}

fn run(start: (usize, usize), end: (usize, usize)) -> Run {
    Run { start_row: start.0, start_col: start.1, end_row: end.0, end_col: end.1 }
}

#[test]
fn a_word_is_letters_digits_and_what_paths_are_made_of() {
    for c in "aZ0é漢-_./~:@%+#=?&".chars() {
        assert!(is_word(c), "{c:?}");
    }
    for c in " \t()[]{}<>|\"'`,;!".chars() {
        assert!(!is_word(c), "{c:?}");
    }
}

#[test]
fn a_double_click_takes_the_word() {
    let grid = Grid {
        rows: rows(&["see ~/git/rt ", "x (a)"]),
        cols: 13,
        wrapped: vec![false, false],
    };
    let at = |c, r| word_at(&grid, c, r).map(|w| (w.start_row, w.start_col, w.end_row, w.end_col));
    assert_eq!(at(6, 0), Some((0, 4, 0, 11)));
    assert_eq!(at(3, 0), Some((0, 3, 0, 3)), "a blank is selected alone");
    assert_eq!(at(2, 1), Some((1, 2, 1, 2)), "so is a bracket");
    assert_eq!(at(40, 1), None, "past the row");
    assert_eq!(at(0, 9), None, "past the screen");
}

#[test]
fn a_word_goes_on_over_the_end_of_a_wrapped_row() {
    let grid = Grid {
        rows: rows(&["ab cd", "efg h", "xy   "]),
        cols: 5,
        wrapped: vec![true, false, false],
    };
    for (c, r) in [(3, 0), (4, 0), (0, 1), (2, 1)] {
        let w = word_at(&grid, c, r).unwrap();
        let want = run((0, 3), (1, 2));
        assert_eq!(
            (w.start_row, w.start_col, w.end_row, w.end_col),
            (want.start_row, want.start_col, want.end_row, want.end_col)
        );
    }
    let alone = word_at(&grid, 4, 1).unwrap();
    assert_eq!((alone.start_row, alone.end_row), (1, 1), "the row is not wrapped");
}

#[test]
fn an_address_is_found_under_the_pointer() {
    let text = rows(&["see (https://example.org/a?b=1), or mailto:me@x.org.", "www.example.org"]);
    assert_eq!(url_at(&text, 10, 0), Some("https://example.org/a?b=1".to_string()));
    assert_eq!(url_at(&text, 40, 0), Some("mailto:me@x.org".to_string()));
    assert_eq!(url_at(&text, 0, 0), None);
    assert_eq!(url_at(&text, 3, 1), None, "no scheme");
    assert_eq!(url_at(&text, 3, 9), None);
}

#[test]
fn a_log_shows_no_more_than_the_host() {
    assert_eq!(redact_url("https://example.org/reset?token=1"), "https://example.org/…");
    assert_eq!(redact_url("https://example.org?q"), "https://example.org/…");
    assert_eq!(redact_url("https://example.org"), "https://example.org");
    assert_eq!(redact_url("mailto:me@x.org"), "mailto:…");
    assert_eq!(redact_url("nonsense"), "…");
}

#[test]
fn a_triple_click_takes_the_line() {
    let text = rows(&["abc  ", "     ", "x"]);
    assert_eq!(line_last_col(&text, 0), 2);
    assert_eq!(line_last_col(&text, 1), 0);
    assert_eq!(line_last_col(&text, 2), 0);
    assert_eq!(line_last_col(&text, 7), 0);
    let wrapped = vec![false, true, true, false];
    assert_eq!(logical_line(&wrapped, 4, 2), (1, 3));
    assert_eq!(logical_line(&wrapped, 4, 0), (0, 0));
    assert_eq!(logical_line(&wrapped, 3, 1), (1, 2), "no further than the screen");
}

fn rgb(c: [u8; 3]) -> Rgb {
    Rgb { r: c[0], g: c[1], b: c[2] }
}

#[test]
fn column_separator_is_the_fg_bg_midpoint() {
    let c = column_separator(rgb([210, 210, 210]), rgb([30, 30, 30]));
    assert_eq!(c, rgb([120, 120, 120]));
    let c2 = column_separator(rgb([200, 100, 0]), rgb([0, 0, 40]));
    assert_eq!(c2, rgb([100, 50, 20]));
}

#[test]
fn hit_markers_span_the_track_and_dedupe() {
    let track = Area { x: 0, y: 100 * SUB, w: 10 * SUB, h: 200 * SUB };
    let (history, screen) = (100_000usize, 100usize);
    let top = hit_marker_ys(&vec![-(history as i32)], history, screen, track);
    assert_eq!(top, vec![100]);
    let newest = hit_marker_ys(&vec![screen as i32 - 1], history, screen, track);
    assert!(newest[0] > 298, "newest hit sits near the track bottom");
    let close = hit_marker_ys(&vec![0i32, 1], history, screen, track);
    assert_eq!(close.len(), 1);
    let spread = hit_marker_ys(
        &vec![-(history as i32), -(history as i32) / 2, screen as i32 - 1],
        history,
        screen,
        track,
    );
    assert_eq!(spread.len(), 3);
    assert!(spread.windows(2).all(|w| w[0] < w[1]));
}

#[test]
fn marks_are_the_nearest_pixels() {
    let track = |y: i64, h: i64| Area { x: 0, y: y * SUB, w: SUB, h: h * SUB };
    assert_eq!(hit_marker_ys(&vec![0], 50, 50, track(0, 100)), vec![50]);
    assert_eq!(hit_marker_ys(&vec![49, -50, -999], 50, 50, track(0, 100)), vec![0, 99]);
    assert_eq!(
        hit_marker_ys(&vec![0], 0, 0, track(7, 100)),
        vec![7],
        "an empty buffer counts as a line"
    );
    assert_eq!(hit_marker_ys(&vec![0], 1, 1, track(-5, 5)), vec![-3], "a half goes away from zero");
    assert_eq!(hit_marker_ys(&vec![0], 1, 1, track(0, 5)), vec![3]);
    let between = Area { x: 0, y: 40, w: SUB, h: 2 * SUB };
    assert_eq!(hit_marker_ys(&vec![-1, 0], 1, 1, between), vec![1, 2], "0.625 and 1.625");
}

#[test]
fn there_are_never_more_marks_than_pixels() {
    let track = Area { x: 0, y: 33, w: SUB, h: 10 * SUB + 11 };
    let all: Vec<i32> = (-1000..24).collect();
    let marks = hit_marker_ys(&all, 1000, 24, track);
    assert_eq!(marks, (1..=11).collect::<Vec<i64>>());
}

fn hit(line: i32) -> Match {
    Match { line, col: 0, len: 1 }
}

#[test]
fn a_search_steps_round_its_hits() {
    let mut s = Search::closed();
    assert_eq!(s.step(1), None, "no hits");
    s.start(7);
    assert_eq!(s.take_matches(7, vec![hit(-9), hit(-4), hit(2)], true), Some(-9));
    assert_eq!(s.step(1), Some(-4));
    assert_eq!(s.step(1), Some(2));
    assert_eq!(s.step(1), Some(-9), "round the end");
    assert_eq!(s.step(-1), Some(2), "and back");
    assert_eq!(s.index, 2);
    assert_eq!(s.take_matches(7, vec![hit(0)], false), None, "new output scrolls nothing");
    assert_eq!(s.index, 0, "but the current hit is one that is there");
    s.close();
    assert!(!s.open && s.query.is_empty() && s.matches.is_empty() && s.pane.is_none());
}

fn px(n: i64) -> i64 {
    n * 64
}

fn area(x: i64, y: i64, w: i64, h: i64) -> Area {
    Area { x: px(x), y: px(y), w: px(w), h: px(h) }
}

fn pane(id: u64, x: i64, columned: bool) -> PaneArea {
    PaneArea { id, full: area(x, 0, 100, 200), content: area(x, 20, 90, 180), columned }
}

fn at(x: i64, y: i64) -> Point {
    Point { x: px(x), y: px(y) }
}

#[test]
fn the_contents_keep_clear_of_the_edge() {
    assert_eq!(content_bounds(800, 600), (8, 8, 784, 584));
    assert_eq!(content_bounds(10, 16), (8, 8, 1, 1));
}

#[test]
fn a_point_has_one_cell() {
    let panes = vec![pane(1, 0, false), pane(2, 100, true)];
    assert_eq!(pane_at(&panes, at(99, 10)), Some(0));
    assert_eq!(pane_at(&panes, at(100, 10)), Some(1));
    assert_eq!(pane_at(&panes, at(300, 10)), None);
    assert_eq!(
        cell_at(&panes, at(25, 41), px(10), px(20)),
        Some(Hit::Cell { pane: 1, col: 2, row: 1 })
    );
    assert_eq!(cell_at(&panes, at(25, 19), px(10), px(20)), None, "a titlebar has no cells");
    assert_eq!(
        cell_at(&panes, at(110, 30), px(10), px(20)),
        Some(Hit::Columns { pane: 2, dx: px(10), dy: px(10) })
    );
}

#[test]
fn a_scrollbar_tells_where_the_view_is() {
    let rect = area(0, 20, 90, 180);
    let bottom = scrollbar_metrics(rect, 0, 900, 100);
    assert_eq!(
        bottom,
        Scrollbar { x: px(90) + 32, w: px(4), thumb_y: px(20 + 180 - 24), thumb_h: px(24) }
    );
    assert_eq!(scrollbar_metrics(rect, 900, 900, 100).thumb_y, px(20));
    assert_eq!(scrollbar_metrics(rect, 0, 100, 100).thumb_h, px(90), "half the buffer shows");
    assert_eq!(scrollbar_metrics(area(0, 0, 9, 10), 0, 9, 1).thumb_h, px(10), "no taller than the track");
}

#[test]
fn a_scrollbar_is_grabbed_only_with_history() {
    let panes = vec![pane(1, 0, false)];
    let at_bar = at(92, 100);
    let scroll = |history| vec![ScrollInfo { offset: 0, history, screen: 9 }];
    assert!(scrollbar_at(&panes, &scroll(0), at_bar).is_none());
    assert_eq!(scrollbar_at(&panes, &scroll(90), at_bar).map(|b| b.0), Some(0));
    assert!(scrollbar_at(&panes, &scroll(90), at(50, 100)).is_none());
}

#[test]
fn a_drag_reaches_both_ends_of_the_history() {
    let rect = area(0, 0, 90, 124);
    let to = |y: i64| drag_offset(rect, 0, 1_000, 10, 0, y);
    assert_eq!(to(px(-5)), Some(1_000));
    assert_eq!(to(px(500)), Some(0));
    assert_eq!(to(px(50)), Some(500));
    assert_eq!(drag_offset(rect, 0, 0, 10, 0, 0), None, "no history");
    assert_eq!(drag_offset(area(0, 0, 9, 10), 0, 5, 10, 0, 0), None, "no travel");
}

const NONE: Mods = Mods { control: false, shift: false, alt: false, logo: false };

#[test]
fn a_report_is_spelled_in_both_forms() {
    let ctrl = Mods { control: true, ..NONE };
    let alt = Mods { alt: true, ..NONE };
    let sgr = |r, m| String::from_utf8(encode_mouse(r, 12, 345, m, true).unwrap()).unwrap();
    assert_eq!(sgr(MouseReport::Press(0), NONE), "\x1b[<0;12;345M");
    assert_eq!(sgr(MouseReport::Release(2), NONE), "\x1b[<2;12;345m");
    assert_eq!(sgr(MouseReport::Drag(0), ctrl), "\x1b[<48;12;345M");
    assert_eq!(sgr(MouseReport::Move, alt), "\x1b[<43;12;345M");
    assert_eq!(sgr(MouseReport::Scroll(true), NONE), "\x1b[<64;12;345M");
    assert_eq!(sgr(MouseReport::Scroll(false), NONE), "\x1b[<65;12;345M");
    let old = |r| encode_mouse(r, 12, 345, NONE, false).unwrap();
    assert_eq!(old(MouseReport::Press(1)), vec![0x1b, b'[', b'M', 33, 44, 255]);
    assert_eq!(old(MouseReport::Release(1)), vec![0x1b, b'[', b'M', 35, 44, 255]);
}

fn under(pane: u64, col: usize, wants: Wants) -> Option<Under> {
    Some(Under { pane, col, row: 0, wants })
}

const ALL: Wants = Wants { mouse: true, motion: true, sgr: true };
const NOTHING: Wants = Wants { mouse: false, motion: false, sgr: false };

#[test]
fn a_press_is_told_only_to_a_program_that_asked() {
    let mut p = Pointer { pressed: None, hover: None };
    assert!(forward_mouse(&mut p, MouseReport::Press(0), under(1, 0, NOTHING), NONE).is_none());
    assert!(forward_mouse(&mut p, MouseReport::Press(0), None, NONE).is_none());
    assert_eq!(p.pressed, None);
    let d = forward_mouse(&mut p, MouseReport::Press(0), under(1, 4, ALL), NONE).unwrap();
    assert_eq!((d.pane, d.bytes), (1, b"\x1b[<0;5;1M".to_vec()));
    assert_eq!(p.pressed, Some(Pressed { pane: 1, button: 0 }));
}

#[test]
fn no_program_misses_a_release() {
    let held = Pointer { pressed: Some(Pressed { pane: 1, button: 2 }), hover: None };
    let mut p = held;
    let (was, d) = end_mouse_report(&mut p, under(1, 3, ALL), Some(ALL), NONE);
    assert!(was);
    assert_eq!(d.unwrap().bytes, b"\x1b[<2;4;1m".to_vec());
    assert_eq!(p.pressed, None);
    let mut p = held;
    let (was, d) = end_mouse_report(&mut p, None, Some(ALL), NONE);
    assert!(was);
    let d = d.unwrap();
    assert_eq!((d.pane, d.bytes), (1, b"\x1b[<2;1;1m".to_vec()));
    let mut p = held;
    let (was, d) = end_mouse_report(&mut p, None, None, NONE);
    assert!(was && d.is_none(), "its pane is gone");
    let (was, d) = end_mouse_report(&mut p, under(1, 3, ALL), Some(ALL), NONE);
    assert!(!was && d.is_none(), "there is no second release");
}

#[test]
fn hovering_is_told_once_per_cell() {
    let mut p = Pointer { pressed: None, hover: None };
    let (has, d) = forward_hover(&mut p, under(1, 3, ALL), NONE);
    assert!(has);
    assert_eq!(d.unwrap().bytes, b"\x1b[<35;4;1M".to_vec());
    let (has, d) = forward_hover(&mut p, under(1, 3, ALL), NONE);
    assert!(has && d.is_none());
    let (has, d) = forward_hover(&mut p, under(1, 4, NOTHING), NONE);
    assert!(!has && d.is_none());
    assert_eq!(p.hover, None);
    let (has, _) = forward_hover(&mut p, None, NONE);
    assert!(!has);
}

#[test]
fn selection_and_clipboard_features_are_documented() {
    for needle in [
        "Shift+click",
        "Ctrl+Shift+click",
        "Ctrl+drag",
        "double-click",
        "triple-click",
        "CLIPBOARD HISTORY",
        "Shift+Enter",
        "--cols",
        "RT_ENGINE",
    ] {
        assert!(MANUAL.contains(needle), "manual lacks {needle:?}");
    }
}

#[test]
fn the_manual_is_read_line_by_line() {
    let lines = manual_lines(false);
    assert_eq!(lines, MANUAL.lines().map(String::from).collect::<Vec<_>>());
    let mac = manual_lines(true);
    assert_eq!(mac.len(), lines.len() + MANUAL_MACOS.lines().count());
}

#[test]
fn the_runs_of_a_line_are_the_line() {
    let line = |kind, text: &str, key_end| Line { kind, text: text.to_string(), key_end };
    let doc = document(&vec![
        line(LineKind::Heading, "KEYS", None),
        line(LineKind::Body, "⌘C  copy", Some(2)),
        line(LineKind::Body, "plain", None),
        line(LineKind::Body, "ab", Some(9)),
    ]);
    let want = [
        (Role::Head, "KEYS"),
        (Role::Body, "\n"),
        (Role::Key, "⌘C"),
        (Role::Dim, "  copy"),
        (Role::Body, "\n"),
        (Role::Body, "plain"),
        (Role::Body, "\n"),
        (Role::Key, "ab"),
        (Role::Dim, ""),
        (Role::Body, "\n"),
    ];
    let got: Vec<(Role, &str)> = doc.iter().map(|(r, t)| (*r, t.as_str())).collect();
    assert_eq!(got, want);
}

use rt::commit::same_settings;
use rt::prefs_model::{
    apply_scheme, enabled, picker_dismiss, preset_name, settle_due, step, Dismiss, PickerDismiss,
    PrefRow,
};
use rt::prefs_native::{
    apply_choice, apply_flag, apply_number, choices, control, flag, label, number, range,
    row_control, Control, RowKind,
};
use rt::settings::{
    Catalog, Material, Rgb, Scheme, Settings, MAX_ARROW_ACCEL, MAX_SCROLLBACK, MIN_OPACITY,
    MIN_OPACITY_BLURRED,
};
use rt::settings_window::{
    build, colour_edit, edit_for, row_height, same_shape, sync, Edit, Element, Frame, PrefLine,
    Reading, Write, WELL_TAG_BASE,
};

fn rgb(r: u8, g: u8, b: u8) -> Rgb {
    Rgb { r, g, b }
}

fn scheme(name: &str, shade: u8) -> Scheme {
    Scheme {
        name: name.to_string(),
        foreground: rgb(shade, 200, 200),
        background: rgb(shade, 10, 10),
        palette: [rgb(shade, 1, 2); 16],
    }
}

fn catalog() -> Catalog {
    let materials = [
        "regular", "clear", "titlebar", "selection", "menu", "popover", "sidebar", "header",
        "sheet", "window", "hud", "fullscreen", "tooltip", "content",
    ];
    Catalog {
        schemes: vec![scheme("Tango", 1), scheme("Solarized", 2), scheme("Gruvbox", 3)],
        materials: materials
            .iter()
            .enumerate()
            .map(|(i, m)| Material { name: m.to_string(), effect_view: i >= 2 })
            .collect(),
        themes: vec!["classic".to_string(), "graphite".to_string(), "paper".to_string()],
        min_blur_radius: 1,
        max_blur_radius: 64,
    }
}

fn defaults() -> Settings {
    let c = catalog();
    Settings {
        font_size: 18_000,
        font_family: "Alpha Mono".to_string(),
        background_opacity: 1_000,
        background_blur: false,
        scrim_strength: 500,
        macos_glass_material: c.materials[0].name.clone(),
        macos_blur_radius: 20,
        chrome_theme: c.themes[0].clone(),
        foreground: c.schemes[0].foreground,
        background: c.schemes[0].background,
        palette: c.schemes[0].palette,
        focus_follows_mouse: false,
        show_titlebar: true,
        scrollback: 10_000,
        inst_output: true,
        inst_heat: true,
        inst_latency: false,
        show_jacks: false,
        inst_remote: false,
        inst_animate: false,
        arrow_accel: true,
        arrow_accel_max: 6,
        term: "xterm-256color".to_string(),
    }
}

fn fams() -> Vec<String> {
    vec!["Alpha Mono".to_string(), "Beta Mono".to_string(), "Gamma Mono".to_string()]
}

fn four() -> Vec<String> {
    vec!["Alpha Mono".into(), "Beta Mono".into(), "Gamma Mono".into(), "Delta Mono".into()]
}

fn terms() -> Vec<String> {
    vec!["xterm-256color".to_string(), "xterm-kitty".to_string(), "rt".to_string()]
}

fn none() -> Vec<String> {
    Vec::new()
}

fn yes() -> impl FnMut(&String) -> bool {
    |_| true
}

fn go(s: &mut Settings, row: PrefRow, dir: i32) {
    step(s, row, dir, &fams(), &terms(), &catalog(), &mut yes());
}

fn drive(s: &mut Settings, row: PrefRow, target: i64) -> Option<i128> {
    apply_number(s, row, target, &none(), &none(), &catalog(), &mut yes())
}

const EVERY_ROW: &[PrefRow] = &[
    PrefRow::FontSize,
    PrefRow::FontFamily,
    PrefRow::Opacity,
    PrefRow::Blur,
    PrefRow::GlassMaterial,
    PrefRow::BlurRadius,
    PrefRow::Chrome,
    PrefRow::Preset,
    PrefRow::Ffm,
    PrefRow::Titlebar,
    PrefRow::Scrollback,
    PrefRow::ArrowAccel,
    PrefRow::ArrowAccelMax,
    PrefRow::Term,
    PrefRow::InstOutput,
    PrefRow::InstHeat,
    PrefRow::InstLatency,
    PrefRow::Jacks,
    PrefRow::InstRemote,
    PrefRow::InstAnimate,
    PrefRow::Close,
];

#[test]
fn every_way_out_of_the_picker_commits() {
    for way in [PickerDismiss::Done, PickerDismiss::Escape, PickerDismiss::ClickedOutside] {
        assert_eq!(picker_dismiss(way), Dismiss::Commit, "{way:?} must commit");
    }
}

const MS: u128 = 1_000_000;

#[test]
fn the_settle_commits_regardless_of_what_is_still_on_screen() {
    let settle = 150 * MS;
    assert!(settle_due(true, settle, settle), "an edit that has held still commits");
    assert!(settle_due(true, 400 * MS, settle));
}

#[test]
fn the_settle_waits_for_a_pending_edit_to_hold_still() {
    let settle = 150 * MS;
    assert!(!settle_due(false, 10_000 * MS, settle), "nothing to commit");
    assert!(!settle_due(true, 149 * MS, settle), "still being dragged");
}

#[test]
fn font_size_steps_by_one_and_clamps_at_both_ends() {
    let mut s = defaults();
    s.font_size = 18_000;
    go(&mut s, PrefRow::FontSize, 1);
    assert_eq!(s.font_size, 19_000);
    go(&mut s, PrefRow::FontSize, -1);
    assert_eq!(s.font_size, 18_000);
    s.font_size = 48_000;
    go(&mut s, PrefRow::FontSize, 1);
    assert_eq!(s.font_size, 48_000);
    s.font_size = 8_000;
    go(&mut s, PrefRow::FontSize, -1);
    assert_eq!(s.font_size, 8_000);
}

#[test]
fn opacity_clamps_via_the_existing_settings_rule() {
    let mut s = defaults();
    s.background_opacity = 1_000;
    go(&mut s, PrefRow::Opacity, 1);
    assert_eq!(s.background_opacity, 1_000, "must not exceed 1.0");
    for _ in 0..100 {
        go(&mut s, PrefRow::Opacity, -1);
    }
    assert_eq!(s.background_opacity, MIN_OPACITY);
}

#[test]
fn scrollback_doubles_and_halves_within_bounds() {
    let mut s = defaults();
    s.scrollback = 10_000;
    go(&mut s, PrefRow::Scrollback, 1);
    assert_eq!(s.scrollback, 20_000, "logarithmic: x2 per step");
    go(&mut s, PrefRow::Scrollback, -1);
    assert_eq!(s.scrollback, 10_000);
    s.scrollback = 1000;
    go(&mut s, PrefRow::Scrollback, -1);
    assert_eq!(s.scrollback, 1000);
    s.scrollback = MAX_SCROLLBACK;
    go(&mut s, PrefRow::Scrollback, 1);
    assert_eq!(s.scrollback, MAX_SCROLLBACK);
}

#[test]
fn family_cycles_and_wraps_both_ways() {
    let mut s = defaults();
    s.font_family = "Beta Mono".to_string();
    go(&mut s, PrefRow::FontFamily, 1);
    assert_eq!(s.font_family, "Gamma Mono");
    go(&mut s, PrefRow::FontFamily, 1);
    assert_eq!(s.font_family, "Alpha Mono", "wraps forward");
    go(&mut s, PrefRow::FontFamily, -1);
    assert_eq!(s.font_family, "Gamma Mono", "wraps backward");
}

#[test]
fn family_step_is_a_noop_when_no_families_are_installed() {
    let mut s = defaults();
    s.font_family = "Whatever".to_string();
    step(&mut s, PrefRow::FontFamily, 1, &none(), &terms(), &catalog(), &mut yes());
    assert_eq!(s.font_family, "Whatever", "must not panic or blank the family");
}

#[test]
fn a_toggle_flips_on_either_direction() {
    let mut s = defaults();
    s.show_titlebar = true;
    go(&mut s, PrefRow::Titlebar, 1);
    assert!(!s.show_titlebar);
    go(&mut s, PrefRow::Titlebar, -1);
    assert!(s.show_titlebar, "Left and Right both toggle");
}

#[test]
fn preset_applies_a_whole_scheme_and_reports_its_name() {
    let mut s = defaults();
    go(&mut s, PrefRow::Preset, 1);
    let c = catalog();
    let want = &c.schemes[1];
    assert_eq!(s.foreground, want.foreground);
    assert_eq!(s.background, want.background);
    assert_eq!(s.palette, want.palette, "a preset sets fg, bg AND the palette");
    assert_eq!(preset_name(&s, &c), want.name);
}

#[test]
fn preset_name_says_custom_when_colours_match_no_scheme() {
    let mut s = defaults();
    s.foreground = rgb(1, 2, 3);
    assert_eq!(preset_name(&s, &catalog()), "custom");
}

#[test]
fn preset_from_custom_lands_on_the_first_scheme_not_the_second() {
    let c = catalog();
    let mut s = defaults();
    s.foreground = rgb(248, 194, 0);
    s.background = rgb(1, 2, 3);
    go(&mut s, PrefRow::Preset, 1);
    let first = &c.schemes[0];
    assert_eq!(s.foreground, first.foreground, "Right from custom -> first scheme");
    assert_eq!(s.background, first.background);
    assert_eq!(s.palette, first.palette);
    let mut s = defaults();
    s.foreground = rgb(248, 194, 0);
    s.background = rgb(1, 2, 3);
    go(&mut s, PrefRow::Preset, -1);
    let last = &c.schemes[c.schemes.len() - 1];
    assert_eq!(s.foreground, last.foreground, "Left from custom -> last scheme");
    assert_eq!(s.background, last.background);
    assert_eq!(s.palette, last.palette);
}

#[test]
fn family_from_unmatched_lands_on_the_first_family_not_the_second() {
    let mut s = defaults();
    s.font_family = "Not Installed".to_string();
    go(&mut s, PrefRow::FontFamily, 1);
    assert_eq!(s.font_family, "Alpha Mono", "Right from unmatched -> first family");
    let mut s = defaults();
    s.font_family = "Not Installed".to_string();
    go(&mut s, PrefRow::FontFamily, -1);
    assert_eq!(s.font_family, "Gamma Mono", "Left from unmatched -> last family");
}

#[test]
fn glass_material_cycles_and_wraps() {
    let mut s = defaults();
    s.background_blur = true;
    s.background_opacity = 500;
    let c = catalog();
    let all: Vec<&str> = c.materials.iter().map(|m| m.name.as_str()).collect();
    assert_eq!(s.macos_glass_material, all[0], "starts at the default");
    go(&mut s, PrefRow::GlassMaterial, 1);
    assert_eq!(s.macos_glass_material, all[1]);
    go(&mut s, PrefRow::GlassMaterial, -1);
    assert_eq!(s.macos_glass_material, all[0]);
    go(&mut s, PrefRow::GlassMaterial, -1);
    assert_eq!(s.macos_glass_material, all[all.len() - 1], "wraps backward");
    for _ in 0..all.len() {
        go(&mut s, PrefRow::GlassMaterial, 1);
    }
    assert_eq!(s.macos_glass_material, all[all.len() - 1]);
}

#[test]
fn glass_material_is_disabled_when_there_is_no_glass_to_shape() {
    let c = catalog();
    let mut s = defaults();
    s.background_blur = false;
    s.background_opacity = 500;
    assert!(!enabled(&s, PrefRow::GlassMaterial, &c), "no blur -> no glass to shape");
    s.background_blur = true;
    s.background_opacity = 1_000;
    assert!(!enabled(&s, PrefRow::GlassMaterial, &c), "opaque -> the glass is invisible");
    s.background_opacity = 500;
    assert!(enabled(&s, PrefRow::GlassMaterial, &c));
    s.background_blur = false;
    let before = s.macos_glass_material.clone();
    go(&mut s, PrefRow::GlassMaterial, 1);
    assert_eq!(s.macos_glass_material, before);
}

#[test]
fn inst_animate_is_disabled_until_inst_remote_is_on() {
    let c = catalog();
    let mut s = defaults();
    s.inst_remote = false;
    assert!(!enabled(&s, PrefRow::InstAnimate, &c), "the 6fps tick needs both");
    s.inst_remote = true;
    assert!(enabled(&s, PrefRow::InstAnimate, &c));
    assert!(enabled(&s, PrefRow::FontSize, &c));
}

#[test]
fn stepping_a_disabled_row_changes_nothing() {
    let mut s = defaults();
    s.inst_remote = false;
    s.inst_animate = false;
    go(&mut s, PrefRow::InstAnimate, 1);
    assert!(!s.inst_animate, "a greyed row must not be steppable");
}

#[test]
fn a_blur_radius_needs_glass_that_has_one() {
    let c = catalog();
    let mut s = defaults();
    s.background_blur = true;
    s.background_opacity = 500;
    assert!(enabled(&s, PrefRow::BlurRadius, &c));
    s.macos_glass_material = "titlebar".to_string();
    assert!(!enabled(&s, PrefRow::BlurRadius, &c), "an effect view has a blur of its own");
}

#[test]
fn every_row_maps_to_a_native_control() {
    let dismissed: Vec<PrefRow> =
        EVERY_ROW.iter().copied().filter(|r| control(*r) == Control::Dismiss).collect();
    assert_eq!(dismissed, vec![PrefRow::Close], "only Close may map to nothing");
}

fn line(kind: RowKind, label: &str, value: &str, pref: Option<PrefRow>) -> PrefLine {
    PrefLine { kind, label: label.to_string(), value: value.to_string(), pref, enabled: true }
}

fn dialog() -> Vec<PrefLine> {
    vec![
        line(RowKind::Section, "Font", "", None),
        line(RowKind::Step, "Size", "18", Some(PrefRow::FontSize)),
        line(RowKind::Step, "Family", "Alpha Mono", Some(PrefRow::FontFamily)),
        line(RowKind::Section, "Window", "", None),
        line(RowKind::Step, "Opacity", "100%", Some(PrefRow::Opacity)),
        line(RowKind::Toggle, "Blur", "off", Some(PrefRow::Blur)),
        line(RowKind::Step, "Theme", "classic", Some(PrefRow::Chrome)),
        line(RowKind::Step, "Preset", "Tango", Some(PrefRow::Preset)),
        line(RowKind::Swatches, "Palette", "", None),
        line(RowKind::Toggle, "Focus follows mouse", "off", Some(PrefRow::Ffm)),
        line(RowKind::Toggle, "Title bars", "on", Some(PrefRow::Titlebar)),
        line(RowKind::Step, "Scrollback", "10000", Some(PrefRow::Scrollback)),
        line(RowKind::Display, "", "1.2 GB when full", None),
        line(RowKind::Action, "Close", "", Some(PrefRow::Close)),
    ]
}

#[test]
fn the_linux_dialog_s_rows_are_all_covered() {
    let rows = dialog();
    for r in rows.iter().filter_map(|r| r.pref) {
        assert!(EVERY_ROW.contains(&r), "{r:?} is built on Linux but unmapped here");
        let c = control(r);
        if r == PrefRow::Close {
            assert_eq!(c, Control::Dismiss);
        } else {
            assert_ne!(c, Control::Dismiss, "{r:?} needs a real control");
        }
    }
}

#[test]
fn each_control_has_exactly_the_value_it_needs() {
    let s = defaults();
    let c = catalog();
    for &r in EVERY_ROW {
        let (f, n, l) = (flag(&s, r).is_some(), number(&s, r).is_some(), label(&s, r, &c).is_some());
        match control(r) {
            Control::Switch => assert_eq!((f, n, l), (true, false, false), "{r:?}"),
            Control::Stepper | Control::Slider => {
                assert_eq!((f, n, l), (false, true, false), "{r:?}")
            }
            Control::PopUp => assert_eq!((f, n, l), (false, false, true), "{r:?}"),
            Control::Swatches | Control::Dismiss => {
                assert_eq!((f, n, l), (false, false, false), "{r:?}")
            }
        }
    }
}

#[test]
fn a_popup_lists_the_model_s_whole_ring() {
    let s = defaults();
    let c = catalog();
    let chrome = choices(&s, PrefRow::Chrome, &none(), &none(), &c);
    assert_eq!(chrome.len(), c.themes.len());
    assert!(chrome.contains(&"graphite".to_string()));
    let glass = choices(&s, PrefRow::GlassMaterial, &none(), &none(), &c);
    assert_eq!(glass.len(), c.materials.len(), "all fourteen materials");
    assert_eq!(glass.len(), 14);
    let t = choices(&s, PrefRow::Term, &none(), &terms(), &c);
    assert_eq!(t.len(), terms().len());
}

#[test]
fn a_dimmed_popup_still_lists_its_ring() {
    let c = catalog();
    let mut s = defaults();
    s.background_blur = false;
    assert!(!enabled(&s, PrefRow::GlassMaterial, &c), "the row must be dimmed for this test");
    assert_eq!(
        choices(&s, PrefRow::GlassMaterial, &none(), &none(), &c).len(),
        c.materials.len()
    );
}

#[test]
fn picking_from_a_popup_reaches_every_entry() {
    let c = catalog();
    let mut base = defaults();
    base.background_blur = true;
    base.background_opacity = 850;
    for row in [PrefRow::Chrome, PrefRow::GlassMaterial] {
        let list = choices(&base, row, &none(), &none(), &c);
        assert!(!list.is_empty());
        for want in &list {
            let mut s = base.clone();
            let got = apply_choice(&mut s, row, want, &none(), &terms(), &c, &mut yes());
            assert_eq!(got.as_deref(), Some(want.as_str()), "{row:?} -> {want}");
            assert_eq!(label(&s, row, &c).as_deref(), Some(want.as_str()), "{row:?} really moved");
        }
    }
}

#[test]
fn a_native_change_still_pays_the_model_s_side_effects() {
    let c = catalog();
    let mut s = defaults();
    s.background_blur = true;
    s.background_opacity = 0;
    let mut native = s.clone();
    apply_flag(&mut native, PrefRow::Blur, false, &none(), &none(), &c, &mut yes());
    let mut linux = s.clone();
    step(&mut linux, PrefRow::Blur, 1, &none(), &none(), &c, &mut yes());
    assert!(same_settings(&native, &linux), "the native switch and the arrow key must agree");
    assert!(native.background_opacity >= MIN_OPACITY, "the floor was enforced");
}

#[test]
fn a_slider_s_range_is_the_model_s_own() {
    let c = catalog();
    let mut s = defaults();
    s.background_blur = false;
    assert_eq!(range(&s, PrefRow::Opacity, &c), Some((MIN_OPACITY as i128, 1_000)));
    s.background_blur = true;
    s.background_opacity = 500;
    assert_eq!(range(&s, PrefRow::Opacity, &c), Some((MIN_OPACITY_BLURRED as i128, 1_000)));
    assert_eq!(range(&s, PrefRow::FontSize, &c), Some((8_000, 48_000)));
    assert_eq!(range(&s, PrefRow::ArrowAccelMax, &c), Some((1, MAX_ARROW_ACCEL as i128)));
}

#[test]
fn a_slider_dragged_past_the_end_stops_at_the_model_s_clamp() {
    let mut s = defaults();
    s.background_blur = false;
    assert_eq!(drive(&mut s, PrefRow::Opacity, -5_000), Some(MIN_OPACITY as i128));
    assert_eq!(drive(&mut s, PrefRow::FontSize, 9_999_000), Some(48_000));
}

#[test]
fn a_slider_lands_on_a_rung_the_arrow_keys_could_reach() {
    let mut s = defaults();
    s.background_opacity = 1_000;
    drive(&mut s, PrefRow::Opacity, 620);
    let got = s.background_opacity as i64;
    assert_eq!((1_000 - got) % 50, 0, "on the 0.05 ladder");
    assert!((got - 620).abs() <= 25, "and nearest to the ask");
}

#[test]
fn the_scrollback_stepper_walks_the_doubling_ladder() {
    let mut s = defaults();
    s.scrollback = 10_000;
    drive(&mut s, PrefRow::Scrollback, 70_000);
    assert_eq!(s.scrollback, 80_000, "10k doubled three times, nearest to 70k");
    drive(&mut s, PrefRow::Scrollback, 0);
    assert_eq!(s.scrollback, 1000, "the floor clamp is the model's, not a rung");
}

#[test]
fn a_disabled_row_refuses_a_native_request() {
    let mut s = defaults();
    s.arrow_accel = false;
    let was = s.arrow_accel_max;
    assert_eq!(drive(&mut s, PrefRow::ArrowAccelMax, 99), Some(was as i128));
    assert_eq!(s.arrow_accel_max, was);
}

#[test]
fn the_family_popup_cannot_land_on_a_font_rt_cannot_draw() {
    let f = four();
    let mut s = defaults();
    s.font_family = "Alpha Mono".into();
    let mut oracle = |name: &String| name != "Beta Mono" && name != "Gamma Mono";
    let got =
        apply_choice(&mut s, PrefRow::FontFamily, "Beta Mono", &f, &none(), &catalog(), &mut oracle);
    assert_eq!(got.as_deref(), Some("Delta Mono"), "skipped the two unusable families");
    assert_eq!(s.font_family, "Delta Mono");
}

#[test]
fn the_family_popup_reaches_a_usable_family() {
    let f = four();
    for want in &f {
        let mut s = defaults();
        s.font_family = "Alpha Mono".into();
        let got =
            apply_choice(&mut s, PrefRow::FontFamily, want, &f, &none(), &catalog(), &mut yes());
        assert_eq!(got.as_deref(), Some(want.as_str()));
        assert_eq!(&s.font_family, want);
    }
}

#[test]
fn the_palette_row_is_a_colour_well_row() {
    let rows = dialog();
    let sw = rows.iter().find(|r| r.kind == RowKind::Swatches).expect("a palette row");
    assert_eq!(row_control(sw.kind, sw.pref), Some(Control::Swatches));
    assert!(EVERY_ROW.iter().all(|r| control(*r) != Control::Swatches), "no PrefRow is a swatch");
}

#[test]
fn headings_and_readouts_are_not_controls() {
    let rows = dialog();
    for r in rows.iter().filter(|r| matches!(r.kind, RowKind::Section | RowKind::Display)) {
        assert_eq!(row_control(r.kind, r.pref), None, "{:?} {:?}", r.kind, r.label);
    }
    for r in rows.iter().filter(|r| r.pref.is_some() || r.kind == RowKind::Swatches) {
        assert!(row_control(r.kind, r.pref).is_some(), "{:?}", r.label);
    }
}

#[test]
fn a_scheme_is_worn_whole() {
    let c = catalog();
    let mut s = defaults();
    for scheme in &c.schemes {
        apply_scheme(&mut s, scheme);
        assert_eq!(preset_name(&s, &c), scheme.name);
    }
}

#[test]
fn stepping_back_undoes_a_step_on_a_ring() {
    let mut s = defaults();
    let before = s.chrome_theme.clone();
    go(&mut s, PrefRow::Chrome, 1);
    assert_eq!(s.chrome_theme, "graphite");
    go(&mut s, PrefRow::Chrome, -1);
    assert_eq!(s.chrome_theme, before);
}

#[test]
fn opacity_moves_within_the_bounds_of_the_blur() {
    let mut s = defaults();
    assert_eq!(s.adjust_opacity(-70), 930);
    assert_eq!(s.adjust_opacity(-5_000), 50);
    s.background_blur = true;
    assert_eq!(s.adjust_opacity(-5_000), 0);
    assert_eq!(s.adjust_opacity(5_000), 1_000);
    assert!(!s.wants_background_blur(), "nothing shows through");
}

#[test]
fn the_window_is_laid_out_row_by_row() {
    let rows = dialog();
    let plan = build(&rows, &defaults(), &fams(), &terms(), &catalog());
    let heights: u32 = rows.iter().map(|r| row_height(r.kind)).sum();
    assert_eq!(plan.height, 20 + heights + 20);
    assert_eq!(plan.kinds[1], Some((PrefRow::FontSize, Control::Stepper)));
    assert_eq!(plan.kinds[0], None);
    assert_eq!(plan.kinds[8], None, "a palette has wells, which speak for themselves");
    assert_eq!(plan.menus[2], fams());
    assert!(plan.menus[1].is_empty());
    assert!(plan.elements[13].is_empty(), "the window's own button closes it");
    assert!(matches!(plan.elements[0][0], Element::Heading(_)));
    let wells = plan.elements[8].iter().filter(|e| matches!(e, Element::Well(..))).count();
    assert_eq!(wells, 18);
    let switch = plan.elements[5].iter().find(|e| matches!(e, Element::Switch(_)));
    assert!(matches!(switch, Some(Element::Switch(Frame { x: 242, .. }))));
}

#[test]
fn a_refresh_writes_what_the_settings_say() {
    let rows = dialog();
    let c = catalog();
    let mut s = defaults();
    let plan = build(&rows, &s, &fams(), &terms(), &c);
    let mut menus = plan.menus;
    s.background_blur = true;
    let writes = sync(&rows, &s, &fams(), &terms(), &c, &mut menus);
    assert!(matches!(writes[5], Some(Write::Switch { on: true, enabled: true })));
    assert!(matches!(
        writes[4],
        Some(Write::Slider { travel: Some((0, 1_000)), value: Some(1_000), enabled: true })
    ));
    assert!(matches!(
        writes[2],
        Some(Write::PopUp { refill: false, select: Some(0), enabled: true })
    ));
    assert!(matches!(writes[12], Some(Write::Text)));
    let grown = four();
    let writes = sync(&rows, &s, &grown, &terms(), &c, &mut menus);
    assert!(matches!(writes[2], Some(Write::PopUp { refill: true, select: Some(0), .. })));
    assert_eq!(menus[2], grown);
}

#[test]
fn only_a_changed_shape_is_built_anew() {
    let rows = dialog();
    let mut other = dialog();
    assert!(same_shape(&rows, &other));
    other[1].value = "19".to_string();
    assert!(same_shape(&rows, &other), "a value is not the shape");
    other[1].label = "Height".to_string();
    assert!(!same_shape(&rows, &other));
    other.pop();
    assert!(!same_shape(&rows, &other));
}

#[test]
fn a_control_says_what_it_edits() {
    let rows = dialog();
    let plan = build(&rows, &defaults(), &fams(), &terms(), &catalog());
    let at = |tag: i64, r: Reading| edit_for(tag, &plan.kinds, &plan.menus, r);
    let idle = Reading { state: 0, number: 0, notches: 0, selected: -1 };
    assert!(matches!(
        at(5, Reading { state: 1, ..idle }),
        Some(Edit::Flag(PrefRow::Blur, true))
    ));
    assert!(matches!(
        at(4, Reading { number: 700, ..idle }),
        Some(Edit::Number(PrefRow::Opacity, 700))
    ));
    assert!(matches!(
        at(1, Reading { notches: -2, ..idle }),
        Some(Edit::Step(PrefRow::FontSize, -2))
    ));
    assert!(at(1, idle).is_none(), "a stepper that did not move");
    assert!(matches!(
        at(2, Reading { selected: 1, ..idle }),
        Some(Edit::Choice(PrefRow::FontFamily, f)) if f == "Beta Mono"
    ));
    assert!(at(2, idle).is_none(), "a popup without a selection");
    assert!(at(0, idle).is_none());
    assert!(at(-1, idle).is_none());
    assert!(at(99, idle).is_none());
    let red = rgb(255, 0, 0);
    assert!(matches!(colour_edit(WELL_TAG_BASE + 3, Some(red)), Some(Edit::Colour(3, c)) if c == red));
    assert!(colour_edit(WELL_TAG_BASE + 3, None).is_none());
    assert!(colour_edit(3, Some(red)).is_none());
}

#[test]
fn picking_a_family_reaches_it() {
    let f = four();
    let mut s = defaults();
    let mut oracle = |name: &String| name == "Delta Mono" || name == "Alpha Mono";
    let got =
        apply_choice(&mut s, PrefRow::FontFamily, "Delta Mono", &f, &none(), &catalog(), &mut oracle);
    assert_eq!(got.as_deref(), Some("Delta Mono"), "whatever becomes of the others");
}

#[test]
fn a_scrollback_request_lands_on_the_nearest_rung() {
    for (target, want) in [(59_000, 40_000), (60_000, 40_000), (61_000, 80_000), (i64::MAX, MAX_SCROLLBACK)] {
        let mut s = defaults();
        s.scrollback = 10_000;
        drive(&mut s, PrefRow::Scrollback, target);
        assert_eq!(s.scrollback, want, "asked for {target}");
    }
}

use rt::proc_info::{cwd_of, name_of, pid_in_range};
use rt::proc_liveness::{
    liveness_from, probe, should_reclaim, should_reclaim_pid, Liveness, ESRCH,
};
use rt::proc_stat::{pids_in, subtree_cpu_ticks, ticks_in, total_ram_bytes, MAX_VISITS};
use rt::scale_policy::{
    on_scale_factor_changed, physical_font_px, settle_work, ScaleArm, SettleWork, SCALE_EPSILON,
};

const EPERM: i32 = 1;

fn never(_pid: u32) -> Option<String> {
    panic!("asked about what is no process")
}

#[test]
fn non_pids_are_rejected_rather_than_queried() {
    assert_eq!(cwd_of(0, never), None);
    assert_eq!(name_of(0, never), None);
    assert_eq!(cwd_of(u32::MAX, never), None);
    assert_eq!(name_of(u32::MAX, never), None);
}

#[test]
fn pids_are_positive_and_signed() {
    assert!(!pid_in_range(0));
    assert!(pid_in_range(1));
    assert!(pid_in_range(i32::MAX as u32));
    assert!(!pid_in_range(i32::MAX as u32 + 1));
}

#[test]
fn answers_about_a_process_are_cleaned() {
    assert_eq!(cwd_of(7, |_| Some("/tmp/\u{1b}[2J".into())), Some("/tmp/[2J".into()));
    assert_eq!(cwd_of(7, |_| Some("\u{7}".into())), None, "nothing is left of it");
    assert_eq!(cwd_of(7, |_| None), None);
    assert_eq!(name_of(7, |p| Some(format!("sleep{p}\n"))), Some("sleep7".into()));
    assert_eq!(name_of(7, |_| Some(" \n".into())), None);
    assert_eq!(name_of(7, |_| None), None);
}

#[test]
fn an_absent_pid_is_reclaimed() {
    assert!(should_reclaim(4242, 1234, Liveness::Gone));
}

#[test]
fn a_live_pid_is_kept() {
    assert!(!should_reclaim(4242, 1234, Liveness::Alive));
}

#[test]
fn our_own_directory_is_never_reclaimed() {
    let me = 4321;
    assert!(!should_reclaim(me, me, Liveness::Alive));
    assert!(!should_reclaim(me, me, Liveness::Gone));
}

#[test]
fn broadcast_pids_are_never_reclaimed() {
    let me = 4321;
    let kill = |_: i32| -> Result<(), Option<i32>> { panic!("kill was called") };
    assert_eq!(probe(0, kill), Liveness::Alive);
    assert_eq!(probe(u32::MAX, kill), Liveness::Alive);
    assert!(!should_reclaim_pid(0, me, kill));
    assert!(!should_reclaim_pid(u32::MAX, me, kill));
}

#[test]
fn only_no_such_process_means_gone() {
    assert_eq!(liveness_from(Ok(())), Liveness::Alive);
    assert_eq!(liveness_from(Err(Some(EPERM))), Liveness::Alive, "someone else's process is alive");
    assert_eq!(liveness_from(Err(None)), Liveness::Alive);
    assert_eq!(liveness_from(Err(Some(ESRCH))), Liveness::Gone);
    assert_eq!(ESRCH, libc::ESRCH);
    assert!(should_reclaim_pid(7, 8, |p| {
        assert_eq!(p, 7);
        Err(Some(ESRCH))
    }));
    assert!(!should_reclaim_pid(7, 8, |_| Err(Some(EPERM))));
    assert!(!should_reclaim_pid(7, 7, |_| Err(Some(ESRCH))));
}

fn stat(utime: u64, stime: u64) -> String {
    format!("1 (a) b) S 1 1 1 0 -1 4194560 0 0 0 0 {utime} {stime} 0 0 20 0")
}

#[test]
fn processor_time_is_read_behind_the_program_name() {
    assert_eq!(ticks_in(&stat(30, 12)), 42);
    assert_eq!(ticks_in("no name at all 1 2 3"), 0);
    assert_eq!(ticks_in("1 (x) S 1 2 3"), 0, "too few fields");
    assert_eq!(ticks_in("1 (x) S 1 1 1 0 -1 0 0 0 0 0 x 5 0"), 5, "a field that is no number counts nothing");
    assert_eq!(ticks_in(&stat(u64::MAX, u64::MAX)), 2 * u64::MAX as u128);
}

#[test]
fn a_pane_s_processor_time_is_that_of_its_whole_subtree() {
    let stats = |p: u32| match p {
        1 => Some(stat(1, 0)),
        2 => Some(stat(10, 0)),
        3 => Some(stat(100, 0)),
        4 => None,
        _ => Some(stat(1000, 0)),
    };
    let kids = |p: u32| match p {
        1 => Some("2 3 x ".to_string()),
        3 => Some("4".to_string()),
        _ => None,
    };
    assert_eq!(subtree_cpu_ticks(1, stats, kids), 111);
    let mut visits = 0;
    subtree_cpu_ticks(
        9,
        |_| {
            visits += 1;
            None
        },
        |_| Some("9".to_string()),
    );
    assert_eq!(visits, MAX_VISITS, "a tree that does not end is left");
}

#[test]
fn memory_is_read_in_kilobytes() {
    let text = "MemFree: 1 kB\nMemTotal:       65712345 kB\nMemTotal: 1 kB\n";
    assert_eq!(total_ram_bytes(Some(text)), 65712345 * 1024);
    assert_eq!(total_ram_bytes(Some("MemTotal: lots\nMemTotal: 2\n")), 2048);
    assert_eq!(total_ram_bytes(Some("")), 0);
    assert_eq!(total_ram_bytes(None), 0);
}

/// A scale factor in billionths, or none where it is no finite number.
fn scale(f: f64) -> Option<i64> {
    if f.is_finite() {
        Some((f * 1e9).round() as i64)
    } else {
        None
    }
}

fn loaded(f: f64) -> i64 {
    scale(f).unwrap()
}

const EPSILON: f64 = 1e-6;

#[test]
fn moving_to_a_retina_display_arms_a_reload() {
    let arm = on_scale_factor_changed(loaded(1.0), scale(2.0));
    assert!(arm.reload_owed, "1x -> 2x must re-measure the cell at the new scale");
    assert!(arm.arm_settle, "the re-measure must be paid by the resize settle, not inline");
    assert!(arm.suspend_painting, "no frame may be drawn with stale cell metrics");
}

#[test]
fn moving_to_a_1x_display_arms_a_reload() {
    assert_eq!(
        on_scale_factor_changed(loaded(2.0), scale(1.0)),
        ScaleArm { arm_settle: true, reload_owed: true, suspend_painting: true },
    );
}

#[test]
fn every_real_scale_step_arms() {
    assert_eq!(SCALE_EPSILON, loaded(EPSILON));
    for &(from, to) in &[
        (1.0_f64, 1.25_f64),
        (1.25, 1.5),
        (1.5, 1.0),
        (2.0, 3.0),
        (3.0, 1.75),
        (1.0, 1.0 + EPSILON * 10.0),
    ] {
        assert!(
            on_scale_factor_changed(loaded(from), scale(to)).reload_owed,
            "{from} -> {to} must arm a reload",
        );
    }
}

#[test]
fn the_same_factor_re_reported_does_nothing() {
    for &f in &[1.0_f64, 1.25, 2.0, 3.0] {
        assert_eq!(on_scale_factor_changed(loaded(f), scale(f)), ScaleArm::ignore(), "{f} -> {f}");
    }
    assert_eq!(
        on_scale_factor_changed(loaded(2.0), scale(2.0 + EPSILON / 2.0)),
        ScaleArm::ignore()
    );
}

#[test]
fn an_unusable_factor_is_refused() {
    for &bad in &[0.0_f64, -1.0, -2.0, f64::NAN, f64::INFINITY, f64::NEG_INFINITY] {
        assert_eq!(
            on_scale_factor_changed(loaded(1.0), scale(bad)),
            ScaleArm::ignore(),
            "scale {bad}"
        );
    }
}

#[test]
fn linux_at_scale_1_is_untouched() {
    assert_eq!(on_scale_factor_changed(loaded(1.0), scale(1.0)), ScaleArm::ignore());
    assert_eq!(
        settle_work(true, false),
        SettleWork { resize_surface: true, reload_fonts: false, relayout: true },
        "a plain resize settle must still be surface + one relayout",
    );
}

#[test]
fn every_settle_reflows_exactly_once() {
    for &surface in &[false, true] {
        for &scale in &[false, true] {
            let w = settle_work(surface, scale);
            assert_eq!(w.reflow_count(), 1, "surface={surface} scale={scale}");
        }
    }
}

#[test]
fn a_scale_settle_reflows_through_the_font_reload() {
    let w = settle_work(true, true);
    assert!(w.reload_fonts);
    assert!(!w.relayout, "a font reload already lays out; a second one is pure waste");
    assert!(w.resize_surface, "the surface is still the pre-scale one");
}

#[test]
fn a_slow_drag_between_displays_keeps_arming_until_it_settles() {
    let mut font_scale = 1.0_f64;
    for reported in [2.0_f64, 2.0, 2.0] {
        let arm = on_scale_factor_changed(loaded(font_scale), scale(reported));
        assert!(arm.arm_settle, "event {reported} must push the settle out");
        assert!(arm.suspend_painting, "the window must not paint mid-crossing");
        assert_eq!(font_scale, 1.0);
    }
    assert_eq!(on_scale_factor_changed(loaded(font_scale), scale(1.0)), ScaleArm::ignore());
    for reported in [2.0_f64, 2.0] {
        assert!(on_scale_factor_changed(loaded(font_scale), scale(reported)).arm_settle);
    }
    let w = settle_work(true, true);
    assert_eq!(w.reflow_count(), 1, "one reflow for the whole drag");
    assert!(w.reload_fonts);
    font_scale = 2.0;
    assert_eq!(on_scale_factor_changed(loaded(font_scale), scale(2.0)), ScaleArm::ignore());
}

#[test]
fn the_two_kinds_of_owed_work_are_independent() {
    assert_eq!(
        settle_work(false, true),
        SettleWork { resize_surface: false, reload_fonts: true, relayout: false },
    );
    assert_eq!(
        settle_work(false, false),
        SettleWork { resize_surface: false, reload_fonts: false, relayout: true },
    );
}

#[test]
fn a_list_of_children_is_read_word_by_word() {
    assert_eq!(pids_in("12 7\n4294967295 "), vec![12, 7, u32::MAX]);
    assert_eq!(pids_in("12 x7 4294967296 -1 3"), vec![12, 3]);
    assert!(pids_in("").is_empty());
}

#[test]
fn a_font_grows_with_the_display_s_factor() {
    assert_eq!(physical_font_px(18_000, 1_000_000_000), 18_000);
    assert_eq!(physical_font_px(18_000, 2_000_000_000), 36_000);
    assert_eq!(physical_font_px(17_500, 1_250_000_000), 21_875);
    assert_eq!(physical_font_px(1, 1_500_000_000), 2, "the nearest");
    assert_eq!(physical_font_px(1, 1_499_999_999), 1);
}

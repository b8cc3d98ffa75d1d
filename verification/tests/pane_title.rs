use rt::pane_title::{
    derived, describing_pid, dir_label, fit, join_len, sanitize, Keep, ProcFacts, MAX_CHARS,
    MAX_DEPTH,
};
use std::borrow::Cow;

#[test]
fn a_clean_title_is_passed_through_without_allocating() {
    let t = "roland@dop561: ~/git/rt";
    assert!(matches!(sanitize(t), Cow::Borrowed(_)));
    assert_eq!(sanitize(t), t);
}

#[test]
fn control_characters_are_stripped() {
    assert_eq!(sanitize("a\nb\tc\x07d\x1be"), "abcde");
    assert_eq!(sanitize("build\x07 done"), "build done");
    assert_eq!(sanitize("a\u{7f}b"), "ab", "DEL is a control character too");
}

#[test]
fn bidi_overrides_are_stripped() {
    assert_eq!(sanitize("~/git/\u{202E}gnp.exe"), "~/git/gnp.exe");
    assert_eq!(sanitize("\u{2066}a\u{2069}b"), "ab");
}

#[test]
fn an_absurd_title_is_bounded() {
    let huge = "x".repeat(100_000);
    assert_eq!(sanitize(&huge).chars().count(), MAX_CHARS);
}

#[test]
fn multibyte_titles_survive_sanitising() {
    assert_eq!(sanitize("→ κόσμε ✓"), "→ κόσμε ✓");
    let wide = "漢".repeat(MAX_CHARS + 50);
    assert_eq!(sanitize(&wide).chars().count(), MAX_CHARS);
}

#[test]
fn a_long_path_keeps_its_tail() {
    let t = "roland@dop561: ~/git/rt/crates/rt/src/chrome";
    assert_eq!(fit(t, 14, Keep::Tail), "…rt/src/chrome");
    assert_eq!(fit(t, 14, Keep::Tail).chars().count(), 14);
    assert_eq!(fit(t, 20, Keep::Head), "roland@dop561: ~/gi…");
}

#[test]
fn a_short_enough_string_is_untouched() {
    assert_eq!(fit("rt", 2, Keep::Tail), "rt");
    assert_eq!(fit("rt", 80, Keep::Tail), "rt");
    assert_eq!(fit("rt", 2, Keep::Head), "rt");
}

#[test]
fn degenerate_budgets_are_safe() {
    assert_eq!(fit("anything", 0, Keep::Tail), "");
    assert_eq!(fit("anything", 1, Keep::Tail), "…");
    assert_eq!(fit("anything", 1, Keep::Head), "…");
    assert_eq!(fit("anything", 2, Keep::Tail), "…g");
    assert_eq!(fit("anything", 2, Keep::Head), "a…");
}

#[test]
fn the_result_never_exceeds_the_budget() {
    let samples = ["", "x", "漢字のタイトル", "roland@host: ~/a/b/c/d/e", "→→→→→→→→→→"];
    for s in samples {
        for avail in 0..12 {
            for keep in [Keep::Head, Keep::Tail] {
                assert!(
                    fit(s, avail, keep).chars().count() <= avail,
                    "fit({s:?}, {avail}, {keep:?}) overran its budget"
                );
            }
        }
    }
}

#[test]
fn a_directory_labels_itself_by_its_last_component() {
    assert_eq!(dir_label("/Users/roland"), Some("roland".into()));
    assert_eq!(dir_label("/Users/roland/git/rt"), Some("rt".into()));
    assert_eq!(
        dir_label("/Users/roland/Library/"),
        Some("Library".into()),
        "a trailing slash is not a component"
    );
    assert_eq!(dir_label("/"), Some("/".into()), "the root's only name is itself");
    assert_eq!(dir_label(""), None, "no cwd at all: say nothing");
}

#[test]
fn a_roomy_pane_gets_the_whole_terminal_app_shape() {
    let f = ProcFacts { cwd: Some("/Users/roland".into()), name: Some("zsh".into()) };
    assert_eq!(derived(&f, 120, 30, 80).unwrap(), "roland — zsh — 120x30");
    let f = ProcFacts { cwd: Some("/Users/roland/Library".into()), name: Some("bash".into()) };
    assert_eq!(derived(&f, 120, 30, 80).unwrap(), "Library — bash — 120x30");
}

#[test]
fn a_narrow_pane_drops_the_least_useful_segment_first() {
    let f = ProcFacts { cwd: Some("/Users/roland/git/rt".into()), name: Some("zsh".into()) };
    assert_eq!(derived(&f, 120, 30, 80).unwrap(), "rt — zsh — 120x30");
    assert_eq!(derived(&f, 120, 30, 17).unwrap(), "rt — zsh — 120x30", "exactly enough room");
    assert_eq!(derived(&f, 120, 30, 16).unwrap(), "rt — zsh", "no room for the size");
    assert_eq!(derived(&f, 120, 30, 7).unwrap(), "rt", "no room for the program either");
    assert_eq!(derived(&f, 120, 30, 2).unwrap(), "rt");
    let f = ProcFacts {
        cwd: Some("/Users/roland/some-very-long-directory".into()),
        name: Some("zsh".into()),
    };
    assert_eq!(derived(&f, 120, 30, 8).unwrap(), "some-ve…");
}

#[test]
fn a_derived_title_never_exceeds_the_budget() {
    let facts = [
        ProcFacts { cwd: Some("/Users/roland/git/rt".into()), name: Some("zsh".into()) },
        ProcFacts { cwd: Some("/".into()), name: None },
        ProcFacts { cwd: None, name: Some("cargo".into()) },
        ProcFacts { cwd: Some("/漢字/ディレクトリ".into()), name: Some("vim".into()) },
    ];
    for f in &facts {
        for avail in 0..40 {
            if let Some(t) = derived(f, 1920, 1080, avail) {
                assert!(t.chars().count() <= avail, "derived({f:?}, {avail}) = {t:?} overran");
            }
        }
    }
}

#[test]
fn partial_facts_degrade_one_segment_at_a_time() {
    let f = ProcFacts { cwd: None, name: Some("vim".into()) };
    assert_eq!(derived(&f, 80, 24, 40).unwrap(), "vim — 80x24");
    let f = ProcFacts { cwd: Some("/tmp".into()), name: None };
    assert_eq!(derived(&f, 80, 24, 40).unwrap(), "tmp — 80x24");
    let f = ProcFacts::default();
    assert_eq!(derived(&f, 80, 24, 40), None, "nothing known: the caller keeps its own label");
}

#[test]
fn an_unambiguous_chain_is_followed_to_its_end() {
    assert_eq!(describing_pid(1, |_| vec![]), 1, "a shell at a prompt is the shell");
    assert_eq!(describing_pid(1, |p| if p == 1 { vec![2] } else { vec![] }), 2);
    let kids = |p: u32| match p {
        1 => vec![2],
        2 => vec![3],
        _ => vec![],
    };
    assert_eq!(describing_pid(1, kids), 3);
}

#[test]
fn a_fork_stops_the_walk_at_the_parent() {
    let kids = |p: u32| match p {
        1 => vec![2],
        2 => vec![3, 4, 5],
        _ => vec![],
    };
    assert_eq!(describing_pid(1, kids), 2, "cargo, not one of its rustc children");
}

#[test]
fn cycles_and_deep_chains_terminate() {
    let kids = |p: u32| match p {
        1 => vec![2],
        2 => vec![1],
        _ => vec![],
    };
    assert_eq!(describing_pid(1, kids), 2);
    assert_eq!(describing_pid(7, |_| vec![7]), 7, "a self-parenting pid");
    let mut calls = 0usize;
    describing_pid(0, |p| {
        calls += 1;
        vec![p + 1]
    });
    assert!(calls <= MAX_DEPTH, "walked {calls} levels, cap is {MAX_DEPTH}");
}

#[test]
fn a_deep_chain_is_left_at_the_cap() {
    assert_eq!(describing_pid(0, |p| vec![p + 1]), 8);
}

#[test]
fn sanitising_twice_changes_nothing() {
    for raw in ["a\nb", "\u{202A}x", "plain", "漢\u{85}字"] {
        let once = sanitize(raw).into_owned();
        assert_eq!(sanitize(&once), once.as_str());
    }
    assert_eq!(sanitize("漢\u{85}字"), "漢字");
}

#[test]
fn slashes_alone_are_the_root() {
    assert_eq!(dir_label("///"), Some("/".into()));
    assert_eq!(dir_label("a"), Some("a".into()));
    assert_eq!(dir_label("a//"), Some("a".into()));
}

#[test]
fn an_empty_program_name_is_none() {
    let f = ProcFacts { cwd: None, name: Some(String::new()) };
    assert_eq!(derived(&f, 80, 24, 40), None);
}

#[test]
fn a_join_is_as_wide_as_its_parts_and_separators() {
    let parts = |words: &[&str]| -> Vec<String> { words.iter().map(|w| w.to_string()).collect() };
    assert_eq!(join_len(&parts(&[])), 0);
    assert_eq!(join_len(&parts(&["src"])), 3);
    assert_eq!(join_len(&parts(&["", "é"])), 4);
    assert_eq!(join_len(&parts(&["a", "b", "c", "d"])), 13);
}

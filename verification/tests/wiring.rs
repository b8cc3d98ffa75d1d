use std::cell::RefCell;

use rt::geometry::{Area, PaneArea, Point};
use rt::patch_bay::{
    ensure_jacks_dir, find_fault, jack_at, jack_names, jacks_dir_name, jacks_env, jacks_owner,
    sweep_bases, sweeps, DirError, DirFacts, MakeError, PatchBay, Stream, Wire, PUMP_BUDGET,
};
use rt::proc_liveness::ESRCH;
use rt::tick::forget_pane;

fn bay(jacked: &[u64]) -> PatchBay {
    let mut b = PatchBay::new();
    b.jacked = jacked.to_vec();
    b
}

fn ends(b: &PatchBay) -> Vec<(u64, u64)> {
    b.wires.iter().map(|w| (w.src, w.dst)).collect()
}

#[test]
fn a_wire_joins_two_panes_with_jacks() {
    let mut b = bay(&[1, 2]);
    b.connect_wire(1, Stream::Stdout, 2);
    b.connect_wire(1, Stream::Stdout, 1);
    b.connect_wire(1, Stream::Stdout, 3);
    assert_eq!(b.wires, vec![Wire { src: 1, stream: Stream::Stdout, dst: 2, moved: 0 }]);
}

#[test]
fn the_gesture_arms_and_then_completes() {
    let mut b = bay(&[1, 2]);
    b.wire_gesture(1, Stream::Stderr);
    assert_eq!(b.armed, Some((1, Stream::Stderr)));
    b.wire_gesture(2, Stream::Stdout);
    assert_eq!(b.armed, None);
    assert_eq!(b.wires, vec![Wire { src: 1, stream: Stream::Stderr, dst: 2, moved: 0 }]);
}

#[test]
fn a_pane_that_closes_takes_its_wires_with_it() {
    let mut b = bay(&[1, 2, 3]);
    b.connect_wire(1, Stream::Stdout, 2);
    b.connect_wire(2, Stream::Stdout, 3);
    b.connect_wire(3, Stream::Stdout, 1);
    b.wire_gesture(2, Stream::Stdout);
    forget_pane(&mut b, 2);
    assert_eq!(ends(&b), vec![(3, 1)]);
    assert_eq!(b.jacked, vec![1, 3]);
    assert_eq!(b.armed, None);
    b.unwire(1);
    assert!(b.wires.is_empty());
    assert_eq!(b.jacked, vec![1, 3], "a pane without wires keeps its jacks");
}

#[test]
fn bytes_go_to_every_wire_and_are_counted() {
    let mut b = bay(&[1, 2, 3]);
    b.connect_wire(1, Stream::Stdout, 2);
    b.connect_wire(1, Stream::Stdout, 3);
    b.connect_wire(1, Stream::Stderr, 3);
    let queue = RefCell::new(vec![b"lo".to_vec(), b"hel".to_vec()]);
    let sent = RefCell::new(Vec::new());
    let mut read = |pane: u64, stream: Stream, _: usize| {
        if pane == 1 && stream == Stream::Stdout {
            queue.borrow_mut().pop()
        } else {
            None
        }
    };
    let mut write = |pane: u64, chunk: &Vec<u8>| {
        sent.borrow_mut().push((pane, chunk.clone()));
        if pane == 3 {
            None
        } else {
            Some(chunk.len())
        }
    };
    assert!(b.pump_wires(&vec![1, 2, 3], &mut read, &mut write));
    assert_eq!(b.wires.iter().map(|w| w.moved).collect::<Vec<_>>(), vec![5, 0, 0]);
    assert_eq!(
        *sent.borrow(),
        vec![
            (2, b"hel".to_vec()),
            (3, b"hel".to_vec()),
            (2, b"lo".to_vec()),
            (3, b"lo".to_vec())
        ]
    );
    assert!(!b.pump_wires(&vec![1, 2, 3], &mut read, &mut write), "nothing came");
}

#[test]
fn a_pane_that_writes_without_end_is_left() {
    let mut b = bay(&[1]);
    let read_bytes = RefCell::new(0);
    let mut read = |_: u64, _: Stream, most: usize| {
        *read_bytes.borrow_mut() += most;
        Some(vec![0; most])
    };
    let mut write = |_: u64, _: &Vec<u8>| -> Option<usize> { panic!("there is no wire") };
    assert!(b.pump_wires(&vec![1], &mut read, &mut write), "drained all the same");
    assert_eq!(*read_bytes.borrow(), PUMP_BUDGET);
}

#[test]
fn jacks_are_on_the_right_edge() {
    let full = Area { x: 0, y: 0, w: 100 * 64, h: 300 * 64 };
    let panes = vec![PaneArea { id: 7, full, content: full, columned: false }];
    let at = |x: i64, y: i64| jack_at(&panes, Point { x: x * 64, y: y * 64 });
    assert_eq!(at(100, 100), Some((7, Stream::Stdout)));
    assert_eq!(at(100, 200), Some((7, Stream::Stderr)));
    assert_eq!(at(112, 100), Some((7, Stream::Stdout)), "twelve pixels away");
    assert_eq!(at(113, 100), None);
    assert_eq!(at(0, 100), None);
}

#[test]
fn a_directory_names_its_owner() {
    for pid in [0u32, 7, 4242, u32::MAX] {
        assert_eq!(jacks_owner(&jacks_dir_name(pid)), Some(pid));
    }
    assert_eq!(jacks_dir_name(4242), "rt-4242");
    assert_eq!(jacks_owner("rt-"), None);
    assert_eq!(jacks_owner("rt-12x"), None);
    assert_eq!(jacks_owner("xrt-12"), None);
    assert_eq!(jacks_owner("rt-4294967296"), None, "no such process number");
}

#[test]
fn the_jacks_are_told_to_the_shell() {
    let (out, err, input) = jack_names(12);
    assert_eq!((out.as_str(), err.as_str(), input.as_str()), ("12.out", "12.err", "12.in"));
    let env = jacks_env("/a/12.out", "/a/12.err", "/a/12.in");
    let want = [("RT_OUT", "/a/12.out"), ("RT_ERR", "/a/12.err"), ("RT_IN", "/a/12.in")];
    for (have, want) in env.iter().zip(want) {
        assert_eq!((have.0.as_str(), have.1.as_str()), want);
    }
    assert_eq!(env.len(), 3);
}

#[test]
fn only_what_a_dead_process_left_is_swept() {
    let gone = |_: i32| Err(Some(ESRCH));
    let alive = |_: i32| Ok(());
    assert!(sweeps("rt-77", 1, gone));
    assert!(!sweeps("rt-77", 1, alive));
    assert!(!sweeps("rt-77", 77, gone), "our own");
    assert!(!sweeps("rt-0", 1, gone), "no process");
    assert!(!sweeps("other", 1, gone));
    assert_eq!(sweep_bases("/run/user/1", "/tmp"), vec!["/run/user/1", "/tmp"]);
    assert_eq!(sweep_bases("/tmp", "/tmp"), vec!["/tmp"]);
}

const OURS: DirFacts = DirFacts { is_dir: true, owner: 1000, mode: 0o40700 };

#[test]
fn only_our_own_closed_directory_will_do() {
    assert_eq!(find_fault(OURS, 1000), None);
    assert_eq!(
        find_fault(DirFacts { is_dir: false, ..OURS }, 1000),
        Some(DirError::NotADirectory)
    );
    assert_eq!(find_fault(OURS, 1001), Some(DirError::NotOurs));
    for mode in [0o40701, 0o40710, 0o40777] {
        assert_eq!(find_fault(DirFacts { mode, ..OURS }, 1000), Some(DirError::Exposed));
    }
}

#[test]
fn a_directory_is_made_afresh_or_not_at_all() {
    let never = || -> bool { panic!("cleared") };
    let unlooked = || -> Option<DirFacts> { panic!("looked") };
    let unmade = || -> Result<(), MakeError> { panic!("made again") };
    let taken = || Err(MakeError::Taken);
    assert_eq!(ensure_jacks_dir(1000, || Ok(()), unlooked, never, unmade), Ok(()));
    assert_eq!(
        ensure_jacks_dir(1000, || Err(MakeError::Other), unlooked, never, unmade),
        Err(DirError::Make)
    );
    assert_eq!(ensure_jacks_dir(1000, taken, || None, never, unmade), Err(DirError::Look));
    assert_eq!(
        ensure_jacks_dir(7, taken, || Some(OURS), never, unmade),
        Err(DirError::NotOurs)
    );
    assert_eq!(
        ensure_jacks_dir(1000, taken, || Some(OURS), || false, unmade),
        Err(DirError::Clear)
    );
    assert_eq!(
        ensure_jacks_dir(1000, taken, || Some(OURS), || true, taken),
        Err(DirError::Replaced)
    );
    assert_eq!(ensure_jacks_dir(1000, taken, || Some(OURS), || true, || Ok(())), Ok(()));
}

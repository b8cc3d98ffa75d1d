//! What wires are for: bytes go from the stream that a wire leaves to the pane that it leads
//! to, and to no other; and what holds of the directory that the jacks live in.
use vstd::prelude::*;
use vstd::string::*;
use crate::geometry::{PaneArea, Point};
use crate::patch_bay::{
    all_came, ensure_jacks_dir, find_fault, jack_among, jack_at, jack_names, jack_pane, jack_stream,
    jacks_dir_name, jacks_env, jacks_owner, leaves, next_jack, pumped, sweep_bases, sweeps, transfer_fits,
    wires_after, DirAnswers, DirError, DirFacts, MakeError, PatchBay, Stream, Transfer, Wire,
};
use crate::text::{numeral, views};

verus! {

broadcast use vstd::string::group_string_axioms;

/// A wire joins two different panes that both have jacks, behind all others and with nothing
/// carried yet; where it cannot, nothing changes.
pub proof fn a_wire_joins_two_panes_with_jacks(bay: &mut PatchBay, src: u64, stream: Stream, dst: u64)
    requires
        call_ensures(PatchBay::connect_wire, (bay, src, stream, dst), ()),
    ensures
        ({
            let fits = src != dst && old(bay).jacked@.contains(src) && old(bay).jacked@.contains(dst);
            let a = old(bay).wires@;
            let b = final(bay).wires@;
            &&& !fits ==> b == a
            &&& fits ==> b == a.push(Wire { src, stream, dst, moved: 0 })
            &&& final(bay).armed == old(bay).armed && final(bay).jacked == old(bay).jacked
        }),
{
}

/// The first wiring gesture begins a wire, and the second ends it where it then is, with the
/// stream of the first.
pub proof fn two_gestures_make_a_wire(
    first: &mut PatchBay,
    second: &mut PatchBay,
    from: u64,
    stream: Stream,
    to: u64,
    other: Stream,
)
    requires
        call_ensures(PatchBay::wire_gesture, (first, from, stream), ()),
        *old(second) == *final(first),
        call_ensures(PatchBay::wire_gesture, (second, to, other), ()),
        old(first).armed is None,
        from != to,
        old(first).jacked@.contains(from),
        old(first).jacked@.contains(to),
    ensures
        final(first).armed == Some((from, stream)),
        final(first).wires@ == old(first).wires@,
        final(second).armed is None,
        final(second).wires@ == old(first).wires@.push(Wire { src: from, stream, dst: to, moved: 0 }),
{
}

proof fn lemma_moves<R: FnMut(u64, Stream, usize) -> Option<Vec<u8>>, W: FnMut(u64, &Vec<u8>) -> Option<usize>>(
    t: Seq<Transfer>,
    sources: Seq<u64>,
    wires: Seq<Wire>,
    read: R,
    write: W,
    k: int,
)
    requires
        pumped(t, sources, wires, read, write),
        0 <= k < wires.len(),
    ensures
        ({
            let after = wires_after(wires, sources, t);
            &&& after.len() == wires.len()
            &&& after[k].src == wires[k].src && after[k].stream == wires[k].stream && after[k].dst == wires[k].dst
            &&& after[k].moved >= wires[k].moved
            &&& after[k] != wires[k] ==> carried(read, write, wires[k])
        }),
    decreases t.len(),
{
    if t.len() > 0 {
        let rest = t.drop_last();
        let last = t.len() - 1;
        assert(pumped(rest, sources, wires, read, write)) by {
            assert forall|i: int| 0 <= i < rest.len() implies #[trigger] transfer_fits(
                rest,
                i,
                sources,
                wires,
                read,
                write,
            ) by {
                assert(transfer_fits(t, i, sources, wires, read, write));
                assert(rest.take(i) =~= t.take(i));
                assert(rest[i] == t[i]);
            }
        }
        lemma_moves(rest, sources, wires, read, write, k);
        let before = wires_after(wires, sources, rest);
        let after = wires_after(wires, sources, t);
        assert(transfer_fits(t, last, sources, wires, read, write));
        let x = t[last];
        if after[k] != before[k] {
            let chunk = x.got->0;
            let took = x.taken[k]->0;
            assert(leaves(wires[k], sources, x.jack));
            assert(call_ensures(write, (wires[k].dst, &x.got->0), x.taken[k]));
            let cap = crate::patch_bay::read_cap(t.take(last)) as usize;
            assert(call_ensures(read, (wires[k].src, wires[k].stream, cap), x.got));
            assert(x.got == Some(chunk));
            assert(x.taken[k] == Some(took));
            assert(carried_by(read, write, wires[k], cap, chunk, took));
        }
    }
}

/// Whether a chunk came out of the stream that a wire leaves, and went into the pane that it
/// leads to.
pub open spec fn carried_by<R: FnMut(u64, Stream, usize) -> Option<Vec<u8>>, W: FnMut(u64, &Vec<u8>) -> Option<usize>>(
    read: R,
    write: W,
    w: Wire,
    cap: usize,
    chunk: Vec<u8>,
    took: usize,
) -> bool {
    call_ensures(read, (w.src, w.stream, cap), Some(chunk)) && call_ensures(write, (w.dst, &chunk), Some(took))
}

/// Whether any chunk did.
pub open spec fn carried<R: FnMut(u64, Stream, usize) -> Option<Vec<u8>>, W: FnMut(u64, &Vec<u8>) -> Option<usize>>(
    read: R,
    write: W,
    w: Wire,
) -> bool {
    exists|cap: usize, chunk: Vec<u8>, took: usize| #[trigger] carried_by(read, write, w, cap, chunk, took)
}

/// A wire carries only what came out of the stream that it leaves, and only to the pane that
/// it leads to. No wire changes its ends, and none carries less than it did.
pub proof fn a_wire_carries_from_its_stream_to_its_pane<
    R: FnMut(u64, Stream, usize) -> Option<Vec<u8>>,
    W: FnMut(u64, &Vec<u8>) -> Option<usize>,
>(bay: &mut PatchBay, sources: &Vec<u64>, read: &mut R, write: &mut W, r: bool, k: int)
    requires
        call_ensures(PatchBay::pump_wires::<R, W>, (bay, sources, read, write), r),
        0 <= k < old(bay).wires@.len(),
    ensures
        ({
            let a = old(bay).wires@[k];
            let b = final(bay).wires@[k];
            &&& final(bay).wires@.len() == old(bay).wires@.len()
            &&& b.src == a.src && b.stream == a.stream && b.dst == a.dst
            &&& b.moved >= a.moved
            &&& b != a ==> carried(*old(read), *old(write), a)
        }),
        final(bay).jacked == old(bay).jacked,
        final(bay).armed == old(bay).armed,
{
    let t = choose|t: Seq<Transfer>| #[trigger]
        pumped(t, sources@, old(bay).wires@, *old(read), *old(write)) && final(bay).wires@ == wires_after(
            old(bay).wires@,
            sources@,
            t,
        ) && all_came(t) <= 524_288 && (next_jack(t) == 2 * sources@.len() || all_came(t) == 524_288) && r == (
        all_came(t) > 0);
    lemma_moves(t, sources@, old(bay).wires@, *old(read), *old(write), k);
}

proof fn lemma_all_asked<R: FnMut(u64, Stream, usize) -> Option<Vec<u8>>, W: FnMut(u64, &Vec<u8>) -> Option<usize>>(
    t: Seq<Transfer>,
    sources: Seq<u64>,
    wires: Seq<Wire>,
    read: R,
    write: W,
    jack: int,
)
    requires
        pumped(t, sources, wires, read, write),
        0 <= jack < next_jack(t),
    ensures
        exists|n: usize| #[trigger]
            call_ensures(read, (jack_pane(sources, jack), jack_stream(jack), n), None),
    decreases t.len(),
{
    let rest = t.drop_last();
    let last = t.len() - 1;
    assert(transfer_fits(t, last, sources, wires, read, write));
    assert(t.take(last) =~= rest);
    if jack < next_jack(rest) {
        assert(pumped(rest, sources, wires, read, write)) by {
            assert forall|i: int| 0 <= i < rest.len() implies #[trigger] transfer_fits(
                rest,
                i,
                sources,
                wires,
                read,
                write,
            ) by {
                assert(transfer_fits(t, i, sources, wires, read, write));
                assert(rest.take(i) =~= t.take(i));
                assert(rest[i] == t[i]);
            }
        }
        lemma_all_asked(rest, sources, wires, read, write, jack);
    } else {
        assert(t.last().got is None);
        assert(jack == t.last().jack);
        let n = crate::patch_bay::read_cap(rest) as usize;
        assert(call_ensures(read, (jack_pane(sources, jack), jack_stream(jack), n), t[last].got));
        assert(t[last].got == None::<Vec<u8>>);
    }
}

/// Where nothing comes, every pane was asked for both of its streams, and no wire changes.
pub proof fn no_jack_is_left_out<
    R: FnMut(u64, Stream, usize) -> Option<Vec<u8>>,
    W: FnMut(u64, &Vec<u8>) -> Option<usize>,
>(bay: &mut PatchBay, sources: &Vec<u64>, read: &mut R, write: &mut W, i: int, stream: Stream)
    requires
        call_ensures(PatchBay::pump_wires::<R, W>, (bay, sources, read, write), false),
        0 <= i < sources@.len(),
    ensures
        exists|n: usize| #[trigger] call_ensures(*old(read), (sources@[i], stream, n), None),
{
    let t = choose|t: Seq<Transfer>| #[trigger]
        pumped(t, sources@, old(bay).wires@, *old(read), *old(write)) && final(bay).wires@ == wires_after(
            old(bay).wires@,
            sources@,
            t,
        ) && all_came(t) <= 524_288 && (next_jack(t) == 2 * sources@.len() || all_came(t) == 524_288) && false == (
        all_came(t) > 0);
    let jack = if stream == Stream::Stdout { 2 * i } else { 2 * i + 1 };
    lemma_all_asked(t, sources@, old(bay).wires@, *old(read), *old(write), jack);
    assert(jack_pane(sources@, jack) == sources@[i]);
    assert(jack_stream(jack) == stream);
    let n = choose|n: usize| #[trigger]
        call_ensures(*old(read), (jack_pane(sources@, jack), jack_stream(jack), n), None);
    assert(call_ensures(*old(read), (sources@[i], stream, n), None));
}

/// Whether a point is within twelve pixels of a place on a pane's right edge, so many thirds
/// of the way down.
pub open spec fn reaches(pane: PaneArea, p: Point, thirds: int) -> bool {
    let dx = 3 * p.x - 3 * (pane.full.x + pane.full.w);
    let dy = 3 * p.y - (3 * pane.full.y + thirds * pane.full.h);
    dx * dx + dy * dy <= 2_304 * 2_304
}

proof fn lemma_jack(panes: Seq<PaneArea>, p: Point)
    ensures
        match jack_among(panes, p) {
            Some((id, stream)) => exists|i: int|
                0 <= i < panes.len() && (#[trigger] panes[i]).id == id && (if stream == Stream::Stdout {
                    reaches(panes[i], p, 1)
                } else {
                    reaches(panes[i], p, 2) && !reaches(panes[i], p, 1)
                }) && forall|k: int|
                    0 <= k < i ==> !reaches(#[trigger] panes[k], p, 1) && !reaches(panes[k], p, 2),
            None => forall|k: int|
                0 <= k < panes.len() ==> !reaches(#[trigger] panes[k], p, 1) && !reaches(panes[k], p, 2),
        },
    decreases panes.len(),
{
    if panes.len() > 0 {
        let first = panes[0];
        assert forall|n: int| #[trigger] reaches(first, p, n) == crate::patch_bay::grabs(first.full, p, n) by {
            let dx = 3 * (p.x - (first.full.x + first.full.w));
            let dy = 3 * (p.y - first.full.y) - n * first.full.h;
            assert(dx == 3 * p.x - 3 * (first.full.x + first.full.w));
            assert(dy == 3 * p.y - (3 * first.full.y + n * first.full.h));
        }
        let rest = panes.skip(1);
        lemma_jack(rest, p);
        if !reaches(first, p, 1) && !reaches(first, p, 2) {
            match jack_among(rest, p) {
                Some((id, stream)) => {
                    let i = choose|i: int|
                        0 <= i < rest.len() && (#[trigger] rest[i]).id == id && (if stream == Stream::Stdout {
                            reaches(rest[i], p, 1)
                        } else {
                            reaches(rest[i], p, 2) && !reaches(rest[i], p, 1)
                        }) && forall|k: int|
                            0 <= k < i ==> !reaches(#[trigger] rest[k], p, 1) && !reaches(rest[k], p, 2);
                    assert(panes[i + 1] == rest[i]);
                    assert forall|k: int| 0 <= k < i + 1 implies !reaches(#[trigger] panes[k], p, 1) && !reaches(
                        panes[k],
                        p,
                        2,
                    ) by {
                        if k > 0 {
                            assert(rest[k - 1] == panes[k]);
                        }
                    }
                },
                None => {
                    assert forall|k: int| 0 <= k < panes.len() implies !reaches(#[trigger] panes[k], p, 1)
                        && !reaches(panes[k], p, 2) by {
                        if k > 0 {
                            assert(rest[k - 1] == panes[k]);
                        }
                    }
                },
            }
        } else {
            assert(panes[0] == first);
        }
    }
}

/// The jack of a pane's output is on its right edge a third of the way down, and that of its
/// errors two thirds; either is grabbed from within twelve pixels.
pub proof fn a_jack_is_grabbed_where_it_is(panes: &Vec<PaneArea>, p: Point, r: Option<(u64, Stream)>)
    requires
        call_ensures(jack_at, (panes, p), r),
    ensures
        match r {
            Some((id, stream)) => exists|i: int|
                0 <= i < panes@.len() && (#[trigger] panes@[i]).id == id && (if stream == Stream::Stdout {
                    reaches(panes@[i], p, 1)
                } else {
                    reaches(panes@[i], p, 2) && !reaches(panes@[i], p, 1)
                }) && forall|k: int|
                    0 <= k < i ==> !reaches(#[trigger] panes@[k], p, 1) && !reaches(panes@[k], p, 2),
            None => forall|k: int|
                0 <= k < panes@.len() ==> !reaches(#[trigger] panes@[k], p, 1) && !reaches(panes@[k], p, 2),
        },
{
    lemma_jack(panes@, p);
}

/// Jacks are named after their pane and what they are for, and a shell is told of each by
/// its own name.
pub proof fn jacks_are_named_after_their_pane(
    pane: u64,
    names: (String, String, String),
    out: &str,
    err: &str,
    input: &str,
    env: Vec<(String, String)>,
)
    requires
        call_ensures(jack_names, (pane,), names),
        call_ensures(jacks_env, (out, err, input), env),
    ensures
        ({
            let (a, b, c) = names;
            let n = numeral(pane as nat);
            &&& a@ == n + seq!['.', 'o', 'u', 't']
            &&& b@ == n + seq!['.', 'e', 'r', 'r']
            &&& c@ == n + seq!['.', 'i', 'n']
        }),
        env@.len() == 3,
        ({
            let (name, path) = env@[0];
            name@ == seq!['R', 'T', '_', 'O', 'U', 'T'] && path@ == out@
        }),
        ({
            let (name, path) = env@[1];
            name@ == seq!['R', 'T', '_', 'E', 'R', 'R'] && path@ == err@
        }),
        ({
            let (name, path) = env@[2];
            name@ == seq!['R', 'T', '_', 'I', 'N'] && path@ == input@
        }),
{
    reveal_strlit(".out");
    reveal_strlit(".err");
    reveal_strlit(".in");
    reveal_strlit("RT_OUT");
    reveal_strlit("RT_ERR");
    reveal_strlit("RT_IN");
    assert(".out"@ =~= seq!['.', 'o', 'u', 't']);
    assert(".err"@ =~= seq!['.', 'e', 'r', 'r']);
    assert(".in"@ =~= seq!['.', 'i', 'n']);
    assert("RT_OUT"@ =~= seq!['R', 'T', '_', 'O', 'U', 'T']);
    assert("RT_ERR"@ =~= seq!['R', 'T', '_', 'E', 'R', 'R']);
    assert("RT_IN"@ =~= seq!['R', 'T', '_', 'I', 'N']);
}

/// The directory of a process' jacks is named after the process, and no name that does not
/// begin so is taken for one.
pub proof fn a_jacks_directory_names_its_process(pid: u32, r: String, name: &str, owner: Option<u32>)
    requires
        call_ensures(jacks_dir_name, (pid,), r),
        call_ensures(jacks_owner, (name,), owner),
    ensures
        r@ == seq!['r', 't', '-'] + numeral(pid as nat),
        owner is Some ==> name@.len() > 3 && name@.take(3) == seq!['r', 't', '-'],
        name@ == r@ ==> owner == Some(pid),
{
    reveal_strlit("rt-");
    assert("rt-"@ =~= seq!['r', 't', '-']);
    if owner is Some {
        assert(name@.take(3) =~= seq!['r', 't', '-']);
        if name@.len() == 3 {
            assert(name@.skip(3) =~= Seq::empty());
        }
    }
    if name@ == r@ {
        crate::patch_bay::a_directory_names_its_owner(pid);
    }
}

/// The sweep removes only what a process that is gone has left: never this process' own
/// directory, never one that is not named so, and never where the kernel says anything but
/// that there is no such process.
pub proof fn the_sweep_spares_the_living<K: FnOnce(i32) -> Result<(), Option<i32>>>(
    name: &str,
    me: u32,
    kill: K,
    r: bool,
    owner: Option<u32>,
)
    requires
        call_ensures(sweeps::<K>, (name, me, kill), r),
        call_ensures(jacks_owner, (name,), owner),
    ensures
        r ==> owner is Some && owner->0 != me && 0 < owner->0 <= 0x7fff_ffff && call_ensures(
            kill,
            (owner->0 as i32,),
            Err(Some(3i32)),
        ),
        owner is Some && owner->0 != me && 0 < owner->0 <= 0x7fff_ffff && !r ==> exists|a: Result<
            (),
            Option<i32>,
        >| #[trigger] call_ensures(kill, (owner->0 as i32,), a) && a != Err::<(), Option<i32>>(Some(3i32)),
{
}

/// The directories that are swept are the session's and the one for temporary files, each
/// once.
pub proof fn both_directories_are_swept(base: &str, temporary: &str, r: Vec<String>)
    requires
        call_ensures(sweep_bases, (base, temporary), r),
    ensures
        r@.len() == (if base@ == temporary@ { 1int } else { 2 }),
        r@[0]@ == base@,
        r@.len() == 2 ==> r@[1]@ == temporary@,
{
    assert(views(r@).len() == r@.len());
    assert(views(r@)[0] == r@[0]@);
    if base@ != temporary@ {
        assert(views(r@)[1] == r@[1]@);
    }
}

/// A directory that is there already will do only where it is a real one, belongs to this
/// user, and is closed to everyone else.
pub proof fn only_a_private_directory_will_do(f: DirFacts, me: u32, r: Option<DirError>)
    requires
        call_ensures(find_fault, (f, me), r),
    ensures
        r is None <==> f.is_dir && f.owner == me && f.mode % 64 == 0,
        r == Some(DirError::NotADirectory) <==> !f.is_dir,
        r == Some(DirError::NotOurs) <==> f.is_dir && f.owner != me,
        r == Some(DirError::Exposed) <==> f.is_dir && f.owner == me && f.mode % 64 != 0,
{
}

/// Whether an attempt to make a directory can have succeeded.
pub open spec fn makes<M: FnOnce() -> Result<(), MakeError>>(make: M) -> bool {
    exists|a: Result<(), MakeError>| #[trigger] call_ensures(make, (), a) && a is Ok
}

/// The directory for the jacks was made by this process: at the first try, or once more after
/// clearing away one of its own that others could not get at. Each failure has its cause.
pub proof fn a_jacks_directory_is_made_afresh<
    M: FnOnce() -> Result<(), MakeError>,
    L: FnOnce() -> Option<DirFacts>,
    C: FnOnce() -> bool,
    N: FnOnce() -> Result<(), MakeError>,
>(me: u32, make: M, look: L, clear: C, remake: N, r: Result<(), DirError>)
    requires
        call_ensures(ensure_jacks_dir::<M, L, C, N>, (me, make, look, clear, remake), r),
    ensures
        r is Ok ==> makes(make) || (call_ensures(make, (), Err(MakeError::Taken)) && call_ensures(clear, (), true)
            && makes(remake) && exists|f: DirFacts| #[trigger]
            call_ensures(look, (), Some(f)) && f.is_dir && f.owner == me && f.mode % 64 == 0),
        r == Err::<(), DirError>(DirError::Make) ==> call_ensures(make, (), Err(MakeError::Other)),
        r is Err && r->Err_0 != DirError::Make ==> call_ensures(make, (), Err(MakeError::Taken)),
        r == Err::<(), DirError>(DirError::Look) ==> call_ensures(look, (), None),
        r == Err::<(), DirError>(DirError::Clear) ==> call_ensures(clear, (), false),
        r == Err::<(), DirError>(DirError::Replaced) ==> call_ensures(clear, (), true),
{
    let a = choose|a: DirAnswers| #[trigger]
        crate::patch_bay::answered(a, me, make, look, clear, remake) && r == crate::patch_bay::dir_outcome(a, me);
    assert(call_ensures(make, (), a.made));
    if a.made is Err && r is Ok {
        assert(call_ensures(remake, (), a.again));
    }
}

} // verus!

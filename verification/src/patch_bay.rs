//! The patch bay: pipes beside the terminal, from the programs of one pane to those of
//! another.
//!
//! Each pane has three jacks, fifos in a private directory of this process. Bytes from
//! an output jack go to the input jack of every pane it is wired to, as far as they are
//! taken: the wiring is best effort and never blocks.
use vstd::prelude::*;
use vstd::string::*;
use crate::geometry::{Area, PaneArea, Point, FAR, SUB};
use crate::proc_info::is_pid;
use crate::proc_liveness::{answer_liveness, should_reclaim_pid, Liveness};
use crate::text::{
    begins_with, char_vec, numeral, parse_whole, push_number, same_text, views, whole_number,
};

verus! {

broadcast use vstd::string::group_string_axioms;

/// Which of a pane's output streams a wire carries.
#[derive(Debug, Clone, Copy, PartialEq, Eq, Structural)]
pub enum Stream {
    Stdout,
    Stderr,
}

/// A live connection: what comes out of `src` on `stream` goes into `dst`.
#[derive(Debug, Clone, Copy, PartialEq, Eq, Structural)]
pub struct Wire {
    pub src: u64,
    pub stream: Stream,
    pub dst: u64,
    /// Bytes carried since they were last counted.
    pub moved: u32,
}

/// The wires, the panes that have jacks, and the jack that a wire is being pulled from.
#[derive(Debug)]
pub struct PatchBay {
    pub wires: Vec<Wire>,
    pub jacked: Vec<u64>,
    pub armed: Option<(u64, Stream)>,
}

/// A new wire.
pub open spec fn fresh_wire(src: u64, stream: Stream, dst: u64) -> Wire {
    Wire { src, stream, dst, moved: 0 }
}

fn has(v: &Vec<u64>, x: u64) -> (r: bool)
    ensures
        r == v@.contains(x),
{
    for i in 0..v.len()
        invariant
            forall|k: int| 0 <= k < i ==> v@[k] != x,
    {
        if v[i] == x {
            return true;
        }
    }
    false
}

impl PatchBay {
    /// What holds of every patch bay: no wire leads back into the pane it comes from.
    pub open spec fn wf(&self) -> bool {
        forall|i: int| 0 <= i < self.wires@.len() ==> (#[trigger] self.wires@[i]).src != self.wires@[i].dst
    }

    /// Whether a wire can join two panes: two different ones, both with jacks.
    pub open spec fn joinable(&self, src: u64, dst: u64) -> bool {
        src != dst && self.jacked@.contains(src) && self.jacked@.contains(dst)
    }

    /// A patch bay without wires.
    pub fn new() -> (r: PatchBay)
        ensures
            r.wires@.len() == 0,
            r.jacked@.len() == 0,
            r.armed is None,
            r.wf(),
    {
        PatchBay { wires: Vec::new(), jacked: Vec::new(), armed: None }
    }

    /// Add a wire, if both panes have jacks and it is no loop.
    pub fn connect_wire(&mut self, src: u64, stream: Stream, dst: u64)
        requires
            old(self).wf(),
        ensures
            final(self).wf(),
            final(self).armed == old(self).armed,
            final(self).jacked == old(self).jacked,
            final(self).wires@ == (if old(self).joinable(src, dst) {
                old(self).wires@.push(fresh_wire(src, stream, dst))
            } else {
                old(self).wires@
            }),
    {
        if src != dst && has(&self.jacked, src) && has(&self.jacked, dst) {
            self.wires.push(Wire { src, stream, dst, moved: 0 });
        }
    }

    /// The wiring gesture: with nothing armed it arms the focused pane's jack; with
    /// something armed it completes the wire to the focused pane.
    pub fn wire_gesture(&mut self, focus: u64, stream: Stream)
        requires
            old(self).wf(),
        ensures
            final(self).wf(),
            final(self).jacked == old(self).jacked,
            match old(self).armed {
                None => final(self).armed == Some((focus, stream)) && final(self).wires@
                    == old(self).wires@,
                Some((src, s)) => final(self).armed is None && final(self).wires@ == (if old(
                    self,
                ).joinable(src, focus) {
                    old(self).wires@.push(fresh_wire(src, s, focus))
                } else {
                    old(self).wires@
                }),
            },
    {
        match self.armed {
            None => {
                self.armed = Some((focus, stream));
            },
            Some((src, s)) => {
                self.armed = None;
                self.connect_wire(src, s, focus);
            },
        }
    }

    /// Take out every wire from or to a pane.
    pub fn unwire(&mut self, pane: u64)
        requires
            old(self).wf(),
        ensures
            final(self).wf(),
            final(self).armed == old(self).armed,
            final(self).jacked == old(self).jacked,
            final(self).wires@ == old(self).wires@.filter(|w: Wire| w.src != pane && w.dst != pane),
    {
        let ghost keep = |w: Wire| w.src != pane && w.dst != pane;
        let ghost before = self.wires@;
        let mut kept: Vec<Wire> = Vec::new();
        let mut i: usize = 0;
        assert(before.take(0) =~= Seq::empty());
        proof {
            reveal(Seq::filter);
        }
        while i < self.wires.len()
            invariant
                i <= self.wires@.len(),
                self.wires@ == before,
                self.armed == old(self).armed,
                self.jacked == old(self).jacked,
                keep == (|w: Wire| w.src != pane && w.dst != pane),
                kept@ == before.take(i as int).filter(keep),
                forall|k: int| 0 <= k < before.len() ==> (#[trigger] before[k]).src != before[k].dst,
                forall|k: int| 0 <= k < kept@.len() ==> (#[trigger] kept@[k]).src != kept@[k].dst,
            decreases self.wires@.len() - i,
        {
            let w: Wire = self.wires[i];
            proof {
                reveal(Seq::filter);
                assert(before.take(i + 1).drop_last() =~= before.take(i as int));
                assert(before.take(i + 1).last() == w);
            }
            if w.src != pane && w.dst != pane {
                kept.push(w);
            }
            i = i + 1;
        }
        assert(before.take(i as int) =~= before);
        self.wires = kept;
    }
}

/// How many bytes one pass over the jacks may move, so that a pane that writes without
/// end cannot keep the others waiting.
pub const PUMP_BUDGET: usize = 524_288;

/// How many bytes are read at a time.
pub const CHUNK: usize = 8_192;

/// One read: which jack (its place in the order of all jacks), what came, and what each
/// wire that leaves it took.
pub struct Transfer {
    pub jack: int,
    pub got: Option<Vec<u8>>,
    pub taken: Seq<Option<usize>>,
}

/// The bytes that came in a read.
pub open spec fn came(t: Transfer) -> nat {
    match t.got {
        Some(chunk) => chunk@.len(),
        None => 0,
    }
}

/// The bytes that came in several reads.
pub open spec fn all_came(t: Seq<Transfer>) -> nat
    decreases t.len(),
{
    if t.len() == 0 {
        0
    } else {
        all_came(t.drop_last()) + came(t.last())
    }
}

/// How many bytes may be read after `t`: a chunk, or what is left of the budget.
pub open spec fn read_cap(t: Seq<Transfer>) -> int {
    let left = PUMP_BUDGET - all_came(t);
    if left < CHUNK {
        left
    } else {
        CHUNK as int
    }
}

/// The pane of a jack: each has two, standard output before standard error.
pub open spec fn jack_pane(sources: Seq<u64>, jack: int) -> u64 {
    sources[jack / 2]
}

/// The stream of a jack.
pub open spec fn jack_stream(jack: int) -> Stream {
    if jack % 2 == 0 {
        Stream::Stdout
    } else {
        Stream::Stderr
    }
}

/// The jack to read after `t`: the same as long as anything comes, and then the next.
pub open spec fn next_jack(t: Seq<Transfer>) -> int {
    if t.len() == 0 {
        0
    } else if t.last().got is Some {
        t.last().jack
    } else {
        t.last().jack + 1
    }
}

/// Whether a wire leaves a jack.
pub open spec fn leaves(w: Wire, sources: Seq<u64>, jack: int) -> bool {
    w.src == jack_pane(sources, jack) && w.stream == jack_stream(jack)
}

/// Whether the transfer at `i` is what `read` and `write` can have made of the next
/// read: the jack whose turn it is, no more bytes than are left, and every byte offered
/// to every wire that leaves it.
pub open spec fn transfer_fits<R: FnMut(u64, Stream, usize) -> Option<Vec<u8>>, W: FnMut(u64, &Vec<u8>) -> Option<usize>>(
    t: Seq<Transfer>,
    i: int,
    sources: Seq<u64>,
    wires: Seq<Wire>,
    read: R,
    write: W,
) -> bool {
    let before = t.take(i);
    let jack = next_jack(before);
    &&& t[i].jack == jack
    &&& 0 <= jack < 2 * sources.len()
    &&& read_cap(before) > 0
    &&& call_ensures(
        read,
        (jack_pane(sources, jack), jack_stream(jack), read_cap(before) as usize),
        t[i].got,
    )
    &&& t[i].got is Some ==> {
        &&& t[i].taken.len() == wires.len()
        &&& forall|k: int|
            #![trigger t[i].taken[k]]
            0 <= k < wires.len() && leaves(wires[k], sources, jack) ==> call_ensures(
                write,
                (wires[k].dst, &t[i].got->0),
                t[i].taken[k],
            )
    }
}

/// A counter with more bytes on it: full, where it can hold no more.
pub open spec fn counted(moved: u32, more: usize) -> u32 {
    let low = (more as int) % 0x1_0000_0000;
    if moved + low > u32::MAX {
        u32::MAX
    } else {
        (moved + low) as u32
    }
}

/// A wire after one transfer.
pub open spec fn wire_after(w: Wire, sources: Seq<u64>, t: Transfer, k: int) -> Wire {
    if t.got is Some && leaves(w, sources, t.jack) && t.taken[k] is Some {
        Wire { moved: counted(w.moved, t.taken[k]->0), ..w }
    } else {
        w
    }
}

/// The wires after several transfers.
pub open spec fn wires_after(wires: Seq<Wire>, sources: Seq<u64>, t: Seq<Transfer>) -> Seq<Wire>
    decreases t.len(),
{
    if t.len() == 0 {
        wires
    } else {
        let before = wires_after(wires, sources, t.drop_last());
        Seq::new(before.len(), |k: int| wire_after(before[k], sources, t.last(), k))
    }
}

/// Whether `t` is a pass over the jacks.
pub open spec fn pumped<R: FnMut(u64, Stream, usize) -> Option<Vec<u8>>, W: FnMut(u64, &Vec<u8>) -> Option<usize>>(
    t: Seq<Transfer>,
    sources: Seq<u64>,
    wires: Seq<Wire>,
    read: R,
    write: W,
) -> bool {
    forall|i: int|
        0 <= i < t.len() ==> #[trigger] transfer_fits(t, i, sources, wires, read, write)
}

proof fn lemma_same_ends(wires: Seq<Wire>, sources: Seq<u64>, t: Seq<Transfer>)
    ensures
        wires_after(wires, sources, t).len() == wires.len(),
        forall|k: int|
            #![trigger wires_after(wires, sources, t)[k]]
            0 <= k < wires.len() ==> wires_after(wires, sources, t)[k].src == wires[k].src && wires_after(
                wires,
                sources,
                t,
            )[k].stream == wires[k].stream && wires_after(wires, sources, t)[k].dst == wires[k].dst,
    decreases t.len(),
{
    if t.len() > 0 {
        lemma_same_ends(wires, sources, t.drop_last());
    }
}

proof fn lemma_pump_on<R: FnMut(u64, Stream, usize) -> Option<Vec<u8>>, W: FnMut(u64, &Vec<u8>) -> Option<usize>>(
    t: Seq<Transfer>,
    x: Transfer,
    sources: Seq<u64>,
    wires: Seq<Wire>,
    read: R,
    write: W,
)
    requires
        pumped(t, sources, wires, read, write),
        transfer_fits(t.push(x), t.len() as int, sources, wires, read, write),
    ensures
        pumped(t.push(x), sources, wires, read, write),
        all_came(t.push(x)) == all_came(t) + came(x),
        t.push(x).drop_last() == t,
{
    let longer = t.push(x);
    assert(longer.drop_last() =~= t);
    assert forall|i: int| 0 <= i < longer.len() implies #[trigger] transfer_fits(
        longer,
        i,
        sources,
        wires,
        read,
        write,
    ) by {
        if i < t.len() {
            assert(transfer_fits(t, i, sources, wires, read, write));
            assert(longer.take(i) =~= t.take(i));
        }
    }
}

/// Offers a chunk to every wire that leaves a jack, and counts what each takes.
#[verifier::loop_isolation(false)]
fn fan_out<W: FnMut(u64, &Vec<u8>) -> Option<usize>>(
    wires: &mut Vec<Wire>,
    src: u64,
    stream: Stream,
    chunk: &Vec<u8>,
    write: &mut W,
) -> (taken: Ghost<Seq<Option<usize>>>)
    requires
        forall|d: u64, c: &Vec<u8>| call_requires(*old(write), (d, c)),
    ensures
        *final(write) == *old(write),
        taken@.len() == old(wires)@.len(),
        final(wires)@.len() == old(wires)@.len(),
        forall|k: int|
            #![trigger taken@[k]]
            0 <= k < old(wires)@.len() && old(wires)@[k].src == src && old(wires)@[k].stream == stream
                ==> call_ensures(*old(write), (old(wires)@[k].dst, chunk), taken@[k]),
        forall|k: int|
            #![trigger final(wires)@[k]]
            0 <= k < old(wires)@.len() ==> final(wires)@[k] == (if old(wires)@[k].src == src && old(
                wires,
            )@[k].stream == stream && taken@[k] is Some {
                Wire { moved: counted(old(wires)@[k].moved, taken@[k]->0), ..old(wires)@[k] }
            } else {
                old(wires)@[k]
            }),
{
    let ghost mut taken: Seq<Option<usize>> = Seq::empty();
    let ghost asked = *write;
    let ghost first = wires@;
    let n: usize = wires.len();
    let mut k: usize = 0;
    while k < n
        invariant
            k <= n,
            n == first.len(),
            wires@.len() == n,
            *write == asked,
            taken.len() == k,
            forall|j: int| #![trigger wires@[j]] k <= j < n ==> wires@[j] == first[j],
            forall|j: int|
                #![trigger taken[j]]
                0 <= j < k && first[j].src == src && first[j].stream == stream ==> call_ensures(
                    asked,
                    (first[j].dst, chunk),
                    taken[j],
                ),
            forall|j: int|
                #![trigger wires@[j]]
                0 <= j < k ==> wires@[j] == (if first[j].src == src && first[j].stream == stream
                    && taken[j] is Some {
                    Wire { moved: counted(first[j].moved, taken[j]->0), ..first[j] }
                } else {
                    first[j]
                }),
        decreases n - k,
    {
        let w: Wire = wires[k];
        let mut took: Option<usize> = None;
        if w.src == src && w.stream == stream {
            took = write(w.dst, chunk);
            if let Some(more) = took {
                let low: u64 = (more as u64) % 0x1_0000_0000;
                let sum: u64 = w.moved as u64 + low;
                let moved: u32 = if sum > u32::MAX as u64 {
                    u32::MAX
                } else {
                    sum as u32
                };
                wires.set(k, Wire { moved, ..w });
            }
        }
        proof {
            taken = taken.push(took);
        }
        k = k + 1;
    }
    Ghost(taken)
}

impl PatchBay {
    /// Move bytes across every wire, reading the jacks of the panes `sources` in order,
    /// each until nothing more comes, up to the budget. A jack is read even where no
    /// wire leaves it, so that a program that writes to it never blocks. Says whether
    /// anything came.
    ///
    /// `read` gives at most so many bytes of a pane's stream, and at least one, or says
    /// that there are none; `write` says how many a pane's input took.
    #[verifier::loop_isolation(false)]
    pub fn pump_wires<R: FnMut(u64, Stream, usize) -> Option<Vec<u8>>, W: FnMut(u64, &Vec<u8>) -> Option<usize>>(
        &mut self,
        sources: &Vec<u64>,
        read: &mut R,
        write: &mut W,
    ) -> (r: bool)
        requires
            old(self).wf(),
            forall|p: u64, s: Stream, n: usize| call_requires(*old(read), (p, s, n)),
            forall|p: u64, s: Stream, n: usize, c: Option<Vec<u8>>| #[trigger]
                call_ensures(*old(read), (p, s, n), c) && c is Some ==> 0 < c->0@.len() <= n,
            forall|d: u64, c: &Vec<u8>| call_requires(*old(write), (d, c)),
            sources@.len() <= 0x7fff_ffff,
        ensures
            final(self).wf(),
            final(self).armed == old(self).armed,
            final(self).jacked == old(self).jacked,
            exists|t: Seq<Transfer>| #[trigger]
                pumped(t, sources@, old(self).wires@, *old(read), *old(write)) && final(self).wires@
                    == wires_after(old(self).wires@, sources@, t) && all_came(t) <= PUMP_BUDGET && (
                next_jack(t) == 2 * sources@.len() || all_came(t) == PUMP_BUDGET) && r == (all_came(t)
                    > 0),
    {
        let ghost mut t: Seq<Transfer> = Seq::empty();
        let ghost asked_read = *read;
        let ghost asked_write = *write;
        let ghost first = self.wires@;
        let jacks: usize = sources.len() * 2;
        let mut budget: usize = PUMP_BUDGET;
        let mut jack: usize = 0;
        while jack < jacks && budget > 0
            invariant
                jacks == 2 * sources@.len(),
                jack <= jacks,
                jack == next_jack(t),
                budget == PUMP_BUDGET - all_came(t),
                *read == asked_read,
                *write == asked_write,
                self.armed == old(self).armed,
                self.jacked == old(self).jacked,
                pumped(t, sources@, first, asked_read, asked_write),
                self.wires@ == wires_after(first, sources@, t),
            decreases budget, jacks - jack,
        {
            let src: u64 = sources[jack / 2];
            let stream: Stream = if jack % 2 == 0 {
                Stream::Stdout
            } else {
                Stream::Stderr
            };
            let cap: usize = if budget < CHUNK {
                budget
            } else {
                CHUNK
            };
            let got: Option<Vec<u8>> = read(src, stream, cap);
            let ghost before = t;
            proof {
                lemma_same_ends(first, sources@, before);
            }
            let ghost earlier = self.wires@;
            match &got {
                Some(chunk) => {
                    budget = budget - chunk.len();
                    let taken: Ghost<Seq<Option<usize>>> = fan_out(
                        &mut self.wires,
                        src,
                        stream,
                        chunk,
                        write,
                    );
                    proof {
                        let x = Transfer { jack: jack as int, got, taken: taken@ };
                        let longer = before.push(x);
                        assert(longer.take(before.len() as int) =~= before);
                        assert(longer[before.len() as int] == x);
                        assert(transfer_fits(
                            longer,
                            before.len() as int,
                            sources@,
                            first,
                            asked_read,
                            asked_write,
                        ));
                        lemma_pump_on(before, x, sources@, first, asked_read, asked_write);
                        t = longer;
                        assert(self.wires@ =~= wires_after(first, sources@, t));
                    }
                },
                None => {
                    proof {
                        let x = Transfer { jack: jack as int, got, taken: Seq::empty() };
                        let longer = before.push(x);
                        assert(longer.take(before.len() as int) =~= before);
                        assert(longer[before.len() as int] == x);
                        assert(transfer_fits(
                            longer,
                            before.len() as int,
                            sources@,
                            first,
                            asked_read,
                            asked_write,
                        ));
                        lemma_pump_on(before, x, sources@, first, asked_read, asked_write);
                        t = longer;
                        assert(self.wires@ =~= wires_after(first, sources@, t));
                    }
                    jack = jack + 1;
                },
            }
        }
        proof {
            lemma_same_ends(first, sources@, t);
            assert forall|i: int| 0 <= i < self.wires@.len() implies (#[trigger] self.wires@[i]).src
                != self.wires@[i].dst by {
                assert(first[i].src != first[i].dst);
            }
        }
        budget < PUMP_BUDGET
    }
}

/// The radius within which a jack can be grabbed, in pixels.
pub const GRAB_RADIUS: i64 = 12;

/// Whether a point lies within reach of a jack on a pane's right edge, `thirds` thirds
/// of the way down.
pub open spec fn grabs(r: Area, p: Point, thirds: int) -> bool {
    let dx = 3 * (p.x - (r.x + r.w));
    let dy = 3 * (p.y - r.y) - thirds * r.h;
    let reach = 3 * GRAB_RADIUS * SUB;
    dx * dx + dy * dy <= reach * reach
}

/// The jack of a pane that a point reaches: that of its standard output a third of the
/// way down, that of its standard error two thirds.
pub open spec fn jack_of(pane: PaneArea, p: Point) -> Option<(u64, Stream)> {
    if grabs(pane.full, p, 1) {
        Some((pane.id, Stream::Stdout))
    } else if grabs(pane.full, p, 2) {
        Some((pane.id, Stream::Stderr))
    } else {
        None
    }
}

/// The first jack among the panes that a point reaches.
pub open spec fn jack_among(panes: Seq<PaneArea>, p: Point) -> Option<(u64, Stream)>
    decreases panes.len(),
{
    if panes.len() == 0 {
        None
    } else {
        match jack_of(panes[0], p) {
            Some(j) => Some(j),
            None => jack_among(panes.skip(1), p),
        }
    }
}

fn within_reach(r: Area, p: Point, thirds: i64) -> (b: bool)
    requires
        r.wf(),
        p.wf(),
        0 <= thirds <= 2,
    ensures
        b == grabs(r, p, thirds as int),
{
    proof {
        assert(0 <= thirds * r.h <= 2 * FAR) by (nonlinear_arith)
            requires
                0 <= thirds <= 2,
                0 <= r.h <= FAR,
        ;
    }
    let dx: i128 = 3 * (p.x as i128 - (r.x as i128 + r.w as i128));
    let dy: i128 = 3 * (p.y as i128 - r.y as i128) - thirds as i128 * r.h as i128;
    let reach: i128 = 2_304;
    proof {
        assert(-0x20_0000_0000 <= dx <= 0x20_0000_0000);
        assert(-0x20_0000_0000 <= dy <= 0x20_0000_0000);
        assert(0 <= dx * dx <= 0x20_0000_0000 * 0x20_0000_0000) by (nonlinear_arith)
            requires
                -0x20_0000_0000 <= dx <= 0x20_0000_0000,
        ;
        assert(0 <= dy * dy <= 0x20_0000_0000 * 0x20_0000_0000) by (nonlinear_arith)
            requires
                -0x20_0000_0000 <= dy <= 0x20_0000_0000,
        ;
    }
    dx * dx + dy * dy <= reach * reach
}

/// Which output jack, if any, a point of the window reaches.
pub fn jack_at(panes: &Vec<PaneArea>, p: Point) -> (r: Option<(u64, Stream)>)
    requires
        p.wf(),
        forall|i: int| 0 <= i < panes@.len() ==> (#[trigger] panes@[i]).full.wf(),
    ensures
        r == jack_among(panes@, p),
{
    let mut i: usize = 0;
    assert(panes@.skip(0) =~= panes@);
    while i < panes.len()
        invariant
            i <= panes@.len(),
            p.wf(),
            forall|i: int| 0 <= i < panes@.len() ==> (#[trigger] panes@[i]).full.wf(),
            jack_among(panes@.skip(i as int), p) == jack_among(panes@, p),
        decreases panes@.len() - i,
    {
        let pane: &PaneArea = &panes[i];
        assert(panes@.skip(i as int)[0] == *pane);
        if within_reach(pane.full, p, 1) {
            return Some((pane.id, Stream::Stdout));
        }
        if within_reach(pane.full, p, 2) {
            return Some((pane.id, Stream::Stderr));
        }
        assert(panes@.skip(i as int).skip(1) =~= panes@.skip(i + 1));
        i = i + 1;
    }
    None
}

/// The name of the directory that holds a process' jacks.
pub open spec fn dir_name(pid: nat) -> Seq<char> {
    "rt-"@ + numeral(pid)
}

/// The name of the directory that holds a process' jacks.
pub fn jacks_dir_name(pid: u32) -> (r: String)
    ensures
        r@ == dir_name(pid as nat),
{
    let mut s: String = "rt-".to_string();
    push_number(&mut s, pid as u64);
    s
}

/// The names of a pane's jacks in that directory: of its standard output, its standard
/// error and its input.
pub fn jack_names(pane: u64) -> (r: (String, String, String))
    ensures
        r.0@ == numeral(pane as nat) + ".out"@,
        r.1@ == numeral(pane as nat) + ".err"@,
        r.2@ == numeral(pane as nat) + ".in"@,
{
    let mut number: String = String::new();
    push_number(&mut number, pane);
    assert(number@ =~= numeral(pane as nat));
    let out: String = number.clone().concat(".out");
    let err: String = number.clone().concat(".err");
    let input: String = number.concat(".in");
    (out, err, input)
}

/// The environment that tells a pane's shell of its jacks, by their paths.
pub fn jacks_env(out: &str, err: &str, input: &str) -> (r: Vec<(String, String)>)
    ensures
        r@.len() == 3,
        r@[0].0@ == "RT_OUT"@ && r@[0].1@ == out@,
        r@[1].0@ == "RT_ERR"@ && r@[1].1@ == err@,
        r@[2].0@ == "RT_IN"@ && r@[2].1@ == input@,
{
    let mut env: Vec<(String, String)> = Vec::new();
    env.push(("RT_OUT".to_string(), out.to_string()));
    env.push(("RT_ERR".to_string(), err.to_string()));
    env.push(("RT_IN".to_string(), input.to_string()));
    env
}

/// The process whose jacks a directory of this name holds.
pub open spec fn owner_of(name: Seq<char>) -> Option<nat> {
    if "rt-"@.is_prefix_of(name) {
        whole_number(name.skip(3), u32::MAX as nat)
    } else {
        None
    }
}

/// The process whose jacks a directory of this name holds, if it is such a directory.
pub fn jacks_owner(name: &str) -> (r: Option<u32>)
    ensures
        (match r {
            Some(pid) => Some(pid as nat),
            None => None,
        }) == owner_of(name@),
{
    let v: Vec<char> = char_vec(name);
    if !begins_with(&v, "rt-") {
        return None;
    }
    proof {
        reveal_strlit("rt-");
    }
    match parse_whole(&v, 3, u32::MAX as u64) {
        Some(n) => Some(n as u32),
        None => None,
    }
}

/// Whether the startup sweep removes a directory of this name: where it is that of
/// another process' jacks, and the kernel says that this process is gone.
pub fn sweeps<K: FnOnce(i32) -> Result<(), Option<i32>>>(name: &str, me: u32, kill: K) -> (r: bool)
    requires
        forall|p: i32| p > 0 ==> call_requires(kill, (p,)),
    ensures
        r ==> owner_of(name@) is Some,
        match owner_of(name@) {
            None => !r,
            Some(pid) => if !is_pid(pid as u32) || pid == me {
                !r
            } else {
                exists|answer: Result<(), Option<i32>>| #[trigger]
                    call_ensures(kill, (pid as i32,), answer) && r == (answer_liveness(answer)
                        == Liveness::Gone)
            },
        },
{
    match jacks_owner(name) {
        Some(pid) => should_reclaim_pid(pid, me, kill),
        None => false,
    }
}

/// A process finds its own directory by name: the name it gives its jacks' directory is
/// read back as its own number, so that the sweep never takes it for another's.
pub proof fn a_directory_names_its_owner(pid: u32)
    ensures
        owner_of(dir_name(pid as nat)) == Some(pid as nat),
{
    reveal_strlit("rt-");
    crate::text::a_numeral_reads_back(pid as nat, u32::MAX as nat);
    let name = dir_name(pid as nat);
    assert(name.skip(3) =~= numeral(pid as nat));
    assert("rt-"@.is_prefix_of(name)) by {
        assert(name.subrange(0, 3) =~= "rt-"@);
    }
}

/// The directories to sweep: the one that this session uses, and that for temporary
/// files, which other builds have used; each once.
pub fn sweep_bases(base: &str, temporary: &str) -> (r: Vec<String>)
    ensures
        views(r@) == (if base@ == temporary@ {
            seq![base@]
        } else {
            seq![base@, temporary@]
        }),
{
    let mut out: Vec<String> = Vec::new();
    out.push(base.to_string());
    if !same_text(base, temporary) {
        out.push(temporary.to_string());
    }
    assert(views(out@) =~= (if base@ == temporary@ {
        seq![base@]
    } else {
        seq![base@, temporary@]
    }));
    out
}

/// Why the directory for the jacks could not be had.
#[derive(Debug, Clone, Copy, PartialEq, Eq, Structural)]
pub enum DirError {
    /// It could not be made, and is not there either.
    Make,
    /// Something of its name is there and could not be looked at.
    Look,
    /// Something of its name is there and is no directory.
    NotADirectory,
    /// It belongs to someone else.
    NotOurs,
    /// Others can get at it.
    Exposed,
    /// What was left in it could not be cleared away.
    Clear,
    /// Something took its place after it had been cleared away.
    Replaced,
}

/// What is known of a directory that is there already, looked at without following a
/// link.
#[derive(Debug, Clone, Copy, PartialEq, Eq, Structural)]
pub struct DirFacts {
    pub is_dir: bool,
    pub owner: u32,
    pub mode: u32,
}

/// Why making a directory failed: because its name was taken, or otherwise.
#[derive(Debug, Clone, Copy, PartialEq, Eq, Structural)]
pub enum MakeError {
    Taken,
    Other,
}

/// Whether group or others have any access under a mode: its lowest six bits.
pub open spec fn open_to_others(mode: u32) -> bool {
    mode % 64 != 0
}

/// What is wrong with a directory that is there already: nothing, where it is a real
/// one, ours, and closed to others.
pub open spec fn fault(f: DirFacts, me: u32) -> Option<DirError> {
    if !f.is_dir {
        Some(DirError::NotADirectory)
    } else if f.owner != me {
        Some(DirError::NotOurs)
    } else if open_to_others(f.mode) {
        Some(DirError::Exposed)
    } else {
        None
    }
}

/// What is wrong with a directory that is there already.
pub fn find_fault(f: DirFacts, me: u32) -> (r: Option<DirError>)
    ensures
        r == fault(f, me),
{
    if !f.is_dir {
        return Some(DirError::NotADirectory);
    }
    if f.owner != me {
        return Some(DirError::NotOurs);
    }
    if f.mode % 64 != 0 {
        return Some(DirError::Exposed);
    }
    None
}

/// What was answered, in turn, when the directory was made, looked at, cleared away and
/// made again; what was not asked counts for nothing.
pub struct DirAnswers {
    pub made: Result<(), MakeError>,
    pub facts: Option<DirFacts>,
    pub cleared: bool,
    pub again: Result<(), MakeError>,
}

/// What the answers come to. The directory is made afresh; what is there already under
/// its name is accepted only where it is a real directory of ours that is closed to
/// others, and is then cleared away and made again. Any doubt is a failure.
pub open spec fn dir_outcome(a: DirAnswers, me: u32) -> Result<(), DirError> {
    match a.made {
        Ok(_) => Ok(()),
        Err(MakeError::Other) => Err(DirError::Make),
        Err(MakeError::Taken) => match a.facts {
            None => Err(DirError::Look),
            Some(f) => match fault(f, me) {
                Some(e) => Err(e),
                None => if !a.cleared {
                    Err(DirError::Clear)
                } else if a.again is Ok {
                    Ok(())
                } else {
                    Err(DirError::Replaced)
                },
            },
        },
    }
}

/// Whether the answers are those of the four, as far as each had to be asked.
pub open spec fn answered<
    M: FnOnce() -> Result<(), MakeError>,
    L: FnOnce() -> Option<DirFacts>,
    C: FnOnce() -> bool,
    N: FnOnce() -> Result<(), MakeError>,
>(a: DirAnswers, me: u32, make: M, look: L, clear: C, remake: N) -> bool {
    &&& call_ensures(make, (), a.made)
    &&& a.made == Err::<(), MakeError>(MakeError::Taken) ==> call_ensures(look, (), a.facts) && (
    a.facts is Some && fault(a.facts->0, me) is None ==> call_ensures(clear, (), a.cleared) && (a.cleared
        ==> call_ensures(remake, (), a.again)))
}

/// Get this session's directory for its jacks, private and empty. `make` makes the
/// directory, `look` looks at what is there, `clear` clears it away, and `remake` makes
/// the directory once more. Where this fails, the patch bay stays off.
pub fn ensure_jacks_dir<
    M: FnOnce() -> Result<(), MakeError>,
    L: FnOnce() -> Option<DirFacts>,
    C: FnOnce() -> bool,
    N: FnOnce() -> Result<(), MakeError>,
>(me: u32, make: M, look: L, clear: C, remake: N) -> (r: Result<(), DirError>)
    requires
        call_requires(make, ()),
        call_requires(look, ()),
        call_requires(clear, ()),
        call_requires(remake, ()),
    ensures
        exists|a: DirAnswers| #[trigger]
            answered(a, me, make, look, clear, remake) && r == dir_outcome(a, me),
{
    let ghost mut a = DirAnswers { made: Ok(()), facts: None, cleared: false, again: Ok(()) };
    let made: Result<(), MakeError> = make();
    proof {
        a = DirAnswers { made, ..a };
    }
    match made {
        Ok(_) => {
            assert(answered(a, me, make, look, clear, remake));
            return Ok(());
        },
        Err(MakeError::Other) => {
            assert(answered(a, me, make, look, clear, remake));
            return Err(DirError::Make);
        },
        Err(MakeError::Taken) => {},
    }
    let found: Option<DirFacts> = look();
    proof {
        a = DirAnswers { facts: found, ..a };
    }
    let facts: DirFacts = match found {
        Some(facts) => facts,
        None => {
            assert(answered(a, me, make, look, clear, remake));
            return Err(DirError::Look);
        },
    };
    if let Some(e) = find_fault(facts, me) {
        assert(answered(a, me, make, look, clear, remake));
        return Err(e);
    }
    let cleared: bool = clear();
    proof {
        a = DirAnswers { cleared, ..a };
    }
    if !cleared {
        assert(answered(a, me, make, look, clear, remake));
        return Err(DirError::Clear);
    }
    let again: Result<(), MakeError> = remake();
    proof {
        a = DirAnswers { again, ..a };
        assert(answered(a, me, make, look, clear, remake));
    }
    match again {
        Ok(_) => Ok(()),
        Err(_) => Err(DirError::Replaced),
    }
}

/// The jacks never end up in a directory that this session did not make: success means
/// that the directory was made afresh, at the first try or after clearing away what was
/// there, which was our own and closed to others.
pub proof fn only_a_fresh_directory_will_do(a: DirAnswers, me: u32)
    requires
        dir_outcome(a, me) is Ok,
    ensures
        a.made is Ok || a.again is Ok,
        a.made is Err ==> a.facts is Some && a.facts->0.is_dir && a.facts->0.owner == me && !open_to_others(
            a.facts->0.mode,
        ) && a.cleared,
{
}

} // verus!

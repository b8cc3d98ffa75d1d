//! Searching a pane's buffer: the hits, the current one, and their marks on the
//! scrollbar.
use vstd::prelude::*;
use vstd::string::*;
use vstd::arithmetic::div_mod::*;
use crate::geometry::{Area, FAR, SUB};
use crate::ring::{ring_step, stepped};

verus! {

broadcast use vstd::string::group_string_axioms;

/// A hit: a run of columns of a buffer line. Lines above the screen are negative.
#[derive(Debug, Clone, Copy, PartialEq, Eq, Structural)]
pub struct Match {
    pub line: i32,
    pub col: usize,
    pub len: usize,
}

/// The search bar.
#[derive(Debug, Clone)]
pub struct Search {
    pub open: bool,
    pub query: String,
    pub matches: Vec<Match>,
    /// The current hit.
    pub index: usize,
    /// The pane the hits belong to.
    pub pane: Option<u64>,
}

impl Search {
    /// Whether the current hit is one, as soon as there are any.
    pub open spec fn wf(&self) -> bool {
        self.matches@.len() > 0 ==> self.index < self.matches@.len()
    }

    /// Whether the bar is closed and holds nothing.
    pub open spec fn is_closed(&self) -> bool {
        &&& !self.open
        &&& self.query@.len() == 0
        &&& self.matches@.len() == 0
        &&& self.index == 0
        &&& self.pane is None
    }

    /// A closed search bar.
    pub fn closed() -> (r: Search)
        ensures
            r.is_closed(),
            r.wf(),
    {
        Search { open: false, query: String::new(), matches: Vec::new(), index: 0, pane: None }
    }

    /// Open the bar for a pane, from a clean slate.
    pub fn start(&mut self, pane: u64)
        ensures
            final(self).open,
            final(self).query@.len() == 0,
            final(self).matches@.len() == 0,
            final(self).index == 0,
            final(self).pane == Some(pane),
            final(self).wf(),
    {
        self.open = true;
        self.query = String::new();
        self.matches = Vec::new();
        self.index = 0;
        self.pane = Some(pane);
    }

    /// Close the bar and forget the query and its hits.
    pub fn close(&mut self)
        ensures
            final(self).is_closed(),
            final(self).wf(),
    {
        self.open = false;
        self.query = String::new();
        self.matches = Vec::new();
        self.index = 0;
        self.pane = None;
    }

    /// Take over the hits of the current query in a pane, and say which line to scroll
    /// to, if any. `jump` says that the query has just changed: then the first hit is
    /// the current one, and comes into view. Otherwise new output has arrived: the
    /// current hit keeps its position as far as there still is one, and nothing
    /// scrolls.
    pub fn take_matches(&mut self, pane: u64, matches: Vec<Match>, jump: bool) -> (r: Option<i32>)
        ensures
            final(self).open == old(self).open,
            final(self).query == old(self).query,
            final(self).matches@ == matches@,
            final(self).pane == Some(pane),
            final(self).index == (if jump || matches@.len() == 0 {
                0
            } else if old(self).index < matches@.len() {
                old(self).index
            } else {
                (matches@.len() - 1) as usize
            }),
            r == (if jump && matches@.len() > 0 {
                Some(matches@[0].line)
            } else {
                None
            }),
            final(self).wf(),
    {
        self.pane = Some(pane);
        self.matches = matches;
        let n: usize = self.matches.len();
        if jump {
            self.index = 0;
            if n > 0 {
                return Some(self.matches[0].line);
            }
            return None;
        }
        let last: usize = if n > 0 {
            n - 1
        } else {
            0
        };
        if self.index > last {
            self.index = last;
        }
        None
    }

    /// Move to another hit, round the ends, and say which line to scroll to. Nothing
    /// happens where there are no hits.
    pub fn step(&mut self, dir: i32) -> (r: Option<i32>)
        requires
            old(self).wf(),
        ensures
            final(self).wf(),
            final(self).open == old(self).open,
            final(self).query == old(self).query,
            final(self).matches == old(self).matches,
            final(self).pane == old(self).pane,
            old(self).matches@.len() == 0 ==> r is None && final(self).index == old(self).index,
            old(self).matches@.len() > 0 ==> {
                &&& final(self).index == stepped(
                    old(self).index as int,
                    dir as int,
                    old(self).matches@.len() as int,
                )
                &&& r == Some(old(self).matches@[final(self).index as int].line)
            },
    {
        let n: usize = self.matches.len();
        if n == 0 {
            return None;
        }
        self.index = ring_step(self.index, dir, n);
        Some(self.matches[self.index].line)
    }
}

/// Going to the next hit and back again leads home.
pub proof fn stepping_back_leads_home(index: int, count: int)
    requires
        0 <= index < count,
    ensures
        stepped(stepped(index, 1, count), -1, count) == index,
        stepped(stepped(index, -1, count), 1, count) == index,
{
    if index + 1 < count {
        lemma_small_mod((index + 1) as nat, count as nat);
        lemma_small_mod(index as nat, count as nat);
    } else {
        lemma_mod_self_0(count);
        lemma_mod_add_multiples_vanish(-1, count);
        lemma_small_mod((count - 1) as nat, count as nat);
    }
    if index > 0 {
        lemma_small_mod((index - 1) as nat, count as nat);
        lemma_small_mod(index as nat, count as nat);
    } else {
        lemma_mod_add_multiples_vanish(-1, count);
        lemma_small_mod((count - 1) as nat, count as nat);
        lemma_mod_self_0(count);
    }
}

/// The whole number nearest to `num / den`, a half being rounded away from zero.
pub open spec fn nearest(num: int, den: int) -> int {
    if num >= 0 {
        (2 * num + den) / (2 * den)
    } else {
        -((2 * -num + den) / (2 * den))
    }
}

/// The pixel row of a line's mark on a track, the buffer holding `total` lines of which
/// `history` lie above the screen: the nearest to the line's share of the way down.
pub open spec fn mark_of(line: int, history: int, total: int, rect: Area) -> int {
    let down = crate::settings::clamped(line + history, 0, total);
    nearest(rect.y * total + down * rect.h, SUB * total)
}

proof fn lemma_nearest_ordered(a: int, b: int, den: int)
    requires
        a <= b,
        den > 0,
    ensures
        nearest(a, den) <= nearest(b, den),
{
    if a >= 0 {
        lemma_div_is_ordered(2 * a + den, 2 * b + den, 2 * den);
    } else if b < 0 {
        lemma_div_is_ordered(2 * -b + den, 2 * -a + den, 2 * den);
    } else {
        lemma_div_pos_is_pos(2 * b + den, 2 * den);
        lemma_div_pos_is_pos(2 * -a + den, 2 * den);
    }
}

proof fn lemma_nearest_scaled(a: int, den: int, k: int)
    requires
        den > 0,
        k > 0,
    ensures
        nearest(a * k, den * k) == nearest(a, den),
{
    let m = if a >= 0 { a } else { -a };
    assert(a >= 0 <==> a * k >= 0) by (nonlinear_arith)
        requires
            k > 0,
    ;
    lemma_div_multiples_vanish_quotient(k, 2 * m + den, 2 * den);
    assert(k * (2 * m + den) == 2 * (m * k) + den * k) by (nonlinear_arith);
    assert(k * (2 * den) == 2 * (den * k)) by (nonlinear_arith);
    assert(-(a * k) == (-a) * k) by (nonlinear_arith);
}

/// A mark lies on its track: between the pixels nearest to its two ends.
pub(crate) proof fn lemma_mark_on_track(line: int, history: int, total: int, rect: Area)
    requires
        rect.wf(),
        total > 0,
    ensures
        nearest(rect.y as int, SUB as int) <= mark_of(line, history, total, rect) <= nearest(
            rect.y + rect.h,
            SUB as int,
        ),
{
    let down = crate::settings::clamped(line + history, 0, total);
    let num = rect.y * total + down * rect.h;
    assert(rect.y * total <= num <= (rect.y + rect.h) * total) by (nonlinear_arith)
        requires
            num == rect.y * total + down * rect.h,
            0 <= down <= total,
            0 <= rect.h,
    ;
    lemma_nearest_ordered(rect.y * total, num, SUB * total);
    lemma_nearest_ordered(num, (rect.y + rect.h) * total, SUB * total);
    lemma_nearest_scaled(rect.y as int, SUB as int, total);
    lemma_nearest_scaled(rect.y + rect.h, SUB as int, total);
}

fn round_mark(num: i128, den: i128) -> (r: i128)
    requires
        -0x4_0000_0000_0000_0000 <= num <= 0x4_0000_0000_0000_0000,
        0 < den <= 0x100_0000_0000,
    ensures
        r == nearest(num as int, den as int),
{
    if num >= 0 {
        (2 * num + den) / (2 * den)
    } else {
        let up: i128 = (2 * -num + den) / (2 * den);
        proof {
            lemma_div_pos_is_pos(2 * -num + den, 2 * den as int);
            lemma_div_is_ordered_by_denominator(2 * -num + den, 1, 2 * den as int);
        }
        -up
    }
}

/// Whether numbers ascend, none of them twice.
pub open spec fn strictly_ascending(v: Seq<i64>) -> bool {
    forall|i: int, j: int| 0 <= i < j < v.len() ==> v[i] < v[j]
}

fn insert_mark(v: &mut Vec<i64>, x: i64)
    requires
        strictly_ascending(old(v)@),
    ensures
        strictly_ascending(final(v)@),
        forall|m: i64| #[trigger] final(v)@.contains(m) <==> old(v)@.contains(m) || m == x,
{
    let ghost before = v@;
    let mut i: usize = 0;
    while i < v.len() && v[i] < x
        invariant
            i <= v@.len(),
            v@ == before,
            forall|j: int| 0 <= j < i ==> before[j] < x,
        ensures
            i < v@.len() ==> before[i as int] >= x,
        decreases v@.len() - i,
    {
        i = i + 1;
    }
    if i < v.len() && v[i] == x {
        assert(before[i as int] == x);
        return;
    }
    v.insert(i, x);
    proof {
        let after = v@;
        assert(after =~= before.insert(i as int, x));
        assert forall|j: int, k: int| 0 <= j < k < after.len() implies after[j] < after[k] by {
            let p = if j < i { j } else { j - 1 };
            let q = if k < i { k } else { k - 1 };
            if j != i && k != i {
                assert(after[j] == before[p] && after[k] == before[q]);
            } else if j == i {
                assert(after[k] == before[k - 1]);
                if k - 1 > i {
                    assert(before[i as int] < before[k - 1]);
                }
            } else {
                assert(after[j] == before[j]);
            }
        }
        assert forall|m: i64| #[trigger] after.contains(m) <==> before.contains(m) || m == x by {
            if before.contains(m) {
                let p = choose|p: int| 0 <= p < before.len() && before[p] == m;
                assert(after[if p < i { p } else { p + 1 }] == m);
            }
            if m == x {
                assert(after[i as int] == m);
            }
            if after.contains(m) {
                let p = choose|p: int| 0 <= p < after.len() && after[p] == m;
                if p != i {
                    assert(before[if p < i { p } else { p - 1 }] == m);
                }
            }
        }
    }
}

proof fn lemma_few_marks(v: Seq<i64>, low: int, high: int)
    requires
        strictly_ascending(v),
        forall|i: int| 0 <= i < v.len() ==> low <= #[trigger] v[i] <= high,
    ensures
        v.len() > 0 ==> v.len() <= high - low + 1,
    decreases v.len(),
{
    if v.len() > 1 {
        let rest = v.drop_last();
        let top = v[v.len() - 2] as int;
        assert(top < v[v.len() - 1]);
        assert forall|i: int| 0 <= i < rest.len() implies low <= #[trigger] rest[i] <= top by {
            assert(rest[i] == v[i]);
            if i < v.len() - 2 {
                assert(v[i] < v[v.len() - 2]);
            }
        }
        lemma_few_marks(rest, low, top);
    } else if v.len() == 1 {
        assert(low <= v[0] <= high);
    }
}

/// The lines that a track stands for: at least one.
pub open spec fn track_lines(history: int, screen: int) -> int {
    if history + screen > 0 {
        history + screen
    } else {
        1
    }
}

/// Whether `m` is the mark of one of the first `n` lines.
pub open spec fn marks_one(lines: Seq<i32>, n: int, history: int, screen: int, rect: Area, m: i64) -> bool {
    exists|i: int|
        0 <= i < n && m == mark_of(
            #[trigger] lines[i] as int,
            history,
            track_lines(history, screen),
            rect,
        )
}

/// The pixel rows of the hits' marks on a pane's scrollbar track: ascending, and each
/// once, so that a cluster of hits makes one mark and there are never more marks than
/// pixels.
pub fn hit_marker_ys(lines: &Vec<i32>, history: usize, screen: usize, rect: Area) -> (r: Vec<i64>)
    requires
        history <= 0x7fff_ffff,
        screen <= 0x7fff_ffff,
        rect.wf(),
    ensures
        strictly_ascending(r@),
        forall|m: i64| #[trigger]
            r@.contains(m) <==> marks_one(
                lines@,
                lines@.len() as int,
                history as int,
                screen as int,
                rect,
                m,
            ),
        forall|i: int|
            0 <= i < r@.len() ==> nearest(rect.y as int, SUB as int) <= #[trigger] r@[i] <= nearest(
                rect.y + rect.h,
                SUB as int,
            ),
        r@.len() <= nearest(rect.y + rect.h, SUB as int) - nearest(rect.y as int, SUB as int) + 1,
{
    let total: i64 = if history + screen > 0 {
        (history + screen) as i64
    } else {
        1
    };
    let ghost low = nearest(rect.y as int, SUB as int);
    let ghost high = nearest(rect.y + rect.h, SUB as int);
    proof {
        lemma_nearest_ordered(rect.y as int, rect.y + rect.h, SUB as int);
    }
    let mut out: Vec<i64> = Vec::new();
    let mut i: usize = 0;
    while i < lines.len()
        invariant
            i <= lines@.len(),
            history <= 0x7fff_ffff,
            screen <= 0x7fff_ffff,
            rect.wf(),
            total == track_lines(history as int, screen as int),
            1 <= total <= 0xffff_fffe,
            low == nearest(rect.y as int, SUB as int),
            high == nearest(rect.y + rect.h, SUB as int),
            strictly_ascending(out@),
            forall|k: int| 0 <= k < out@.len() ==> low <= #[trigger] out@[k] <= high,
            forall|m: i64| #[trigger]
                out@.contains(m) <==> marks_one(
                    lines@,
                    i as int,
                    history as int,
                    screen as int,
                    rect,
                    m,
                ),
        decreases lines@.len() - i,
    {
        let down: i64 = crate::settings::clamp(lines[i] as i64 + history as i64, 0, total);
        proof {
            lemma_mark_on_track(lines@[i as int] as int, history as int, total as int, rect);
            assert(0 <= down * rect.h <= 0xffff_fffe * FAR) by (nonlinear_arith)
                requires
                    0 <= down <= 0xffff_fffe,
                    0 <= rect.h <= FAR,
            ;
            assert(-0xffff_fffe * FAR <= rect.y * total <= 0xffff_fffe * FAR) by (nonlinear_arith)
                requires
                    1 <= total <= 0xffff_fffe,
                    -FAR <= rect.y <= FAR,
            ;
        }
        let num: i128 = rect.y as i128 * total as i128 + down as i128 * rect.h as i128;
        let mark: i64 = round_mark(num, SUB as i128 * total as i128) as i64;
        let ghost before = out@;
        insert_mark(&mut out, mark);
        proof {
            assert(mark == mark_of(lines@[i as int] as int, history as int, total as int, rect));
            assert forall|m: i64| #[trigger] out@.contains(m) <==> marks_one(
                lines@,
                i + 1,
                history as int,
                screen as int,
                rect,
                m,
            ) by {
                assert(before.contains(m) <==> marks_one(
                    lines@,
                    i as int,
                    history as int,
                    screen as int,
                    rect,
                    m,
                ));
                if m == mark {
                    assert(m == mark_of(lines@[i as int] as int, history as int, total as int, rect));
                }
            }
            assert forall|k: int| 0 <= k < out@.len() implies low <= #[trigger] out@[k] <= high by {
                assert(out@.contains(out@[k]));
                if before.contains(out@[k]) {
                    let p = choose|p: int| 0 <= p < before.len() && before[p] == out@[k];
                    assert(low <= before[p] <= high);
                }
            }
        }
        i = i + 1;
    }
    proof {
        lemma_few_marks(out@, low, high);
    }
    out
}

} // verus!

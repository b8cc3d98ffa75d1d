//! What the kernel's process files say: the processor time of a pane's programs, and
//! how much memory the machine has.
use vstd::prelude::*;
use vstd::string::*;
use crate::text::{
    begins_with, char_vec, lines, parse_number, split_lines, split_words, views, whole_number, words,
};

verus! {

broadcast use vstd::string::group_string_axioms;

/// The number a word spells, or zero.
pub open spec fn number_or_zero(word: Seq<char>) -> nat {
    match whole_number(word, u64::MAX as nat) {
        Some(n) => n,
        None => 0,
    }
}

/// Where the last closing bracket stands.
pub open spec fn last_bracket(s: Seq<char>) -> Option<int>
    decreases s.len(),
{
    if s.len() == 0 {
        None
    } else if s.last() == ')' {
        Some(s.len() - 1)
    } else {
        last_bracket(s.drop_last())
    }
}

/// The processor time that a process' `stat` file gives: the twelfth and thirteenth of
/// the words behind the program's name, which stands in brackets and may hold anything.
pub open spec fn stat_ticks(content: Seq<char>) -> nat {
    match last_bracket(content) {
        Some(i) => {
            let w = words(content.skip(i + 1));
            if w.len() >= 13 {
                number_or_zero(w[11]) + number_or_zero(w[12])
            } else {
                0
            }
        },
        None => 0,
    }
}

fn parse_or_zero(word: &str) -> (r: u64)
    ensures
        r == number_or_zero(word@),
{
    match parse_number(word, u64::MAX) {
        Some(n) => n,
        None => 0,
    }
}

/// The processor time that the contents of a process' `stat` file give.
pub fn ticks_in(content: &str) -> (r: u128)
    ensures
        r == stat_ticks(content@),
        r <= 2 * u64::MAX,
{
    let v: Vec<char> = char_vec(content);
    let mut i: usize = v.len();
    assert(v@.take(i as int) =~= v@);
    while i > 0
        invariant
            i <= v@.len(),
            v@ == content@,
            last_bracket(v@.take(i as int)) == last_bracket(content@),
        decreases i,
    {
        if v[i - 1] == ')' {
            let w: Vec<String> = split_words(&v, i);
            if w.len() >= 13 {
                assert(views(w@)[11] == w@[11]@);
                assert(views(w@)[12] == w@[12]@);
                let user: u64 = parse_or_zero(w[11].as_str());
                let system: u64 = parse_or_zero(w[12].as_str());
                return user as u128 + system as u128;
            }
            return 0;
        }
        assert(v@.take(i as int).drop_last() =~= v@.take(i - 1));
        i = i - 1;
    }
    0
}

/// The processes among a list of words: those that are numbers.
pub open spec fn pids_among(w: Seq<Seq<char>>) -> Seq<u32>
    decreases w.len(),
{
    if w.len() == 0 {
        Seq::empty()
    } else {
        match whole_number(w.last(), u32::MAX as nat) {
            Some(n) => pids_among(w.drop_last()).push(n as u32),
            None => pids_among(w.drop_last()),
        }
    }
}

fn push_pids(stack: &mut Vec<u32>, kids: &str)
    ensures
        final(stack)@ == old(stack)@ + pids_among(words(kids@)),
{
    let v: Vec<char> = char_vec(kids);
    let w: Vec<String> = split_words(&v, 0);
    assert(v@.skip(0) =~= v@);
    let ghost all = views(w@);
    let mut i: usize = 0;
    assert(stack@ =~= old(stack)@ + pids_among(all.take(0)));
    while i < w.len()
        invariant
            i <= w@.len(),
            all == views(w@),
            stack@ == old(stack)@ + pids_among(all.take(i as int)),
        decreases w@.len() - i,
    {
        assert(all.take(i + 1).drop_last() =~= all.take(i as int));
        assert(all.take(i + 1).last() == w@[i as int]@);
        if let Some(n) = parse_number(w[i].as_str(), u32::MAX as u64) {
            stack.push(n as u32);
        }
        i = i + 1;
        assert(stack@ =~= old(stack)@ + pids_among(all.take(i as int)));
    }
    assert(all.take(i as int) =~= all);
}

/// The processes that a list of children names.
pub fn pids_in(kids: &str) -> (r: Vec<u32>)
    ensures
        r@ == pids_among(words(kids@)),
{
    let mut out: Vec<u32> = Vec::new();
    push_pids(&mut out, kids);
    assert(out@ =~= pids_among(words(kids@)));
    out
}

/// The most processes one sample visits, however the process tree looks.
pub const MAX_VISITS: usize = 4096;

/// One process visited: what its `stat` file held, and what its list of children did.
pub struct Visit {
    pub pid: u32,
    pub stat: Option<String>,
    pub kids: Option<String>,
}

/// The processor time that a visit found.
pub open spec fn visit_ticks(v: Visit) -> nat {
    match v.stat {
        Some(content) => stat_ticks(content@),
        None => 0,
    }
}

/// The processes that a visit found to go on with.
pub open spec fn visit_kids(v: Visit) -> Seq<u32> {
    match v.kids {
        Some(list) => pids_among(words(list@)),
        None => Seq::empty(),
    }
}

/// The processes still to visit after `visits`, the next one last.
pub open spec fn to_visit(root: u32, visits: Seq<Visit>) -> Seq<u32>
    decreases visits.len(),
{
    if visits.len() == 0 {
        seq![root]
    } else {
        to_visit(root, visits.drop_last()).drop_last() + visit_kids(visits.last())
    }
}

/// The processor time that `visits` found.
pub open spec fn total_ticks(visits: Seq<Visit>) -> nat
    decreases visits.len(),
{
    if visits.len() == 0 {
        0
    } else {
        total_ticks(visits.drop_last()) + visit_ticks(visits.last())
    }
}

/// Whether the visit at `i` is that of the next process to visit, with what `stat` and
/// `children` said of it.
pub open spec fn visit_fits<S: FnMut(u32) -> Option<String>, C: FnMut(u32) -> Option<String>>(
    root: u32,
    visits: Seq<Visit>,
    i: int,
    stat: S,
    children: C,
) -> bool {
    &&& to_visit(root, visits.take(i)).len() > 0
    &&& visits[i].pid == to_visit(root, visits.take(i)).last()
    &&& call_ensures(stat, (visits[i].pid,), visits[i].stat)
    &&& call_ensures(children, (visits[i].pid,), visits[i].kids)
}

/// Whether `visits` is a walk through the processes below `root`.
pub open spec fn walked<S: FnMut(u32) -> Option<String>, C: FnMut(u32) -> Option<String>>(
    root: u32,
    visits: Seq<Visit>,
    stat: S,
    children: C,
) -> bool {
    forall|i: int| 0 <= i < visits.len() ==> #[trigger] visit_fits(root, visits, i, stat, children)
}

proof fn lemma_walk_on<S: FnMut(u32) -> Option<String>, C: FnMut(u32) -> Option<String>>(
    root: u32,
    visits: Seq<Visit>,
    visit: Visit,
    stat: S,
    children: C,
)
    requires
        walked(root, visits, stat, children),
        to_visit(root, visits).len() > 0,
        visit.pid == to_visit(root, visits).last(),
        call_ensures(stat, (visit.pid,), visit.stat),
        call_ensures(children, (visit.pid,), visit.kids),
    ensures
        walked(root, visits.push(visit), stat, children),
        to_visit(root, visits.push(visit)) == to_visit(root, visits).drop_last() + visit_kids(visit),
        total_ticks(visits.push(visit)) == total_ticks(visits) + visit_ticks(visit),
{
    let longer = visits.push(visit);
    assert(longer.drop_last() =~= visits);
    assert forall|i: int| 0 <= i < longer.len() implies #[trigger] visit_fits(
        root,
        longer,
        i,
        stat,
        children,
    ) by {
        if i < visits.len() {
            assert(visit_fits(root, visits, i, stat, children));
            assert(longer.take(i) =~= visits.take(i));
        } else {
            assert(longer.take(i) =~= visits);
        }
    }
}

/// The processor time of `root` and all below it, reading for each process its `stat`
/// file and its list of children. A file that cannot be read adds nothing; and a tree
/// that does not end is left after [`MAX_VISITS`] processes.
#[verifier::loop_isolation(false)]
pub fn subtree_cpu_ticks<S: FnMut(u32) -> Option<String>, C: FnMut(u32) -> Option<String>>(
    root: u32,
    mut stat: S,
    mut children: C,
) -> (r: u128)
    requires
        forall|p: u32| call_requires(stat, (p,)),
        forall|p: u32| call_requires(children, (p,)),
    ensures
        exists|visits: Seq<Visit>| #[trigger]
            walked(root, visits, stat, children) && r == total_ticks(visits) && visits.len() <= MAX_VISITS
                && (to_visit(root, visits).len() == 0 || visits.len() == MAX_VISITS),
{
    let ghost asked_stat = stat;
    let ghost asked_children = children;
    let ghost mut visits: Seq<Visit> = Seq::empty();
    let mut total: u128 = 0;
    let mut stack: Vec<u32> = Vec::new();
    stack.push(root);
    let mut visited: usize = 0;
    assert(stack@ =~= to_visit(root, visits));
    while stack.len() > 0 && visited < MAX_VISITS
        invariant
            stat == asked_stat,
            children == asked_children,
            visited == visits.len(),
            visited <= MAX_VISITS,
            stack@ == to_visit(root, visits),
            walked(root, visits, asked_stat, asked_children),
            total == total_ticks(visits),
            total <= visited * (2 * u64::MAX),
        decreases MAX_VISITS - visited,
    {
        let ghost before = visits;
        let pid: u32 = match stack.pop() {
            Some(pid) => pid,
            None => root,
        };
        let content: Option<String> = stat(pid);
        let kids: Option<String> = children(pid);
        proof {
            let visit = Visit { pid, stat: content, kids };
            lemma_walk_on(root, before, visit, asked_stat, asked_children);
            visits = before.push(visit);
        }
        if let Some(content) = &content {
            total = total + ticks_in(content.as_str());
        }
        if let Some(kids) = &kids {
            push_pids(&mut stack, kids.as_str());
        }
        assert(stack@ =~= to_visit(root, visits));
        visited = visited + 1;
    }
    total
}

/// The kilobytes that a line of the memory file gives for the whole memory.
pub open spec fn memory_line(line: Seq<char>) -> Option<nat> {
    if "MemTotal:"@.is_prefix_of(line) {
        let w = words(line.skip("MemTotal:"@.len() as int));
        if w.len() > 0 {
            whole_number(w[0], u64::MAX as nat)
        } else {
            None
        }
    } else {
        None
    }
}

/// The kilobytes of the first line that gives any.
pub open spec fn memory_among(l: Seq<Seq<char>>) -> Option<nat>
    decreases l.len(),
{
    if l.len() == 0 {
        None
    } else {
        match memory_line(l[0]) {
            Some(kb) => Some(kb),
            None => memory_among(l.skip(1)),
        }
    }
}

/// The memory of the machine in bytes, by the contents of the memory file: none, where
/// they do not say.
pub open spec fn memory_bytes(content: Seq<char>) -> nat {
    match memory_among(lines(content)) {
        Some(kb) => kb * 1024,
        None => 0,
    }
}

fn parse_memory_line(line: &str) -> (r: Option<u64>)
    ensures
        crate::text::nat_view(r) == memory_line(line@),
{
    let v: Vec<char> = char_vec(line);
    if !begins_with(&v, "MemTotal:") {
        return None;
    }
    proof {
        reveal_strlit("MemTotal:");
        assert("MemTotal:"@.len() == 9);
    }
    let w: Vec<String> = split_words(&v, 9);
    if w.len() == 0 {
        return None;
    }
    assert(views(w@)[0] == w@[0]@);
    parse_number(w[0].as_str(), u64::MAX)
}

/// The memory of the machine in bytes, by the contents of the memory file: zero, where
/// there are none or they do not say.
pub fn total_ram_bytes(meminfo: Option<&str>) -> (r: u128)
    ensures
        r == (match meminfo {
            Some(content) => memory_bytes(content@),
            None => 0,
        }),
{
    let content: &str = match meminfo {
        Some(content) => content,
        None => return 0,
    };
    let l: Vec<String> = split_lines(content);
    let ghost all = views(l@);
    let mut i: usize = 0;
    assert(all.skip(0) =~= all);
    while i < l.len()
        invariant
            i <= l@.len(),
            all == views(l@),
            all == lines(content@),
            meminfo == Some(content),
            memory_among(all.skip(i as int)) == memory_among(all),
        decreases l@.len() - i,
    {
        assert(all.skip(i as int)[0] == l@[i as int]@);
        if let Some(kb) = parse_memory_line(l[i].as_str()) {
            return kb as u128 * 1024;
        }
        assert(all.skip(i as int).skip(1) =~= all.skip(i + 1));
        i = i + 1;
    }
    0
}

} // verus!

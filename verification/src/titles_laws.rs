//! What titles say of the programs in panes, and what is asked of the system to say it.
use std::borrow::Cow;
use vstd::prelude::*;
use vstd::string::*;
use crate::pane_title::{
    chain_ends, derived, describing_pid, dir_label, fit, join_len, joined, last_component, only_child,
    only_child_chain, sanitize, sanitized, stripped, unsafe_in_title, without_slashes, Keep, ProcFacts,
};
use crate::proc_info::{cwd_of, name_of, pid_in_range};
use crate::proc_liveness::{liveness_from, probe, should_reclaim, should_reclaim_pid, Liveness};
use crate::proc_stat::{
    memory_among, memory_line, pids_among, pids_in, subtree_cpu_ticks, ticks_in, to_visit, total_ram_bytes,
    total_ticks, visit_fits, walked, Visit,
};
use crate::text::{control, numeral, parse_number, split_lines, split_words, views, words};

verus! {

broadcast use vstd::string::group_string_axioms;

/// Whether a character must not be drawn in a title: a control character, or one of the
/// marks that change the direction of reading.
pub open spec fn must_go(c: char) -> bool {
    ||| control(c)
    ||| c == '\u{200e}' || c == '\u{200f}'
    ||| c == '\u{202a}' || c == '\u{202b}' || c == '\u{202c}' || c == '\u{202d}' || c == '\u{202e}'
    ||| c == '\u{2066}' || c == '\u{2067}' || c == '\u{2068}' || c == '\u{2069}'
}

proof fn lemma_must_go(c: char)
    ensures
        must_go(c) == unsafe_in_title(c),
{
}

proof fn lemma_stripped_cat(a: Seq<char>, b: Seq<char>)
    ensures
        stripped(a + b) == stripped(a) + stripped(b),
    decreases b.len(),
{
    reveal(Seq::filter);
    if b.len() == 0 {
        assert(a + b =~= a);
        assert(stripped(b) =~= Seq::empty());
        assert(stripped(a) + Seq::<char>::empty() =~= stripped(a));
    } else {
        lemma_stripped_cat(a, b.drop_last());
        assert((a + b).drop_last() =~= a + b.drop_last());
        assert((a + b).last() == b.last());
        assert(stripped(a + b) =~= stripped(a) + stripped(b));
    }
}

proof fn lemma_clean(s: Seq<char>)
    requires
        forall|i: int| 0 <= i < s.len() ==> !must_go(#[trigger] s[i]),
    ensures
        stripped(s) == s,
    decreases s.len(),
{
    reveal(Seq::filter);
    if s.len() > 0 {
        let t = s.drop_last();
        assert forall|i: int| 0 <= i < t.len() implies !must_go(#[trigger] t[i]) by {
            assert(t[i] == s[i]);
        }
        lemma_clean(t);
        assert(!must_go(s[s.len() - 1]));
        assert(stripped(s) =~= s);
    }
}

/// An ordinary title stays as it is, up to 256 characters of it; a character that must not be
/// drawn makes no difference wherever it stands, and none is left.
pub proof fn a_clean_title_stays_and_others_are_cleaned(
    raw: &str,
    r: Cow<'_, str>,
    a: Seq<char>,
    c: char,
    b: Seq<char>,
    without: &str,
    q: Cow<'_, str>,
)
    requires
        call_ensures(sanitize, (raw,), r),
        call_ensures(sanitize, (without,), q),
    ensures
        (forall|i: int| 0 <= i < raw@.len() ==> !must_go(#[trigger] raw@[i])) ==> r@ == (if raw@.len() <= 256 {
            raw@
        } else {
            raw@.take(256)
        }),
        raw@ == a.push(c) + b && must_go(c) && without@ == a + b ==> r@ == q@,
        forall|i: int| 0 <= i < r@.len() ==> !must_go(#[trigger] r@[i]),
        r@.len() <= 256,
{
    if forall|i: int| 0 <= i < raw@.len() ==> !must_go(#[trigger] raw@[i]) {
        lemma_clean(raw@);
    }
    if raw@ == a.push(c) + b && must_go(c) && without@ == a + b {
        lemma_stripped_cat(a, b);
        lemma_stripped_cat(a.push(c), b);
        lemma_stripped_cat(a, seq![c]);
        reveal(Seq::filter);
        assert(a.push(c) =~= a + seq![c]);
        assert(seq![c].drop_last() =~= Seq::empty());
        assert(seq![c].last() == c);
        assert(unsafe_in_title(c));
        assert(stripped(Seq::<char>::empty()) =~= Seq::empty());
        assert(stripped(seq![c]) =~= Seq::empty());
        assert(stripped(a) + Seq::<char>::empty() =~= stripped(a));
        assert(stripped(raw@) == stripped(without@));
    }
    crate::pane_title::sanitizing_is_final(raw@);
    assert forall|i: int| 0 <= i < r@.len() implies !must_go(#[trigger] r@[i]) by {
        assert(!unsafe_in_title(sanitized(raw@)[i]));
    }
}

/// A text that fits stays whole. One that does not fills the room exactly, and an ellipsis
/// stands where the rest was: behind how the text begins, or before how it ends.
pub proof fn a_cut_shows_where_it_is(text: &str, avail: usize, keep: Keep, r: String)
    requires
        call_ensures(fit, (text, avail, keep), r),
    ensures
        text@.len() <= avail ==> r@ == text@,
        text@.len() > avail ==> r@.len() == avail,
        text@.len() > avail > 0 && keep == Keep::Head ==> r@ == text@.take(avail - 1).push('…'),
        text@.len() > avail > 0 && keep == Keep::Tail ==> r@ == seq!['…'] + text@.skip(text@.len() - avail + 1),
{
    if text@.len() > avail > 0 {
        if keep == Keep::Head {
            assert(r@ =~= text@.take(avail - 1).push('…'));
        } else {
            assert(r@ =~= seq!['…'] + text@.skip(text@.len() - avail + 1));
        }
    }
}

proof fn lemma_slashes(s: Seq<char>, end: int)
    requires
        0 <= end <= s.len(),
        forall|i: int| end <= i < s.len() ==> #[trigger] s[i] == '/',
        end > 0 ==> s[end - 1] != '/',
    ensures
        without_slashes(s) == s.take(end),
    decreases s.len(),
{
    if end < s.len() {
        let t = s.drop_last();
        assert forall|i: int| end <= i < t.len() implies #[trigger] t[i] == '/' by {
            assert(t[i] == s[i]);
        }
        lemma_slashes(t, end);
        assert(t.take(end) =~= s.take(end));
    } else {
        assert(s.take(end) =~= s);
    }
}

proof fn lemma_component(s: Seq<char>, from: int)
    requires
        0 <= from <= s.len(),
        forall|i: int| from <= i < s.len() ==> #[trigger] s[i] != '/',
        from > 0 ==> s[from - 1] == '/',
    ensures
        last_component(s) == s.skip(from),
    decreases s.len(),
{
    if from == s.len() {
        assert(s.skip(from) =~= Seq::<char>::empty());
    } else {
        let t = s.drop_last();
        assert(s[s.len() - 1] != '/');
        assert forall|i: int| from <= i < t.len() implies #[trigger] t[i] != '/' by {
            assert(t[i] == s[i]);
        }
        lemma_component(t, from);
        assert(s.skip(from) =~= t.skip(from).push(s.last()));
    }
}

/// A directory is shown by its own name: what stands behind the last slash, those at the end
/// aside. The root is shown as it is.
pub proof fn a_directory_is_shown_by_its_own_name(cwd: &str, r: Option<String>, from: int, end: int)
    requires
        call_ensures(dir_label, (cwd,), r),
        0 <= from <= end <= cwd@.len(),
        forall|i: int| end <= i < cwd@.len() ==> #[trigger] cwd@[i] == '/',
        forall|i: int| from <= i < end ==> #[trigger] cwd@[i] != '/',
        from > 0 ==> cwd@[from - 1] == '/',
    ensures
        cwd@.len() == 0 ==> r is None,
        from < end ==> r is Some && r->0@ == cwd@.subrange(from, end),
        end == 0 && cwd@.len() > 0 ==> r is Some && r->0@ == seq!['/'],
{
    if from < end {
        assert(cwd@[end - 1] != '/');
        lemma_slashes(cwd@, end);
        let s = cwd@.take(end);
        assert forall|i: int| from <= i < s.len() implies #[trigger] s[i] != '/' by {
            assert(s[i] == cwd@[i]);
        }
        lemma_component(s, from);
        assert(s.skip(from) =~= cwd@.subrange(from, end));
    } else if end == 0 && cwd@.len() > 0 {
        lemma_slashes(cwd@, 0);
    }
}

/// Joined parts are as wide as they are together, and three cells more for each place where
/// two meet.
pub proof fn a_join_grows_by_its_parts(shorter: &Vec<String>, parts: &Vec<String>, p: String, m: u128, n: u128)
    requires
        call_ensures(join_len, (shorter,), m),
        call_ensures(join_len, (parts,), n),
        parts@ == shorter@.push(p),
        n < u128::MAX,
    ensures
        shorter@.len() == 0 ==> m == 0 && n == p@.len(),
        shorter@.len() > 0 ==> n == m + 3 + p@.len(),
{
    let a = views(shorter@);
    let b = views(parts@);
    assert(b.len() == a.len() + 1);
    assert(b.drop_last() =~= a);
    assert(b.last() == p@);
}

/// With room for all of it a title gives the directory, the program and the size, in this
/// order, a dash between them; what is not known is left out. With less room the size goes
/// first, and then the program.
pub proof fn a_title_gives_directory_program_and_size(
    facts: &ProcFacts,
    cols: usize,
    rows: usize,
    avail: usize,
    r: Option<String>,
    dir: Option<String>,
    cwd: &str,
)
    requires
        call_ensures(derived, (facts, cols, rows, avail), r),
        facts.cwd is Some,
        cwd@ == facts.cwd->0@,
        call_ensures(dir_label, (cwd,), dir),
        dir is Some,
    ensures
        r is Some,
        ({
            let size = numeral(cols as nat) + seq!['x'] + numeral(rows as nat);
            let dash = seq![' ', '—', ' '];
            let d = dir->0@;
            let named = facts.name is Some && facts.name->0@.len() > 0;
            let n = facts.name->0@;
            let short = d + dash + size;
            let two = d + dash + n;
            let all = two + dash + size;
            &&& named && all.len() <= avail ==> r->0@ == all
            &&& named && all.len() > avail && two.len() <= avail ==> r->0@ == two
            &&& named && two.len() > avail && d.len() <= avail ==> r->0@ == d
            &&& !named && short.len() <= avail ==> r->0@ == short
            &&& !named && short.len() > avail && d.len() <= avail ==> r->0@ == d
            &&& d.len() > avail > 0 ==> r->0@ == d.take(avail - 1).push('…')
        }),
{
    let size = numeral(cols as nat) + seq!['x'] + numeral(rows as nat);
    let d = dir->0@;
    let known = crate::pane_title::known_dir(*facts);
    assert(known == Some(d));
    let name = crate::pane_title::known_name(*facts);
    let parts = crate::pane_title::title_parts(known, name, cols as nat, rows as nat);
    assert(crate::pane_title::grid_label(cols as nat, rows as nat) =~= size);
    reveal_with_fuel(joined, 4);
    reveal_with_fuel(crate::pane_title::parts_kept, 4);
    if name is Some {
        let n = name->0;
        assert(parts =~= seq![d, n, size]);
        assert(parts.drop_last() =~= seq![d, n]);
        assert(parts.drop_last().drop_last() =~= seq![d]);
        assert(joined(seq![d]) == d);
        assert(joined(seq![d, n]) =~= d + seq![' ', '—', ' '] + n);
        assert(joined(parts) =~= d + seq![' ', '—', ' '] + n + seq![' ', '—', ' '] + size);
    } else {
        assert(parts =~= seq![d, size]);
        assert(parts.drop_last() =~= seq![d]);
        assert(joined(seq![d]) == d);
        assert(joined(parts) =~= d + seq![' ', '—', ' '] + size);
    }
    if d.len() > avail > 0 {
        assert(d.take(avail - 1) + seq!['…'] =~= d.take(avail - 1).push('…'));
    }
}

/// A program without a known directory is named; where neither is known there is no title.
pub proof fn a_title_names_the_program_alone(facts: &ProcFacts, cols: usize, rows: usize, avail: usize, r: Option<String>)
    requires
        call_ensures(derived, (facts, cols, rows, avail), r),
        facts.cwd is None,
    ensures
        ({
            let named = facts.name is Some && facts.name->0@.len() > 0;
            let n = facts.name->0@;
            let all = n + seq![' ', '—', ' '] + (numeral(cols as nat) + seq!['x'] + numeral(rows as nat));
            &&& r is Some <==> named
            &&& named && all.len() <= avail ==> r->0@ == all
            &&& named && n.len() <= avail < all.len() ==> r->0@ == n
        }),
{
    let size = numeral(cols as nat) + seq!['x'] + numeral(rows as nat);
    let name = crate::pane_title::known_name(*facts);
    let parts = crate::pane_title::title_parts(None, name, cols as nat, rows as nat);
    assert(crate::pane_title::grid_label(cols as nat, rows as nat) =~= size);
    reveal_with_fuel(joined, 3);
    reveal_with_fuel(crate::pane_title::parts_kept, 3);
    if name is Some {
        let n = name->0;
        assert(parts =~= seq![n, size]);
        assert(parts.drop_last() =~= seq![n]);
        assert(joined(seq![n]) == n);
        assert(joined(parts) =~= n + seq![' ', '—', ' '] + size);
    }
}

/// A title describes the shell itself where it has no child or several, and else a process
/// below its only child.
pub proof fn a_title_describes_the_only_child<F: FnMut(u32) -> Vec<u32>>(root: u32, children: F, r: u32)
    requires
        call_ensures(describing_pid::<F>, (root, children), r),
    ensures
        r != root ==> exists|kids: Vec<u32>| #[trigger] call_ensures(children, (root,), kids) && kids@.len() == 1,
        r == root ==> exists|kids: Vec<u32>| #[trigger]
            call_ensures(children, (root,), kids) && (kids@.len() != 1 || kids@[0] == root),
{
    let chain = choose|chain: Seq<u32>| #[trigger]
        only_child_chain(children, root, chain) && chain.last() == r && chain.len() <= 9 && (chain.len() == 9
            || chain_ends(children, chain));
    if r != root {
        assert(chain.len() > 1);
        let first = 0int;
        assert(only_child(children, chain[first], chain[first + 1]));
        let kids = choose|kids: Vec<u32>| #[trigger]
            call_ensures(children, (chain[first],), kids) && kids@ == seq![chain[first + 1]];
        assert(call_ensures(children, (root,), kids) && kids@.len() == 1);
    } else {
        if chain.len() > 1 {
            assert(chain[0] == chain[chain.len() - 1]);
            assert(false);
        }
        let kids = choose|kids: Vec<u32>| #[trigger]
            call_ensures(children, (chain.last(),), kids) && (kids@.len() != 1 || chain.contains(kids@[0]));
        assert(call_ensures(children, (root,), kids));
        if kids@.len() == 1 {
            let i = choose|i: int| 0 <= i < chain.len() && chain[i] == kids@[0];
        }
    }
}

/// Only a positive number of 31 bits names a process.
pub proof fn processes_have_positive_numbers(pid: u32, r: bool)
    requires
        call_ensures(pid_in_range, (pid,), r),
    ensures
        r <==> 1 <= pid <= 2_147_483_647,
{
}

/// The system is asked about processes alone, and what it answers is shown as cleaning it
/// leaves it: without the white space round a program's name; nothing, where nothing is left.
pub proof fn what_the_system_says_is_cleaned<Q: FnOnce(u32) -> Option<String>>(
    pid: u32,
    where_is: Q,
    what_is: Q,
    dir: Option<String>,
    name: Option<String>,
)
    requires
        call_ensures(cwd_of::<Q>, (pid, where_is), dir),
        call_ensures(name_of::<Q>, (pid, what_is), name),
    ensures
        pid == 0 || pid > 2_147_483_647 ==> dir is None && name is None,
        dir is Some ==> dir->0@.len() > 0 && exists|raw: String| #[trigger]
            call_ensures(where_is, (pid,), Some(raw)) && dir->0@ == sanitized(raw@),
        name is Some ==> name->0@.len() > 0 && exists|raw: String| #[trigger]
            call_ensures(what_is, (pid,), Some(raw)) && name->0@ == sanitized(crate::text::trimmed(raw@)),
        1 <= pid <= 2_147_483_647 && dir is None ==> exists|raw: Option<String>| #[trigger]
            call_ensures(where_is, (pid,), raw) && (raw is Some ==> sanitized(raw->0@).len() == 0),
{
    if dir is Some {
        let raw = choose|raw: Option<String>| #[trigger]
            call_ensures(where_is, (pid,), raw) && crate::text::text_view(dir)
                == crate::proc_info::directory_answer(raw);
        assert(call_ensures(where_is, (pid,), Some(raw->0)));
    }
    if name is Some {
        let raw = choose|raw: Option<String>| #[trigger]
            call_ensures(what_is, (pid,), raw) && crate::text::text_view(name)
                == crate::proc_info::program_answer(raw);
        assert(call_ensures(what_is, (pid,), Some(raw->0)));
    }
}

/// A process is gone only where the kernel says that there is no such process; success, and
/// every other failure, means that it lives.
pub proof fn only_no_such_process_means_gone(answer: Result<(), Option<i32>>, r: Liveness)
    requires
        call_ensures(liveness_from, (answer,), r),
    ensures
        answer is Ok ==> r == Liveness::Alive,
        answer is Err ==> (r == Liveness::Gone <==> answer->Err_0 == Some(3i32)),
{
}

/// What can be no process is never asked about, and never called gone; any other is what the
/// kernel's answer says of it.
pub proof fn a_probe_believes_the_kernel<K: FnOnce(i32) -> Result<(), Option<i32>>>(pid: u32, kill: K, r: Liveness)
    requires
        call_ensures(probe::<K>, (pid, kill), r),
    ensures
        pid == 0 || pid > 2_147_483_647 ==> r == Liveness::Alive,
        r == Liveness::Gone ==> exists|a: Result<(), Option<i32>>| #[trigger]
            call_ensures(kill, (pid as i32,), a) && a is Err && a->Err_0 == Some(3i32),
        1 <= pid <= 2_147_483_647 && r == Liveness::Alive ==> exists|a: Result<(), Option<i32>>| #[trigger]
            call_ensures(kill, (pid as i32,), a) && (a is Err ==> a->Err_0 != Some(3i32)),
{
}

/// A directory is taken back only from another process that is gone.
pub proof fn only_the_gone_lose_their_directory<K: FnOnce(i32) -> Result<(), Option<i32>>>(
    pid: u32,
    me: u32,
    liveness: Liveness,
    r: bool,
    kill: K,
    s: bool,
)
    requires
        call_ensures(should_reclaim, (pid, me, liveness), r),
        call_ensures(should_reclaim_pid::<K>, (pid, me, kill), s),
    ensures
        r <==> pid != me && liveness == Liveness::Gone,
        s ==> pid != me && 1 <= pid <= 2_147_483_647 && exists|a: Result<(), Option<i32>>| #[trigger]
            call_ensures(kill, (pid as i32,), a) && a is Err && a->Err_0 == Some(3i32),
{
}

proof fn lemma_bracket(s: Seq<char>, i: int)
    requires
        0 <= i < s.len(),
        s[i] == ')',
        forall|k: int| i < k < s.len() ==> #[trigger] s[k] != ')',
    ensures
        crate::proc_stat::last_bracket(s) == Some(i),
    decreases s.len(),
{
    if i < s.len() - 1 {
        assert(s[s.len() - 1] != ')');
        let t = s.drop_last();
        assert forall|k: int| i < k < t.len() implies #[trigger] t[k] != ')' by {
            assert(t[k] == s[k]);
        }
        lemma_bracket(t, i);
    }
}

/// The time that a process has used is the sum of the twelfth and the thirteenth word behind
/// its name, which ends at the last bracket; a word that is no number counts for nothing.
pub proof fn the_time_used_stands_behind_the_name(
    content: &str,
    r: u128,
    i: int,
    v: &Vec<char>,
    w: Vec<String>,
    user: &str,
    system: &str,
    a: Option<u64>,
    b: Option<u64>,
)
    requires
        call_ensures(ticks_in, (content,), r),
        0 <= i < content@.len(),
        content@[i] == ')',
        forall|k: int| i < k < content@.len() ==> #[trigger] content@[k] != ')',
        v@ == content@.skip(i + 1),
        call_ensures(split_words, (v, 0usize), w),
        w@.len() >= 13 ==> user@ == w@[11]@ && system@ == w@[12]@,
        call_ensures(parse_number, (user, u64::MAX), a),
        call_ensures(parse_number, (system, u64::MAX), b),
    ensures
        w@.len() < 13 ==> r == 0,
        w@.len() >= 13 ==> r == (if a is Some { a->0 as int } else { 0 }) + (if b is Some { b->0 as int } else { 0 }),
{
    lemma_bracket(content@, i);
    assert(v@.skip(0) =~= v@);
    assert(views(w@).len() == w@.len());
    if w@.len() >= 13 {
        assert(views(w@)[11] == w@[11]@);
        assert(views(w@)[12] == w@[12]@);
    }
}

proof fn lemma_pids(w: Seq<Seq<char>>, p: u32)
    ensures
        pids_among(w).contains(p) <==> exists|i: int|
            0 <= i < w.len() && crate::text::whole_number(#[trigger] w[i], u32::MAX as nat) == Some(p as nat),
    decreases w.len(),
{
    if w.len() > 0 {
        let t = w.drop_last();
        lemma_pids(t, p);
        let before = pids_among(t);
        let all = pids_among(w);
        if all.contains(p) {
            let k = choose|k: int| 0 <= k < all.len() && all[k] == p;
            if k < before.len() {
                assert(before[k] == p);
                let i = choose|i: int|
                    0 <= i < t.len() && crate::text::whole_number(#[trigger] t[i], u32::MAX as nat) == Some(
                        p as nat,
                    );
                assert(w[i] == t[i]);
            } else {
                assert(w[w.len() - 1] == w.last());
            }
        }
        if exists|i: int|
            0 <= i < w.len() && crate::text::whole_number(#[trigger] w[i], u32::MAX as nat) == Some(p as nat) {
            let i = choose|i: int|
                0 <= i < w.len() && crate::text::whole_number(#[trigger] w[i], u32::MAX as nat) == Some(p as nat);
            if i < t.len() {
                assert(t[i] == w[i]);
                let k = choose|k: int| 0 <= k < before.len() && before[k] == p;
                assert(all[k] == p);
            } else {
                assert(all[before.len() as int] == p);
            }
        }
    }
}

/// The children of a process are the numbers among the words of its list, each of them.
pub proof fn children_are_the_numbers_listed(kids: &str, r: Vec<u32>, p: u32, v: &Vec<char>, w: Vec<String>)
    requires
        call_ensures(pids_in, (kids,), r),
        v@ == kids@,
        call_ensures(split_words, (v, 0usize), w),
    ensures
        r@.contains(p) <==> exists|i: int|
            0 <= i < w@.len() && crate::text::whole_number((#[trigger] w@[i])@, u32::MAX as nat) == Some(p as nat),
        r@.len() <= w@.len(),
{
    assert(v@.skip(0) =~= v@);
    let all = words(kids@);
    lemma_pids(all, p);
    lemma_pids_len(all);
    assert(all.len() == w@.len());
    if r@.contains(p) {
        let i = choose|i: int|
            0 <= i < all.len() && crate::text::whole_number(#[trigger] all[i], u32::MAX as nat) == Some(p as nat);
        assert(all[i] == w@[i]@);
    }
    if exists|i: int|
        0 <= i < w@.len() && crate::text::whole_number((#[trigger] w@[i])@, u32::MAX as nat) == Some(p as nat) {
        let i = choose|i: int|
            0 <= i < w@.len() && crate::text::whole_number((#[trigger] w@[i])@, u32::MAX as nat) == Some(p as nat);
        assert(all[i] == w@[i]@);
    }
}

proof fn lemma_pids_len(w: Seq<Seq<char>>)
    ensures
        pids_among(w).len() <= w.len(),
    decreases w.len(),
{
    if w.len() > 0 {
        lemma_pids_len(w.drop_last());
    }
}

proof fn lemma_total_has_first(visits: Seq<Visit>)
    requires
        visits.len() > 0,
    ensures
        total_ticks(visits) >= crate::proc_stat::visit_ticks(visits[0]),
        visits.len() == 1 ==> total_ticks(visits) == crate::proc_stat::visit_ticks(visits[0]),
    decreases visits.len(),
{
    reveal_with_fuel(total_ticks, 2);
    if visits.len() > 1 {
        lemma_total_has_first(visits.drop_last());
        assert(visits.drop_last()[0] == visits[0]);
    }
}

/// The time of a tree of processes is at least that of its root, and exactly that where the
/// root has no list of children.
pub proof fn a_tree_has_used_what_its_root_has<S: FnMut(u32) -> Option<String>, C: FnMut(u32) -> Option<String>>(
    root: u32,
    stat: S,
    children: C,
    r: u128,
)
    requires
        call_ensures(subtree_cpu_ticks::<S, C>, (root, stat, children), r),
    ensures
        exists|content: Option<String>, kids: Option<String>| #[trigger]
            call_ensures(stat, (root,), content) && #[trigger] call_ensures(children, (root,), kids) && {
                let own = match content {
                    Some(c) => crate::proc_stat::stat_ticks(c@),
                    None => 0,
                };
                r >= own && (kids is None ==> r == own)
            },
{
    let visits = choose|visits: Seq<Visit>| #[trigger]
        walked(root, visits, stat, children) && r == total_ticks(visits) && visits.len() <= 4096 && (to_visit(
            root,
            visits,
        ).len() == 0 || visits.len() == 4096);
    assert(visits.len() > 0) by {
        if visits.len() == 0 {
            assert(to_visit(root, visits) == seq![root]);
        }
    }
    assert(visit_fits(root, visits, 0, stat, children));
    assert(visits.take(0) =~= Seq::empty());
    assert(to_visit(root, visits.take(0)) == seq![root]);
    assert(visits[0].pid == root);
    lemma_total_has_first(visits);
    if visits[0].kids is None && visits.len() > 1 {
        assert(visit_fits(root, visits, 1, stat, children));
        let first = visits.take(1);
        assert(first.drop_last() =~= Seq::empty());
        assert(first.last() == visits[0]);
        assert(to_visit(root, first.drop_last()) == seq![root]);
        assert(to_visit(root, first) =~= Seq::empty());
    }
    assert(call_ensures(stat, (root,), visits[0].stat));
    assert(call_ensures(children, (root,), visits[0].kids));
}

proof fn lemma_memory(l: Seq<Seq<char>>)
    ensures
        match memory_among(l) {
            Some(kb) => exists|i: int| 0 <= i < l.len() && memory_line(#[trigger] l[i]) == Some(kb) && forall|k: int|
                0 <= k < i ==> memory_line(#[trigger] l[k]) is None,
            None => forall|k: int| 0 <= k < l.len() ==> memory_line(#[trigger] l[k]) is None,
        },
    decreases l.len(),
{
    if l.len() > 0 && memory_line(l[0]) is None {
        let t = l.skip(1);
        lemma_memory(t);
        match memory_among(t) {
            Some(kb) => {
                let i = choose|i: int|
                    0 <= i < t.len() && memory_line(#[trigger] t[i]) == Some(kb) && forall|k: int|
                        0 <= k < i ==> memory_line(#[trigger] t[k]) is None;
                assert(l[i + 1] == t[i]);
                assert forall|k: int| 0 <= k < i + 1 implies memory_line(#[trigger] l[k]) is None by {
                    if k > 0 {
                        assert(t[k - 1] == l[k]);
                    }
                }
            },
            None => {
                assert forall|k: int| 0 <= k < l.len() implies memory_line(#[trigger] l[k]) is None by {
                    if k > 0 {
                        assert(t[k - 1] == l[k]);
                    }
                }
            },
        }
    }
}

/// The memory of the machine is 1024 times the first number behind `MemTotal:`, on the first
/// line that gives one; without such a line it is not known.
pub proof fn the_memory_stands_on_its_line(
    content: &str,
    r: u128,
    l: Vec<String>,
    i: int,
    v: &Vec<char>,
    w: Vec<String>,
    first: &str,
    kb: Option<u64>,
)
    requires
        call_ensures(total_ram_bytes, (Some(content),), r),
        call_ensures(split_lines, (content,), l),
        0 <= i < l@.len(),
        l@[i]@.len() >= 9,
        l@[i]@.take(9) == seq!['M', 'e', 'm', 'T', 'o', 't', 'a', 'l', ':'],
        forall|k: int|
            0 <= k < i ==> (#[trigger] l@[k])@.len() < 9 || l@[k]@.take(9) != seq![
                'M',
                'e',
                'm',
                'T',
                'o',
                't',
                'a',
                'l',
                ':',
            ],
        v@ == l@[i]@.skip(9),
        call_ensures(split_words, (v, 0usize), w),
        w@.len() > 0,
        first@ == w@[0]@,
        call_ensures(parse_number, (first, u64::MAX), kb),
        kb is Some,
    ensures
        r == kb->0 * 1024,
{
    let all = views(l@);
    reveal_strlit("MemTotal:");
    assert("MemTotal:"@ =~= seq!['M', 'e', 'm', 'T', 'o', 't', 'a', 'l', ':']);
    lemma_memory(all);
    assert(v@.skip(0) =~= v@);
    assert(views(w@)[0] == w@[0]@);
    assert(all[i] == l@[i]@);
    assert("MemTotal:"@.is_prefix_of(all[i])) by {
        assert(all[i].subrange(0, 9) =~= "MemTotal:"@);
    }
    assert(memory_line(all[i]) == Some(kb->0 as nat));
    let found = memory_among(all);
    assert(found is Some) by {
        if found is None {
            assert(memory_line(all[i]) is None);
        }
    }
    let j = choose|j: int|
        0 <= j < all.len() && memory_line(#[trigger] all[j]) == Some(found->0) && forall|k: int|
            0 <= k < j ==> memory_line(#[trigger] all[k]) is None;
    if j < i {
        assert(all[j] == l@[j]@);
        assert(l@[j]@.take(9) =~= "MemTotal:"@);
    }
    if i < j {
        assert(memory_line(all[i]) is None);
    }
}

} // verus!

//! What a pane's titlebar says, and how it is cut down to fit.
//!
//! Two questions. What does a pane say that no program has titled? [`derived`]
//! builds `<dir> — <program> — <cols>x<rows>`. And what is dropped when a title
//! does not fit? [`fit`] keeps the end that tells panes apart.
//!
//! A title is whatever bytes a program printed, and a directory name is barely
//! better. [`sanitize`] is the one door: it strips control characters and bidi
//! overrides, and bounds the length before any of it reaches layout.
use std::borrow::Cow;
use vstd::prelude::*;
use vstd::string::*;
use crate::text::{control, is_control, numeral, push_number, text_view, views};

verus! {

broadcast use vstd::string::group_string_axioms;

/// Hard cap on a title, in characters: what a program can hand over, not what a
/// pane has room for.
pub const MAX_CHARS: usize = 256;

/// How deep [`describing_pid`] will follow a chain of single children.
pub const MAX_DEPTH: usize = 8;

/// Which end of an over-long string survives [`fit`].
#[derive(Clone, Copy, Debug, PartialEq, Eq, Structural)]
pub enum Keep {
    /// Keep the start, ellipsis at the end.
    Head,
    /// Keep the end, ellipsis at the start: for paths, which share their head.
    Tail,
}

/// What the operating system was able to say about the process a title describes.
#[derive(Clone, Debug, Default, PartialEq, Eq)]
pub struct ProcFacts {
    /// Absolute working directory.
    pub cwd: Option<String>,
    /// Program name.
    pub name: Option<String>,
}

/// The characters a title may not carry: controls, and the bidi marks, overrides
/// and isolates, which make a path display as one that it is not.
pub open spec fn unsafe_in_title(c: char) -> bool {
    control(c) || c == '\u{200E}' || c == '\u{200F}' || ('\u{202A}' <= c && c <= '\u{202E}') || (
    '\u{2066}' <= c && c <= '\u{2069}')
}

/// `raw` without the characters a title may not carry.
pub open spec fn stripped(raw: Seq<char>) -> Seq<char> {
    raw.filter(|c: char| !unsafe_in_title(c))
}

/// The first `n` characters of `s`, or all of them where there are fewer.
pub open spec fn at_most(s: Seq<char>, n: nat) -> Seq<char> {
    if s.len() <= n {
        s
    } else {
        s.take(n as int)
    }
}

/// What [`sanitize`] makes of `raw`.
pub open spec fn sanitized(raw: Seq<char>) -> Seq<char> {
    at_most(stripped(raw), MAX_CHARS as nat)
}

/// The ellipsis that marks a cut.
pub open spec fn ellipsis() -> Seq<char> {
    seq!['…']
}

/// `text` cut to `avail` cells.
pub open spec fn fitted(text: Seq<char>, avail: nat, keep: Keep) -> Seq<char> {
    if text.len() <= avail {
        text
    } else if avail == 0 {
        Seq::empty()
    } else {
        match keep {
            Keep::Head => text.take(avail - 1) + ellipsis(),
            Keep::Tail => ellipsis() + text.skip(text.len() - (avail - 1)),
        }
    }
}

fn bad(c: char) -> (r: bool)
    ensures
        r == unsafe_in_title(c),
{
    is_control(c) || c == '\u{200E}' || c == '\u{200F}' || ('\u{202A}' <= c && c <= '\u{202E}') || (
    '\u{2066}' <= c && c <= '\u{2069}')
}

proof fn lemma_stripped_push(s: Seq<char>, c: char)
    ensures
        stripped(s.push(c)) == if unsafe_in_title(c) {
            stripped(s)
        } else {
            stripped(s).push(c)
        },
{
    reveal(Seq::filter);
    assert(s.push(c).drop_last() =~= s);
}

proof fn lemma_stripped_clean(s: Seq<char>)
    requires
        forall|i: int| 0 <= i < s.len() ==> !unsafe_in_title(#[trigger] s[i]),
    ensures
        stripped(s) == s,
    decreases s.len(),
{
    reveal(Seq::filter);
    if s.len() > 0 {
        lemma_stripped_clean(s.drop_last());
        lemma_stripped_push(s.drop_last(), s.last());
        assert(s.drop_last().push(s.last()) =~= s);
    }
}

proof fn lemma_stripped_len(s: Seq<char>)
    ensures
        stripped(s).len() <= s.len(),
        forall|i: int| 0 <= i < stripped(s).len() ==> !unsafe_in_title(#[trigger] stripped(s)[i]),
        stripped(s).len() == s.len() ==> forall|i: int|
            0 <= i < s.len() ==> !unsafe_in_title(#[trigger] s[i]),
    decreases s.len(),
{
    reveal(Seq::filter);
    if s.len() > 0 {
        lemma_stripped_len(s.drop_last());
        lemma_stripped_push(s.drop_last(), s.last());
        assert(s.drop_last().push(s.last()) =~= s);
        if stripped(s).len() == s.len() {
            assert forall|i: int| 0 <= i < s.len() implies !unsafe_in_title(#[trigger] s[i]) by {
                if i < s.len() - 1 {
                    assert(s[i] == s.drop_last()[i]);
                }
            }
        }
    }
}

/// Strip what must never reach the draw path, and bound the length. An ordinary
/// title comes back borrowed: the clean case allocates nothing.
pub fn sanitize(raw: &str) -> (r: Cow<'_, str>)
    ensures
        r@ == sanitized(raw@),
        r is Borrowed <==> sanitized(raw@) == raw@,
{
    let mut clean: bool = raw.unicode_len() <= MAX_CHARS;
    for c in it: raw.chars()
        invariant
            it.seq() == raw@,
            clean <==> raw@.len() <= MAX_CHARS && forall|i: int|
                0 <= i < it.index() ==> !unsafe_in_title(#[trigger] raw@[i]),
    {
        if bad(c) {
            clean = false;
        }
    }
    proof {
        lemma_stripped_len(raw@);
    }
    if clean {
        proof {
            lemma_stripped_clean(raw@);
        }
        return Cow::Borrowed(raw);
    }
    let mut out: String = String::new();
    let mut kept: usize = 0;
    for c in it: raw.chars()
        invariant
            it.seq() == raw@,
            out@ == at_most(stripped(raw@.take(it.index() as int)), MAX_CHARS as nat),
            kept == out@.len(),
            kept <= MAX_CHARS,
    {
        let ghost before = raw@.take(it.index() as int);
        assert(raw@.take(it.index() + 1) =~= before.push(c));
        proof {
            lemma_stripped_push(before, c);
        }
        if !bad(c) && kept < MAX_CHARS {
            out.push(c);
            kept = kept + 1;
        }
    }
    assert(raw@.take(raw@.len() as int) =~= raw@);
    Cow::Owned(out)
}

/// Cut `text` to at most `avail` cells, keeping the end [`Keep`] names and marking
/// the cut with `…`. With no cell at all nothing is left; with one, a bare ellipsis.
pub fn fit(text: &str, avail: usize, keep: Keep) -> (r: String)
    ensures
        r@ == fitted(text@, avail as nat, keep),
        r@.len() <= avail,
{
    if avail == 0 {
        return String::new();
    }
    let n: usize = text.unicode_len();
    if n <= avail {
        return text.to_string();
    }
    let keep_n: usize = avail - 1;
    match keep {
        Keep::Head => {
            let mut s: String = text.substring_char(0, keep_n).to_string();
            s.push('…');
            assert(s@ =~= text@.take(keep_n as int) + ellipsis());
            s
        },
        Keep::Tail => {
            let mut s: String = String::new();
            s.push('…');
            s.append(text.substring_char(n - keep_n, n));
            assert(s@ =~= ellipsis() + text@.skip(n - keep_n));
            s
        },
    }
}

/// `s` without the slashes at its end.
pub open spec fn without_slashes(s: Seq<char>) -> Seq<char>
    decreases s.len(),
{
    if s.len() > 0 && s.last() == '/' {
        without_slashes(s.drop_last())
    } else {
        s
    }
}

/// What follows the last slash of `s`: all of it, where it has none.
pub open spec fn last_component(s: Seq<char>) -> Seq<char>
    decreases s.len(),
{
    if s.len() == 0 || s.last() == '/' {
        Seq::empty()
    } else {
        last_component(s.drop_last()).push(s.last())
    }
}

/// The label of a working directory.
pub open spec fn directory_label(cwd: Seq<char>) -> Option<Seq<char>> {
    if cwd.len() == 0 {
        None
    } else if without_slashes(cwd).len() == 0 {
        Some(seq!['/'])
    } else {
        Some(last_component(without_slashes(cwd)))
    }
}

proof fn lemma_component_is_suffix(s: Seq<char>, from: int)
    requires
        0 <= from <= s.len(),
        forall|i: int| from <= i < s.len() ==> s[i] != '/',
        from > 0 ==> s[from - 1] == '/',
    ensures
        last_component(s) == s.skip(from),
    decreases s.len(),
{
    if from == s.len() {
        assert(s.skip(from) =~= Seq::<char>::empty());
    } else {
        assert forall|i: int| from <= i < s.drop_last().len() implies s.drop_last()[i] != '/' by {
            assert(s.drop_last()[i] == s[i]);
        }
        lemma_component_is_suffix(s.drop_last(), from);
        assert(s.skip(from) =~= s.drop_last().skip(from).push(s.last()));
    }
}

/// The label for a working directory: its last path component. A trailing slash is
/// no component, `/` labels itself, and an empty path has no label.
pub fn dir_label(cwd: &str) -> (r: Option<String>)
    ensures
        text_view(r) == directory_label(cwd@),
{
    let n: usize = cwd.unicode_len();
    if n == 0 {
        return None;
    }
    let mut end: usize = n;
    assert(cwd@.take(n as int) =~= cwd@);
    while end > 0 && cwd.get_char(end - 1) == '/'
        invariant
            end <= n,
            n == cwd@.len(),
            without_slashes(cwd@.take(end as int)) == without_slashes(cwd@),
        ensures
            without_slashes(cwd@) == cwd@.take(end as int),
            end > 0 ==> cwd@[end - 1] != '/',
        decreases end,
    {
        assert(cwd@.take(end as int).drop_last() =~= cwd@.take(end - 1));
        end = end - 1;
    }
    if end == 0 {
        let mut s: String = String::new();
        s.push('/');
        assert(s@ =~= seq!['/']);
        return Some(s);
    }
    let mut from: usize = end - 1;
    while from > 0 && cwd.get_char(from - 1) != '/'
        invariant
            from < end <= n,
            n == cwd@.len(),
            forall|i: int| from <= i < end ==> cwd@[i] != '/',
        ensures
            from > 0 ==> cwd@[from - 1] == '/',
        decreases from,
    {
        from = from - 1;
    }
    proof {
        lemma_component_is_suffix(cwd@.take(end as int), from as int);
        assert(cwd@.take(end as int).skip(from as int) =~= cwd@.subrange(from as int, end as int));
    }
    Some(cwd.substring_char(from, end).to_string())
}

/// The separator between the parts of a derived title: a spaced em dash.
pub open spec fn separator() -> Seq<char> {
    seq![' ', '—', ' ']
}

/// `parts` joined by the separator.
pub open spec fn joined(parts: Seq<Seq<char>>) -> Seq<char>
    decreases parts.len(),
{
    if parts.len() == 0 {
        Seq::empty()
    } else if parts.len() == 1 {
        parts[0]
    } else {
        joined(parts.drop_last()) + separator() + parts.last()
    }
}

/// The parts that stay in a title of `avail` cells: whole parts are dropped from the
/// right until what is left fits, and the first is never dropped.
pub open spec fn parts_kept(parts: Seq<Seq<char>>, avail: nat) -> Seq<Seq<char>>
    decreases parts.len(),
{
    if parts.len() <= 1 || joined(parts).len() <= avail {
        parts
    } else {
        parts_kept(parts.drop_last(), avail)
    }
}

/// The grid size as a title shows it.
pub open spec fn grid_label(cols: nat, rows: nat) -> Seq<char> {
    numeral(cols) + seq!['x'] + numeral(rows)
}

/// The parts of a derived title, the one worth most first.
pub open spec fn title_parts(
    dir: Option<Seq<char>>,
    name: Option<Seq<char>>,
    cols: nat,
    rows: nat,
) -> Seq<Seq<char>> {
    let size = grid_label(cols, rows);
    match (dir, name) {
        (Some(d), Some(n)) => seq![d, n, size],
        (Some(d), None) => seq![d, size],
        (None, Some(n)) => seq![n, size],
        (None, None) => seq![size],
    }
}

/// The directory label among `facts`.
pub open spec fn known_dir(facts: ProcFacts) -> Option<Seq<char>> {
    match facts.cwd {
        Some(cwd) => directory_label(cwd@),
        None => None,
    }
}

/// The program name among `facts`: an empty one is none.
pub open spec fn known_name(facts: ProcFacts) -> Option<Seq<char>> {
    match facts.name {
        Some(name) => if name@.len() == 0 {
            None
        } else {
            Some(name@)
        },
        None => None,
    }
}

/// The title [`derived`] builds.
pub open spec fn derived_title(facts: ProcFacts, cols: nat, rows: nat, avail: nat) -> Option<Seq<char>> {
    let dir = known_dir(facts);
    let name = known_name(facts);
    if dir is None && name is None {
        None
    } else {
        Some(fitted(joined(parts_kept(title_parts(dir, name, cols, rows), avail)), avail, Keep::Head))
    }
}

/// Width in cells of `parts` joined by the separator, without building the string: the
/// width of nothing is nothing, and one that no number holds counts as the greatest.
pub fn join_len(parts: &Vec<String>) -> (n: u128)
    ensures
        n == (if joined(views(parts@)).len() <= u128::MAX {
            joined(views(parts@)).len() as int
        } else {
            u128::MAX as int
        }),
{
    if parts.len() == 0 {
        return 0;
    }
    let mut n: u128 = parts[0].as_str().unicode_len() as u128;
    let mut i: usize = 1;
    let ghost all = views(parts@);
    assert(joined(all.take(1)) =~= all[0]);
    while i < parts.len()
        invariant
            1 <= i <= parts@.len(),
            all == views(parts@),
            n == (if joined(all.take(i as int)).len() <= u128::MAX {
                joined(all.take(i as int)).len() as int
            } else {
                u128::MAX as int
            }),
        decreases parts@.len() - i,
    {
        assert(all.take(i + 1).drop_last() =~= all.take(i as int));
        n = n.saturating_add(parts[i].as_str().unicode_len() as u128 + 3);
        i = i + 1;
    }
    assert(all.take(all.len() as int) =~= all);
    n
}

/// `parts` joined by the separator.
fn join_parts(parts: &Vec<String>) -> (s: String)
    requires
        parts@.len() >= 1,
    ensures
        s@ == joined(views(parts@)),
{
    let mut s: String = parts[0].clone();
    let mut i: usize = 1;
    let ghost all = views(parts@);
    assert(joined(all.take(1)) =~= all[0]);
    while i < parts.len()
        invariant
            1 <= i <= parts@.len(),
            all == views(parts@),
            s@ == joined(all.take(i as int)),
        decreases parts@.len() - i,
    {
        assert(all.take(i + 1).drop_last() =~= all.take(i as int));
        s.push(' ');
        s.push('—');
        s.push(' ');
        s.append(parts[i].as_str());
        i = i + 1;
        assert(s@ =~= joined(all.take(i as int)));
    }
    assert(all.take(all.len() as int) =~= all);
    s
}

/// The title of a pane no program has titled: `<dir> — <program> — <cols>x<rows>`,
/// cut to `avail` cells.
///
/// When it does not fit, whole parts go from the right: the grid size first, then
/// the program. The directory is the whole point; if even that does not fit it is
/// cut, keeping its head. With neither a directory nor a program there is no title.
pub fn derived(facts: &ProcFacts, cols: usize, rows: usize, avail: usize) -> (r: Option<String>)
    ensures
        text_view(r) == derived_title(*facts, cols as nat, rows as nat, avail as nat),
        r is Some ==> r->0@.len() <= avail,
{
    let dir: Option<String> = match &facts.cwd {
        Some(cwd) => dir_label(cwd.as_str()),
        None => None,
    };
    let name: Option<String> = match &facts.name {
        Some(name) => if name.as_str().is_empty() {
            None
        } else {
            Some(name.clone())
        },
        None => None,
    };
    if dir.is_none() && name.is_none() {
        return None;
    }
    let mut size: String = String::new();
    push_number(&mut size, cols as u64);
    size.push('x');
    push_number(&mut size, rows as u64);
    assert(size@ =~= grid_label(cols as nat, rows as nat));
    let ghost all = title_parts(text_view(dir), text_view(name), cols as nat, rows as nat);
    let mut parts: Vec<String> = Vec::new();
    if let Some(d) = dir {
        parts.push(d);
    }
    if let Some(n) = name {
        parts.push(n);
    }
    parts.push(size);
    assert(views(parts@) =~= all);
    while parts.len() > 1 && join_len(&parts) > avail as u128
        invariant
            1 <= parts@.len() <= 3,
            parts_kept(views(parts@), avail as nat) == parts_kept(all, avail as nat),
        ensures
            views(parts@) == parts_kept(all, avail as nat),
        decreases parts@.len(),
    {
        let ghost before = views(parts@);
        parts.pop();
        assert(views(parts@) =~= before.drop_last());
    }
    let whole: String = join_parts(&parts);
    Some(fit(whole.as_str(), avail, Keep::Head))
}

/// `child` is the only child that `parent` was said to have.
pub open spec fn only_child<F: FnMut(u32) -> Vec<u32>>(children: F, parent: u32, child: u32) -> bool {
    exists|kids: Vec<u32>| #[trigger] call_ensures(children, (parent,), kids) && kids@ == seq![child]
}

/// `chain` is a walk down the process tree from `root` in which each process is the
/// only child that the one before it was said to have, and none comes twice.
pub open spec fn only_child_chain<F: FnMut(u32) -> Vec<u32>>(
    children: F,
    root: u32,
    chain: Seq<u32>,
) -> bool {
    &&& chain.len() >= 1
    &&& chain[0] == root
    &&& chain.no_duplicates()
    &&& forall|i: int|
        0 <= i < chain.len() - 1 ==> only_child(children, chain[i], #[trigger] chain[i + 1])
}

/// The walk along `chain` ends at its last process: it was said to have no child, or
/// several, or one that the walk has already met.
pub open spec fn chain_ends<F: FnMut(u32) -> Vec<u32>>(children: F, chain: Seq<u32>) -> bool {
    exists|kids: Vec<u32>| #[trigger]
        call_ensures(children, (chain.last(),), kids) && (kids@.len() != 1 || chain.contains(kids@[0]))
}

/// Whether `x` is among `v`.
fn has(v: &Vec<u32>, x: u32) -> (r: bool)
    ensures
        r == v@.contains(x),
{
    for i in 0..v.len()
        invariant
            forall|k: int| 0 <= k < i ==> v@[k] != x,
    {
        if v[i] == x {
            return true;
        }
    }
    false
}

/// Which process below `root`, the pane's shell, a derived title should describe:
/// follow the chain of children while it is unambiguous, and stop where it forks,
/// where it turns back on itself, or [`MAX_DEPTH`] levels down.
#[verifier::loop_isolation(false)]
pub fn describing_pid<F: FnMut(u32) -> Vec<u32>>(root: u32, mut children: F) -> (r: u32)
    requires
        forall|p: u32| call_requires(children, (p,)),
    ensures
        exists|chain: Seq<u32>| #[trigger]
            only_child_chain(children, root, chain) && chain.last() == r && chain.len() <= MAX_DEPTH + 1
                && (chain.len() == MAX_DEPTH + 1 || chain_ends(children, chain)),
{
    let ghost asked = children;
    let mut pid: u32 = root;
    let mut seen: Vec<u32> = Vec::new();
    seen.push(root);
    let mut level: usize = 0;
    while level < MAX_DEPTH
        invariant
            forall|p: u32| call_requires(children, (p,)),
            children == asked,
            seen@.len() == level + 1,
            level <= MAX_DEPTH,
            pid == seen@.last(),
            only_child_chain(children, root, seen@),
        decreases MAX_DEPTH - level,
    {
        let kids: Vec<u32> = children(pid);
        if kids.len() != 1 {
            assert(chain_ends(children, seen@));
            return pid;
        }
        let only: u32 = kids[0];
        let met: bool = has(&seen, only);
        if met {
            assert(chain_ends(children, seen@));
            return pid;
        }
        let ghost before = seen@;
        seen.push(only);
        proof {
            assert(kids@ =~= seq![only]);
            assert(only_child(children, pid, only));
            assert forall|i: int| 0 <= i < seen@.len() - 1 implies only_child(
                children,
                seen@[i],
                #[trigger] seen@[i + 1],
            ) by {
                if i < before.len() - 1 {
                    assert(seen@[i] == before[i] && seen@[i + 1] == before[i + 1]);
                }
            }
        }
        pid = only;
        level = level + 1;
    }
    pid
}

/// Whatever it is cut to, a text that fits comes back whole, and no text comes back
/// wider than its budget.
pub proof fn fit_respects_the_budget(text: Seq<char>, avail: nat, keep: Keep)
    ensures
        fitted(text, avail, keep).len() <= avail,
        text.len() <= avail ==> fitted(text, avail, keep) == text,
        text.len() > avail ==> fitted(text, avail, keep).len() == avail,
{
}

/// What survives a cut is the end that was asked for: all of the result but its
/// ellipsis is the head, or the tail, of the text.
pub proof fn fit_keeps_the_named_end(text: Seq<char>, avail: nat)
    requires
        0 < avail < text.len(),
    ensures
        fitted(text, avail, Keep::Head).drop_last().is_prefix_of(text),
        fitted(text, avail, Keep::Head).last() == '…',
        fitted(text, avail, Keep::Tail).drop_first().is_suffix_of(text),
        fitted(text, avail, Keep::Tail).first() == '…',
{
    assert(fitted(text, avail, Keep::Head).drop_last() =~= text.take(avail - 1));
    assert(fitted(text, avail, Keep::Tail).drop_first() =~= text.skip(text.len() - (avail - 1)));
}

/// A cleaned title carries nothing that may not be drawn, is never longer than
/// [`MAX_CHARS`], and cleaning it again changes nothing.
pub proof fn sanitizing_is_final(raw: Seq<char>)
    ensures
        sanitized(raw).len() <= MAX_CHARS,
        forall|i: int| 0 <= i < sanitized(raw).len() ==> !unsafe_in_title(#[trigger] sanitized(raw)[i]),
        sanitized(sanitized(raw)) == sanitized(raw),
{
    lemma_stripped_len(raw);
    lemma_stripped_clean(sanitized(raw));
}

proof fn lemma_parts_kept(parts: Seq<Seq<char>>, avail: nat)
    requires
        parts.len() >= 1,
    ensures
        1 <= parts_kept(parts, avail).len() <= parts.len(),
        parts_kept(parts, avail) == parts.take(parts_kept(parts, avail).len() as int),
        parts_kept(parts, avail).len() > 1 ==> joined(parts_kept(parts, avail)).len() <= avail,
        forall|k: int|
            parts_kept(parts, avail).len() < k <= parts.len() ==> joined(#[trigger] parts.take(k)).len()
                > avail,
    decreases parts.len(),
{
    assert(parts.take(parts.len() as int) =~= parts);
    if !(parts.len() <= 1 || joined(parts).len() <= avail) {
        let rest = parts.drop_last();
        lemma_parts_kept(rest, avail);
        let n = parts_kept(rest, avail).len() as int;
        assert(rest.take(n) =~= parts.take(n));
        assert forall|k: int| n < k <= parts.len() implies joined(#[trigger] parts.take(k)).len() > avail by {
            if k < parts.len() {
                assert(rest.take(k) =~= parts.take(k));
            }
        }
    }
}

/// A derived title drops whole parts from the right and no more of them than it
/// must: what it shows is the longest run of leading parts that fits, and only where
/// the first alone is too wide is a part cut.
pub proof fn derived_title_drops_the_least_useful_parts(
    facts: ProcFacts,
    cols: nat,
    rows: nat,
    avail: nat,
)
    requires
        known_dir(facts) is Some || known_name(facts) is Some,
    ensures
        ({
            let parts = title_parts(known_dir(facts), known_name(facts), cols, rows);
            let shown = derived_title(facts, cols, rows, avail)->0;
            ||| joined(parts.take(1)).len() > avail && shown == fitted(parts[0], avail, Keep::Head)
            ||| exists|k: int|
                1 <= k <= parts.len() && shown == joined(#[trigger] parts.take(k)) && shown.len() <= avail
                    && forall|m: int|
                    k < m <= parts.len() ==> joined(#[trigger] parts.take(m)).len() > avail
        }),
{
    let parts = title_parts(known_dir(facts), known_name(facts), cols, rows);
    lemma_parts_kept(parts, avail);
    let k = parts_kept(parts, avail).len() as int;
    assert(parts.take(1) =~= seq![parts[0]]);
    assert(joined(parts.take(1)) == parts[0]);
    if joined(parts.take(k)).len() <= avail {
        assert(derived_title(facts, cols, rows, avail)->0 == joined(parts.take(k)));
    } else {
        assert(k == 1);
    }
}

} // verus!

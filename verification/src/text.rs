//! Characters, decimal numerals and lines.
use vstd::prelude::*;
use vstd::string::*;

verus! {

/// `String::push` appends one character at the end.
pub assume_specification[ String::push ](s: &mut String, c: char)
    ensures
        final(s)@ == old(s)@.push(c),
;

/// The view of a text that may be missing.
pub open spec fn text_view(t: Option<String>) -> Option<Seq<char>> {
    match t {
        Some(s) => Some(s@),
        None => None,
    }
}

/// The contents of each of `v`.
pub open spec fn views(v: Seq<String>) -> Seq<Seq<char>> {
    Seq::new(v.len(), |i: int| v[i]@)
}

/// C0, DEL and C1: the characters of Unicode's category `Cc`.
pub open spec fn control(c: char) -> bool {
    (c as u32) < 0x20 || (0x7f <= c as u32 && c as u32 <= 0x9f)
}

/// Whether `c` is a control character.
pub fn is_control(c: char) -> (r: bool)
    ensures
        r == control(c),
{
    let n: u32 = c as u32;
    n < 0x20 || (0x7f <= n && n <= 0x9f)
}

/// The characters of `s`, in order.
pub fn char_vec(s: &str) -> (v: Vec<char>)
    ensures
        v@ == s@,
{
    let mut v: Vec<char> = Vec::new();
    for c in it: s.chars()
        invariant
            v@ == s@.take(it.index() as int),
            it.seq() == s@,
    {
        v.push(c);
        assert(s@.take(it.index() + 1) =~= s@.take(it.index() as int).push(c));
    }
    assert(s@.take(s@.len() as int) =~= s@);
    v
}

/// Whether two texts are the same.
pub fn same_text(a: &str, b: &str) -> (r: bool)
    ensures
        r == (a@ == b@),
{
    let x: Vec<char> = char_vec(a);
    let y: Vec<char> = char_vec(b);
    if x.len() != y.len() {
        return false;
    }
    let mut i: usize = 0;
    while i < x.len()
        invariant
            i <= x@.len() == y@.len(),
            x@ == a@,
            y@ == b@,
            forall|j: int| 0 <= j < i ==> x@[j] == y@[j],
        decreases x@.len() - i,
    {
        if x[i] != y[i] {
            return false;
        }
        i = i + 1;
    }
    assert(x@ =~= y@);
    true
}

/// The text whose characters are `v[from..to]`.
pub fn text_of(v: &Vec<char>, from: usize, to: usize) -> (s: String)
    requires
        from <= to <= v@.len(),
    ensures
        s@ == v@.subrange(from as int, to as int),
{
    let mut s: String = String::new();
    let mut i: usize = from;
    assert(v@.subrange(from as int, from as int) =~= Seq::<char>::empty());
    while i < to
        invariant
            from <= i <= to <= v@.len(),
            s@ == v@.subrange(from as int, i as int),
        decreases to - i,
    {
        s.push(v[i]);
        assert(v@.subrange(from as int, i + 1) =~= v@.subrange(from as int, i as int).push(v@[i as int]));
        i = i + 1;
    }
    s
}

/// The numeral for one decimal digit.
pub open spec fn digit(d: nat) -> char {
    ((48 + d) as u8) as char
}

/// The decimal numeral of `n`, without leading zeros.
pub open spec fn numeral(n: nat) -> Seq<char>
    decreases n,
{
    if n < 10 {
        seq![digit(n)]
    } else {
        numeral(n / 10).push(digit(n % 10))
    }
}

/// Appends the decimal numeral of `n` to `s`.
pub fn push_number(s: &mut String, n: u64)
    ensures
        final(s)@ == old(s)@ + numeral(n as nat),
    decreases n,
{
    if n >= 10 {
        push_number(s, n / 10);
    }
    let d: u8 = (n % 10) as u8;
    let c: char = (48u8 + d) as char;
    s.push(c);
    assert(s@ =~= old(s)@ + numeral(n as nat));
}

/// Unicode's White_Space property.
pub open spec fn whitespace(c: char) -> bool {
    let n = c as u32;
    (0x09 <= n && n <= 0x0d) || n == 0x20 || n == 0x85 || n == 0xa0 || n == 0x1680 || (0x2000 <= n
        && n <= 0x200a) || n == 0x2028 || n == 0x2029 || n == 0x202f || n == 0x205f || n == 0x3000
}

/// Whether `c` is white space.
pub fn is_whitespace(c: char) -> (r: bool)
    ensures
        r == whitespace(c),
{
    let n: u32 = c as u32;
    (0x09 <= n && n <= 0x0d) || n == 0x20 || n == 0x85 || n == 0xa0 || n == 0x1680 || (0x2000 <= n
        && n <= 0x200a) || n == 0x2028 || n == 0x2029 || n == 0x202f || n == 0x205f || n == 0x3000
}

/// `s` without the white space at its end.
pub open spec fn trimmed_end(s: Seq<char>) -> Seq<char>
    decreases s.len(),
{
    if s.len() > 0 && whitespace(s.last()) {
        trimmed_end(s.drop_last())
    } else {
        s
    }
}

/// `s` without the white space at its start.
pub open spec fn trimmed_start(s: Seq<char>) -> Seq<char>
    decreases s.len(),
{
    if s.len() > 0 && whitespace(s[0]) {
        trimmed_start(s.skip(1))
    } else {
        s
    }
}

/// `s` without the white space at its two ends.
pub open spec fn trimmed(s: Seq<char>) -> Seq<char> {
    trimmed_start(trimmed_end(s))
}

/// `s` without the white space at its two ends.
pub fn trim(s: &str) -> (r: String)
    ensures
        r@ == trimmed(s@),
{
    let v: Vec<char> = char_vec(s);
    let mut end: usize = v.len();
    assert(v@.take(end as int) =~= v@);
    while end > 0 && is_whitespace(v[end - 1])
        invariant
            end <= v@.len(),
            trimmed_end(v@.take(end as int)) == trimmed_end(v@),
        ensures
            trimmed_end(v@) == v@.take(end as int),
        decreases end,
    {
        assert(v@.take(end as int).drop_last() =~= v@.take(end - 1));
        end = end - 1;
    }
    let mut from: usize = 0;
    assert(v@.subrange(0, end as int) =~= v@.take(end as int));
    while from < end && is_whitespace(v[from])
        invariant
            from <= end <= v@.len(),
            trimmed_start(v@.subrange(from as int, end as int)) == trimmed_start(v@.take(end as int)),
        ensures
            trimmed_start(v@.take(end as int)) == v@.subrange(from as int, end as int),
        decreases end - from,
    {
        assert(v@.subrange(from as int, end as int).skip(1) =~= v@.subrange(from + 1, end as int));
        from = from + 1;
    }
    text_of(&v, from, end)
}

/// The order of a dictionary: by the first characters that differ, a text before those
/// that it begins.
pub open spec fn precedes(a: Seq<char>, b: Seq<char>) -> bool
    decreases a.len(),
{
    if b.len() == 0 {
        false
    } else if a.len() == 0 {
        true
    } else if a[0] != b[0] {
        a[0] < b[0]
    } else {
        precedes(a.skip(1), b.skip(1))
    }
}

/// The order is total, and no text comes before itself.
pub proof fn one_comes_first(a: Seq<char>, b: Seq<char>)
    ensures
        !precedes(a, a),
        a != b ==> (precedes(a, b) <==> !precedes(b, a)),
    decreases a.len(),
{
    if a.len() > 0 && b.len() > 0 {
        one_comes_first(a.skip(1), b.skip(1));
        if a[0] == b[0] && a.skip(1) == b.skip(1) {
            assert(a =~= seq![a[0]] + a.skip(1));
            assert(b =~= seq![b[0]] + b.skip(1));
        }
    } else if a.len() == 0 && b.len() == 0 {
        assert(a =~= b);
    } else if a.len() > 0 {
        one_comes_first(a.skip(1), b);
    }
}

/// What comes before something comes before all that follows it.
pub proof fn order_carries_over(a: Seq<char>, b: Seq<char>, c: Seq<char>)
    requires
        precedes(a, b),
        precedes(b, c),
    ensures
        precedes(a, c),
    decreases a.len(),
{
    if a.len() > 0 && a[0] == b[0] && b[0] == c[0] {
        order_carries_over(a.skip(1), b.skip(1), c.skip(1));
    }
}

/// Whether `a` comes before `b` in a dictionary.
pub fn comes_before(a: &str, b: &str) -> (r: bool)
    ensures
        r == precedes(a@, b@),
{
    let x: Vec<char> = char_vec(a);
    let y: Vec<char> = char_vec(b);
    let mut i: usize = 0;
    assert(x@.skip(0) =~= x@);
    assert(y@.skip(0) =~= y@);
    while i < x.len() && i < y.len()
        invariant
            i <= x@.len(),
            i <= y@.len(),
            x@ == a@,
            y@ == b@,
            precedes(x@.skip(i as int), y@.skip(i as int)) == precedes(a@, b@),
        decreases x@.len() - i,
    {
        if x[i] != y[i] {
            return x[i] < y[i];
        }
        assert(x@.skip(i as int).skip(1) =~= x@.skip(i + 1));
        assert(y@.skip(i as int).skip(1) =~= y@.skip(i + 1));
        i = i + 1;
    }
    i < y.len()
}

/// Whether `c` is a decimal digit.
pub open spec fn digit_char(c: char) -> bool {
    '0' <= c && c <= '9'
}

/// Whether `c` is a decimal digit.
pub fn is_digit(c: char) -> (r: bool)
    ensures
        r == digit_char(c),
{
    '0' <= c && c <= '9'
}

/// Whether `s` is made of digits alone, at least one.
pub open spec fn all_digits(s: Seq<char>) -> bool {
    s.len() > 0 && forall|i: int| 0 <= i < s.len() ==> digit_char(#[trigger] s[i])
}

/// The number that digits spell.
pub open spec fn spelled(s: Seq<char>) -> nat
    decreases s.len(),
{
    if s.len() == 0 {
        0
    } else {
        spelled(s.drop_last()) * 10 + (s.last() as u32 - 48) as nat
    }
}

/// `s` without the plus sign that it may begin with.
pub open spec fn without_plus(s: Seq<char>) -> Seq<char> {
    if s.len() > 0 && s[0] == '+' {
        s.skip(1)
    } else {
        s
    }
}

/// The whole number that `s` spells, with or without a plus sign, as far as it is not
/// above `max`.
pub open spec fn whole_number(s: Seq<char>, max: nat) -> Option<nat> {
    let d = without_plus(s);
    if all_digits(d) && spelled(d) <= max {
        Some(spelled(d))
    } else {
        None
    }
}

/// The value of a number that may be missing.
pub open spec fn nat_view(n: Option<u64>) -> Option<nat> {
    match n {
        Some(n) => Some(n as nat),
        None => None,
    }
}

/// The whole number that the characters from `from` on spell, as far as it is not above
/// `max`.
pub fn parse_whole(v: &Vec<char>, from: usize, max: u64) -> (r: Option<u64>)
    requires
        from <= v@.len(),
    ensures
        nat_view(r) == whole_number(v@.skip(from as int), max as nat),
{
    let ghost s = v@.skip(from as int);
    let start: usize = if from < v.len() && v[from] == '+' {
        from + 1
    } else {
        from
    };
    let ghost d = without_plus(s);
    assert(d =~= v@.skip(start as int));
    if start >= v.len() {
        return None;
    }
    let mut value: u64 = 0;
    let mut over: bool = false;
    let mut i: usize = start;
    assert(d.take(0) =~= Seq::empty());
    while i < v.len()
        invariant
            from <= start <= i <= v@.len(),
            s == v@.skip(from as int),
            d == without_plus(s),
            d == v@.skip(start as int),
            d.len() > 0,
            forall|j: int| 0 <= j < i - start ==> digit_char(#[trigger] d[j]),
            !over ==> value == spelled(d.take(i - start)),
            !over ==> value <= max,
            over ==> spelled(d.take(i - start)) > max,
        decreases v@.len() - i,
    {
        let c: char = v[i];
        assert(d[i - start] == c);
        if !is_digit(c) {
            assert(!all_digits(d));
            return None;
        }
        assert(d.take(i - start + 1).drop_last() =~= d.take(i - start));
        let digit: u64 = (c as u32 - 48) as u64;
        if !over {
            let next: u128 = value as u128 * 10 + digit as u128;
            if next > max as u128 {
                over = true;
            } else {
                value = next as u64;
            }
        }
        i = i + 1;
    }
    assert(d.take(i - start) =~= d);
    assert(all_digits(d));
    if over {
        None
    } else {
        Some(value)
    }
}

/// The whole number that `s` spells, as far as it is not above `max`.
pub fn parse_number(s: &str, max: u64) -> (r: Option<u64>)
    ensures
        nat_view(r) == whole_number(s@, max as nat),
{
    let v: Vec<char> = char_vec(s);
    assert(v@.skip(0) =~= v@);
    parse_whole(&v, 0, max)
}

/// A numeral reads back as the number it was written for.
pub proof fn a_numeral_reads_back(n: nat, max: nat)
    requires
        n <= max,
    ensures
        all_digits(numeral(n)),
        spelled(numeral(n)) == n,
        whole_number(numeral(n), max) == Some(n),
{
    lemma_numeral(n);
    assert(digit_char(numeral(n)[0]));
}

proof fn lemma_numeral(n: nat)
    ensures
        all_digits(numeral(n)),
        spelled(numeral(n)) == n,
    decreases n,
{
    if n < 10 {
        assert(numeral(n).drop_last() =~= Seq::empty());
        assert(numeral(n)[0] == digit(n));
        reveal_with_fuel(spelled, 2);
    } else {
        lemma_numeral(n / 10);
        assert(numeral(n).drop_last() =~= numeral(n / 10));
        assert(numeral(n).last() == digit(n % 10));
    }
}

/// `c` in lower case, where it is an ASCII capital.
pub open spec fn ascii_lower(c: char) -> char {
    if 'A' <= c && c <= 'Z' {
        ((c as u8 + 32) as u8) as char
    } else {
        c
    }
}

/// `c` in lower case, where it is an ASCII capital.
pub fn to_lower(c: char) -> (r: char)
    ensures
        r == ascii_lower(c),
{
    if 'A' <= c && c <= 'Z' {
        let n: u8 = c as u8;
        (n + 32) as char
    } else {
        c
    }
}

/// `s` with its ASCII capitals in lower case.
pub open spec fn lowered(s: Seq<char>) -> Seq<char> {
    Seq::new(s.len(), |i: int| ascii_lower(s[i]))
}

/// `s` with its ASCII capitals in lower case.
pub fn to_lowered(s: &str) -> (r: String)
    ensures
        r@ == lowered(s@),
{
    let mut out: String = String::new();
    for c in it: s.chars()
        invariant
            it.seq() == s@,
            out@ == lowered(s@).take(it.index() as int),
    {
        out.push(to_lower(c));
        assert(lowered(s@).take(it.index() + 1) =~= lowered(s@).take(it.index() as int).push(
            ascii_lower(c),
        ));
    }
    assert(lowered(s@).take(s@.len() as int) =~= lowered(s@));
    out
}

/// Whether `c` is among the characters of `set`.
pub fn one_of(set: &str, c: char) -> (r: bool)
    ensures
        r == set@.contains(c),
{
    let mut found: bool = false;
    for x in it: set.chars()
        invariant
            it.seq() == set@,
            found <==> set@.take(it.index() as int).contains(c),
    {
        let ghost shorter = set@.take(it.index() as int);
        let ghost longer = set@.take(it.index() + 1);
        proof {
            assert(longer =~= shorter.push(x));
            if shorter.contains(c) {
                let k = choose|k: int| 0 <= k < shorter.len() && shorter[k] == c;
                assert(longer[k] == c);
            }
            if x == c {
                assert(longer[it.index() as int] == c);
            }
            if longer.contains(c) {
                let k = choose|k: int| 0 <= k < longer.len() && longer[k] == c;
                if k < shorter.len() {
                    assert(shorter[k] == c);
                }
            }
        }
        if x == c {
            found = true;
        }
    }
    assert(set@.take(set@.len() as int) =~= set@);
    found
}

/// Whether `v` begins with the characters of `prefix`.
pub fn begins_with(v: &Vec<char>, prefix: &str) -> (r: bool)
    ensures
        r == prefix@.is_prefix_of(v@),
{
    let p: Vec<char> = char_vec(prefix);
    if p.len() > v.len() {
        return false;
    }
    let mut i: usize = 0;
    while i < p.len()
        invariant
            i <= p@.len() <= v@.len(),
            p@ == prefix@,
            forall|j: int| 0 <= j < i ==> p@[j] == v@[j],
        decreases p@.len() - i,
    {
        if p[i] != v[i] {
            assert(prefix@[i as int] != v@[i as int]);
            return false;
        }
        i = i + 1;
    }
    assert(v@.subrange(0, p@.len() as int) =~= p@);
    true
}

/// The runs of characters between white space, in order.
pub open spec fn words(s: Seq<char>) -> Seq<Seq<char>>
    decreases s.len(),
{
    if s.len() == 0 {
        Seq::empty()
    } else {
        let before = words(s.drop_last());
        if whitespace(s.last()) {
            before
        } else if s.len() == 1 || whitespace(s[s.len() - 2]) {
            before.push(seq![s.last()])
        } else {
            before.drop_last().push(before.last().push(s.last()))
        }
    }
}

/// The runs of characters between white space, of those from `from` on.
pub fn split_words(v: &Vec<char>, from: usize) -> (r: Vec<String>)
    requires
        from <= v@.len(),
    ensures
        views(r@) == words(v@.skip(from as int)),
{
    let ghost s = v@.skip(from as int);
    let mut out: Vec<String> = Vec::new();
    let mut open: String = String::new();
    let mut inside: bool = false;
    let mut i: usize = from;
    assert(s.take(0) =~= Seq::empty());
    assert(views(out@) =~= Seq::empty());
    while i < v.len()
        invariant
            from <= i <= v@.len(),
            s == v@.skip(from as int),
            inside == (i > from && !whitespace(v@[i - 1])),
            inside ==> words(s.take(i - from)) == views(out@).push(open@),
            !inside ==> words(s.take(i - from)) == views(out@),
        decreases v@.len() - i,
    {
        let c: char = v[i];
        let ghost part = s.take(i - from + 1);
        assert(part.drop_last() =~= s.take(i - from));
        assert(part.last() == c);
        if is_whitespace(c) {
            if inside {
                let ghost before = views(out@);
                let ghost word = open@;
                out.push(open);
                assert(views(out@) =~= before.push(word));
                open = String::new();
                inside = false;
            }
        } else {
            if inside {
                assert(part[part.len() - 2] == v@[i - 1]);
                assert(views(out@).push(open@).drop_last() =~= views(out@));
            } else {
                open = String::new();
                if i > from {
                    assert(part[part.len() - 2] == v@[i - 1]);
                }
                assert(seq![c] =~= Seq::<char>::empty().push(c));
            }
            open.push(c);
            inside = true;
        }
        i = i + 1;
    }
    assert(s.take(i - from) =~= s);
    if inside {
        let ghost before = views(out@);
        let ghost word = open@;
        out.push(open);
        assert(views(out@) =~= before.push(word));
    }
    out
}

/// `s` without the carriage return that it may end in.
pub open spec fn without_cr(s: Seq<char>) -> Seq<char> {
    if s.len() > 0 && s.last() == '\r' {
        s.drop_last()
    } else {
        s
    }
}

/// How many characters of `s` stand before its first newline: all, without one.
pub open spec fn to_newline(s: Seq<char>) -> int
    decreases s.len(),
{
    if s.len() == 0 || s[0] == '\n' {
        0
    } else {
        1 + to_newline(s.skip(1))
    }
}

proof fn lemma_to_newline(s: Seq<char>, n: int)
    requires
        0 <= n <= s.len(),
        forall|i: int| 0 <= i < n ==> s[i] != '\n',
        n < s.len() ==> s[n] == '\n',
    ensures
        to_newline(s) == n,
    decreases s.len(),
{
    if n > 0 {
        lemma_to_newline(s.skip(1), n - 1);
    }
}

/// The lines of `s`, each without its line ending. What follows the last ending is a
/// line of its own, unless it is empty.
pub open spec fn lines(s: Seq<char>) -> Seq<Seq<char>>
    decreases s.len(),
{
    let n = to_newline(s);
    if s.len() == 0 {
        Seq::empty()
    } else if n < 0 || n >= s.len() {
        seq![s]
    } else {
        seq![without_cr(s.take(n))] + lines(s.skip(n + 1))
    }
}

/// The lines of `s`, each without its line ending.
pub fn split_lines(s: &str) -> (r: Vec<String>)
    ensures
        views(r@) == lines(s@),
{
    let v: Vec<char> = char_vec(s);
    let mut out: Vec<String> = Vec::new();
    let mut start: usize = 0;
    assert(v@.skip(0) =~= v@);
    assert(views(out@) + lines(v@) =~= lines(v@));
    while start < v.len()
        invariant
            start <= v@.len(),
            v@ == s@,
            views(out@) + lines(v@.skip(start as int)) == lines(s@),
        decreases v@.len() - start,
    {
        let ghost rest = v@.skip(start as int);
        let ghost done = views(out@);
        let mut end: usize = start;
        while end < v.len() && v[end] != '\n'
            invariant
                start <= end <= v@.len(),
                forall|i: int| start <= i < end ==> v@[i] != '\n',
            ensures
                end < v@.len() ==> v@[end as int] == '\n',
                end <= v@.len(),
            decreases v@.len() - end,
        {
            end = end + 1;
        }
        proof {
            lemma_to_newline(rest, end - start);
        }
        if end == v.len() {
            out.push(text_of(&v, start, end));
            assert(v@.subrange(start as int, end as int) =~= rest);
            assert(views(out@) =~= done + seq![rest]);
            return out;
        }
        let to: usize = if end > start && v[end - 1] == '\r' {
            end - 1
        } else {
            end
        };
        out.push(text_of(&v, start, to));
        proof {
            let line = rest.take(end - start);
            assert(without_cr(line) =~= v@.subrange(start as int, to as int));
            assert(rest.skip(end - start + 1) =~= v@.skip(end + 1));
            assert(views(out@) =~= done.push(without_cr(line)));
            assert(views(out@) + lines(v@.skip(end + 1)) =~= done + lines(rest));
        }
        start = end + 1;
    }
    assert(v@.skip(start as int) =~= Seq::empty());
    assert(views(out@) + lines(v@.skip(start as int)) =~= views(out@));
    out
}

/// Whether `needle` stands at `i` in `s`.
pub open spec fn stands_at(s: Seq<char>, needle: Seq<char>, i: int) -> bool {
    0 <= i && i + needle.len() <= s.len() && s.subrange(i, i + needle.len()) == needle
}

/// Whether `needle` stands anywhere in `s`.
pub open spec fn holds(s: Seq<char>, needle: Seq<char>) -> bool {
    exists|i: int| #[trigger] stands_at(s, needle, i)
}

/// Whether `needle` stands anywhere in `s`.
pub fn contains_text(s: &str, needle: &str) -> (r: bool)
    ensures
        r == holds(s@, needle@),
{
    let v: Vec<char> = char_vec(s);
    let w: Vec<char> = char_vec(needle);
    if w.len() > v.len() {
        return false;
    }
    let n: usize = v.len();
    let last: usize = n - w.len();
    let mut i: usize = 0;
    while i <= last
        invariant
            v@ == s@,
            w@ == needle@,
            n == v@.len(),
            last == n - w@.len(),
            i <= last,
            forall|k: int| 0 <= k < i ==> !#[trigger] stands_at(s@, needle@, k),
        decreases last + 1 - i,
    {
        let mut j: usize = 0;
        let mut same: bool = true;
        while j < w.len()
            invariant
                j <= w@.len(),
                n == v@.len(),
                i + w@.len() <= n,
                same <==> forall|k: int| 0 <= k < j ==> v@[i + k] == #[trigger] w@[k],
            decreases w@.len() - j,
        {
            if v[i + j] != w[j] {
                same = false;
            }
            j = j + 1;
        }
        if same {
            assert(s@.subrange(i as int, i + w@.len()) =~= needle@);
            assert(stands_at(s@, needle@, i as int));
            return true;
        }
        assert(!stands_at(s@, needle@, i as int)) by {
            if stands_at(s@, needle@, i as int) {
                assert forall|k: int| 0 <= k < w@.len() implies v@[i + k] == #[trigger] w@[k] by {
                    assert(s@.subrange(i as int, i + needle@.len())[k] == needle@[k]);
                }
            }
        }
        if i == last {
            assert forall|k: int| !#[trigger] stands_at(s@, needle@, k) by {}
            return false;
        }
        i = i + 1;
    }
    false
}

/// A number with its sign, as it is written.
pub open spec fn signed_numeral(n: int) -> Seq<char> {
    if n < 0 {
        seq!['-'] + numeral((-n) as nat)
    } else {
        numeral(n as nat)
    }
}

/// Appends a number with its sign to `s`.
pub fn push_signed(s: &mut String, n: i32)
    ensures
        final(s)@ == old(s)@ + signed_numeral(n as int),
{
    if n < 0 {
        s.push('-');
        let size: u64 = (-(n as i64)) as u64;
        push_number(s, size);
        assert(s@ =~= old(s)@ + signed_numeral(n as int));
    } else {
        push_number(s, n as u64);
    }
}

} // verus!

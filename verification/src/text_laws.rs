//! What texts and numerals are: how a number is spelled and read, where a text is cut into
//! words and lines, and which of two comes first.
use vstd::prelude::*;
use vstd::string::*;
use crate::text::{
    begins_with, comes_before, contains_text, is_control, is_whitespace, numeral, one_of, parse_number, precedes,
    push_number, push_signed, same_text, split_lines, split_words, spelled, stands_at, to_lowered, to_newline, trim,
    trimmed_end, trimmed_start, views, whitespace, without_plus, words,
};

verus! {

broadcast use vstd::string::group_string_axioms;

/// A numeral is what its number leaves at ten, behind the numeral of what it goes into: the
/// digits from zero to nine, and no leading zero.
pub proof fn a_numeral_is_decimal(s: &mut String, t: &mut String, n: u64)
    requires
        call_ensures(push_number, (s, n), ()),
        call_ensures(push_number, (t, (n / 10) as u64), ()),
        *old(s) == *old(t),
    ensures
        final(s)@.len() > old(s)@.len(),
        final(s)@.last() as u32 == 48 + n % 10,
        n >= 10 ==> final(s)@.drop_last() == final(t)@,
        n < 10 ==> final(s)@.drop_last() == old(s)@,
{
    if n >= 10 {
        assert(final(s)@.drop_last() =~= final(t)@);
    } else {
        assert(final(s)@.drop_last() =~= old(s)@);
    }
}

/// A negative number is spelled with a sign before it, and any other without.
pub proof fn a_sign_comes_first(s: &mut String, n: i32)
    requires
        call_ensures(push_signed, (s, n), ()),
    ensures
        n >= 0 ==> final(s)@ == old(s)@ + numeral(n as nat),
        n < 0 ==> final(s)@ == old(s)@ + seq!['-'] + numeral((-n) as nat),
{
    if n < 0 {
        assert(old(s)@ + (seq!['-'] + numeral((-n) as nat)) =~= old(s)@ + seq!['-'] + numeral((-n) as nat));
    }
}

/// A text spells a number exactly where it is made of digits, behind a plus sign or none; each
/// digit more makes the number ten times what it was, and the digit more. A number above the
/// greatest that is wanted is none.
pub proof fn digits_spell_a_number(s: &str, max: u64, r: Option<u64>, shorter: &str, q: Option<u64>, c: char)
    requires
        call_ensures(parse_number, (s, max), r),
        call_ensures(parse_number, (shorter, max), q),
        s@ == shorter@.push(c),
    ensures
        r is Some ==> 48 <= c as u32 <= 57 && r->0 <= max,
        r is Some && q is Some ==> r->0 == 10 * q->0 + (c as u32 - 48),
        q is Some && 48 <= c as u32 <= 57 && 10 * q->0 + (c as u32 - 48) <= max ==> r is Some,
        shorter@.len() == 0 && 48 <= c as u32 <= 57 && c as u32 - 48 <= max ==> r == Some((c as u32 - 48) as u64),
{
    let d = without_plus(s@);
    let e = without_plus(shorter@);
    assert(s@.last() == c);
    if shorter@.len() > 0 {
        assert(d =~= e.push(c));
        assert(d.drop_last() =~= e);
        if crate::text::all_digits(d) {
            assert(crate::text::digit_char(d[d.len() - 1]));
        }
        if crate::text::all_digits(e) && crate::text::digit_char(c) {
            assert forall|i: int| 0 <= i < d.len() implies crate::text::digit_char(#[trigger] d[i]) by {
                if i < e.len() {
                    assert(d[i] == e[i]);
                }
            }
        }
    } else {
        assert(s@ =~= seq![c]);
        if c == '+' {
            assert(d =~= Seq::empty());
        } else {
            assert(d =~= seq![c]);
            assert(d.drop_last() =~= Seq::empty());
            reveal_with_fuel(spelled, 2);
            if crate::text::all_digits(d) {
                assert(crate::text::digit_char(d[0]));
            }
            if crate::text::digit_char(c) {
                assert(crate::text::all_digits(d));
            }
        }
    }
}

/// White space is the tabs and line ends, the blank, and the spaces of typography.
pub proof fn white_space_is_what_unicode_says(c: char, r: bool)
    requires
        call_ensures(is_whitespace, (c,), r),
    ensures
        r <==> 9 <= c as u32 <= 13 || c == ' ' || c == '\u{85}' || c == '\u{a0}' || c == '\u{1680}' || ('\u{2000}'
            <= c && c <= '\u{200a}') || c == '\u{2028}' || c == '\u{2029}' || c == '\u{202f}' || c == '\u{205f}'
            || c == '\u{3000}',
{
}

/// Control characters are those below the blank, and those from delete to before the
/// no-break space.
pub proof fn control_characters_are_not_seen(c: char, r: bool)
    requires
        call_ensures(is_control, (c,), r),
    ensures
        r <==> c < ' ' || ('\u{7f}' <= c && c < '\u{a0}'),
{
}

proof fn lemma_trimmed_end(s: Seq<char>)
    ensures
        trimmed_end(s).len() <= s.len(),
        trimmed_end(s) == s.take(trimmed_end(s).len() as int),
        trimmed_end(s).len() > 0 ==> !whitespace(trimmed_end(s).last()),
        forall|i: int| trimmed_end(s).len() <= i < s.len() ==> whitespace(#[trigger] s[i]),
    decreases s.len(),
{
    if s.len() > 0 && whitespace(s.last()) {
        let t = s.drop_last();
        lemma_trimmed_end(t);
        let n = trimmed_end(t).len() as int;
        assert(t.take(n) =~= s.take(n));
        assert forall|i: int| n <= i < s.len() implies whitespace(#[trigger] s[i]) by {
            if i < t.len() {
                assert(t[i] == s[i]);
            }
        }
    } else {
        assert(s.take(s.len() as int) =~= s);
    }
}

proof fn lemma_trimmed_start(s: Seq<char>)
    ensures
        trimmed_start(s).len() <= s.len(),
        trimmed_start(s) == s.skip(s.len() - trimmed_start(s).len()),
        trimmed_start(s).len() > 0 ==> !whitespace(trimmed_start(s)[0]),
        forall|i: int| 0 <= i < s.len() - trimmed_start(s).len() ==> whitespace(#[trigger] s[i]),
    decreases s.len(),
{
    if s.len() > 0 && whitespace(s[0]) {
        let t = s.skip(1);
        lemma_trimmed_start(t);
        let n = t.len() - trimmed_start(t).len();
        assert(t.skip(n) =~= s.skip(n + 1));
        assert forall|i: int| 0 <= i < n + 1 implies whitespace(#[trigger] s[i]) by {
            if i > 0 {
                assert(t[i - 1] == s[i]);
            }
        }
    } else {
        assert(s.skip(0) =~= s);
    }
}

/// Trimming takes away white space at both ends, all of it and nothing else.
pub proof fn trimming_takes_white_space_away(s: &str, r: String) -> (cut: (int, int))
    requires
        call_ensures(trim, (s,), r),
    ensures
        ({
            let (from, to) = cut;
            &&& 0 <= from <= to <= s@.len()
            &&& r@ == s@.subrange(from, to)
            &&& forall|i: int| 0 <= i < from || to <= i < s@.len() ==> whitespace(#[trigger] s@[i])
            &&& from < to ==> !whitespace(s@[from]) && !whitespace(s@[to - 1])
        }),
{
    lemma_trimmed_end(s@);
    let front = trimmed_end(s@);
    let to = front.len() as int;
    lemma_trimmed_start(front);
    let from = to - r@.len();
    assert(r@ =~= s@.subrange(from, to));
    assert forall|i: int| 0 <= i < from || to <= i < s@.len() implies whitespace(#[trigger] s@[i]) by {
        if i < from {
            assert(front[i] == s@[i]);
        }
    }
    if from < to {
        assert(r@[0] == s@[from]);
        assert(front.last() == s@[to - 1]);
    }
    (from, to)
}

proof fn lemma_precedes(a: Seq<char>, b: Seq<char>, n: int)
    requires
        0 <= n <= a.len(),
        n <= b.len(),
        forall|i: int| 0 <= i < n ==> #[trigger] a[i] == b[i],
    ensures
        n < a.len() && n < b.len() && a[n] != b[n] ==> precedes(a, b) == (a[n] < b[n]),
        n == a.len() && n < b.len() ==> precedes(a, b),
        n == b.len() ==> !precedes(a, b),
    decreases n,
{
    if n > 0 {
        let x = a.skip(1);
        let y = b.skip(1);
        assert(a[0] == b[0]);
        assert forall|i: int| 0 <= i < n - 1 implies #[trigger] x[i] == y[i] by {
            assert(a[i + 1] == b[i + 1]);
        }
        lemma_precedes(x, y, n - 1);
    }
}

/// Of two texts the one with the lesser character comes first, where they first differ; one
/// that the other begins with comes before it. `n` is how many characters they share.
pub proof fn the_first_difference_decides(a: &str, b: &str, r: bool, n: int)
    requires
        call_ensures(comes_before, (a, b), r),
        0 <= n <= a@.len(),
        n <= b@.len(),
        forall|i: int| 0 <= i < n ==> #[trigger] a@[i] == b@[i],
    ensures
        n < a@.len() && n < b@.len() && a@[n] != b@[n] ==> r == (a@[n] < b@[n]),
        n == a@.len() && n < b@.len() ==> r,
        n == b@.len() ==> !r,
{
    lemma_precedes(a@, b@, n);
}

/// In lower case a text keeps its length, its capitals from A to Z become small, and nothing
/// else changes.
pub proof fn lower_case_changes_capitals_alone(s: &str, r: String, i: int)
    requires
        call_ensures(to_lowered, (s,), r),
        0 <= i < s@.len(),
    ensures
        r@.len() == s@.len(),
        65 <= s@[i] as u32 <= 90 ==> r@[i] as u32 == s@[i] as u32 + 32,
        !(65 <= s@[i] as u32 <= 90) ==> r@[i] == s@[i],
{
}

/// Two texts are the same exactly where they have the same characters.
pub proof fn same_texts_have_the_same_characters(a: &str, b: &str, r: bool)
    requires
        call_ensures(same_text, (a, b), r),
    ensures
        r <==> a@.len() == b@.len() && forall|i: int| 0 <= i < a@.len() ==> #[trigger] a@[i] == b@[i],
{
    if a@.len() == b@.len() && (forall|i: int| 0 <= i < a@.len() ==> #[trigger] a@[i] == b@[i]) {
        assert(a@ =~= b@);
    }
}

/// A text holds another exactly where it reads so from some place on.
pub proof fn a_text_holds_what_stands_in_it(s: &str, needle: &str, r: bool, at: int)
    requires
        call_ensures(contains_text, (s, needle), r),
    ensures
        0 <= at && at + needle@.len() <= s@.len() && (forall|i: int|
            0 <= i < needle@.len() ==> s@[at + i] == #[trigger] needle@[i]) ==> r,
        needle@.len() > s@.len() ==> !r,
        s@.len() == needle@.len() ==> (r <==> s@ == needle@),
{
    if 0 <= at && at + needle@.len() <= s@.len() && (forall|i: int|
        0 <= i < needle@.len() ==> s@[at + i] == #[trigger] needle@[i]) {
        assert(s@.subrange(at, at + needle@.len()) =~= needle@);
        assert(stands_at(s@, needle@, at));
    }
    if r {
        let k = choose|k: int| #[trigger] stands_at(s@, needle@, k);
        if s@.len() == needle@.len() {
            assert(k == 0);
            assert(s@.subrange(0, s@.len() as int) =~= s@);
        }
    }
    if s@ == needle@ {
        assert(s@.subrange(0, s@.len() as int) =~= needle@);
        assert(stands_at(s@, needle@, 0));
    }
}

/// White space ends a word; any other character behind it begins one, and behind a character
/// of a word goes on with it.
pub proof fn words_are_parted_by_white_space(v: &Vec<char>, longer: &Vec<char>, c: char, a: Vec<String>, b: Vec<String>)
    requires
        call_ensures(split_words, (v, 0usize), a),
        call_ensures(split_words, (longer, 0usize), b),
        longer@ == v@.push(c),
    ensures
        v@.len() == 0 ==> a@.len() == 0,
        whitespace(c) ==> views(b@) == views(a@),
        !whitespace(c) && (v@.len() == 0 || whitespace(v@.last())) ==> views(b@) == views(a@).push(seq![c]),
        !whitespace(c) && v@.len() > 0 && !whitespace(v@.last()) ==> a@.len() > 0 && views(b@) == views(
            a@,
        ).drop_last().push(views(a@).last().push(c)),
{
    assert(v@.skip(0) =~= v@);
    assert(longer@.skip(0) =~= longer@);
    assert(longer@.drop_last() =~= v@);
    assert(views(a@).len() == a@.len());
    if v@.len() > 0 {
        assert(longer@[longer@.len() - 2] == v@.last());
        if !whitespace(v@.last()) {
            lemma_word_open(v@);
        }
    }
}

proof fn lemma_word_open(s: Seq<char>)
    requires
        s.len() > 0,
        !whitespace(s.last()),
    ensures
        words(s).len() > 0,
    decreases s.len(),
{
    if s.len() > 1 && !whitespace(s[s.len() - 2]) {
        lemma_word_open(s.drop_last());
    }
}

proof fn lemma_newline(s: Seq<char>, n: int)
    requires
        0 <= n <= s.len(),
        forall|i: int| 0 <= i < n ==> #[trigger] s[i] != '\n',
        n < s.len() ==> s[n] == '\n',
    ensures
        to_newline(s) == n,
    decreases n,
{
    if n > 0 {
        assert(s[0] != '\n');
        let t = s.skip(1);
        assert forall|i: int| 0 <= i < n - 1 implies #[trigger] t[i] != '\n' by {
            assert(t[i] == s[i + 1]);
        }
        lemma_newline(t, n - 1);
    }
}

/// The first line is what stands before the first line end, without a return before it, and
/// the others are the lines of what follows; a text without a line end is one line.
pub proof fn lines_end_at_line_ends(s: &str, r: Vec<String>, rest: &str, q: Vec<String>, n: int)
    requires
        call_ensures(split_lines, (s,), r),
        call_ensures(split_lines, (rest,), q),
        0 <= n <= s@.len(),
        forall|i: int| 0 <= i < n ==> #[trigger] s@[i] != '\n',
        n < s@.len() ==> s@[n] == '\n' && rest@ == s@.skip(n + 1),
    ensures
        s@.len() == 0 ==> r@.len() == 0,
        s@.len() > 0 && n == s@.len() ==> r@.len() == 1 && r@[0]@ == s@,
        n < s@.len() ==> {
            &&& r@.len() == q@.len() + 1
            &&& n > 0 && s@[n - 1] == '\r' ==> r@[0]@ == s@.take(n - 1)
            &&& n == 0 || s@[n - 1] != '\r' ==> r@[0]@ == s@.take(n)
            &&& forall|i: int| 0 <= i < q@.len() ==> r@[i + 1]@ == (#[trigger] q@[i])@
        },
{
    lemma_newline(s@, n);
    assert(views(r@).len() == r@.len() && views(q@).len() == q@.len());
    if s@.len() > 0 {
        assert(views(r@)[0] == r@[0]@);
    }
    if n < s@.len() {
        if n > 0 {
            assert(s@.take(n).last() == s@[n - 1]);
            assert(s@.take(n).drop_last() =~= s@.take(n - 1));
        }
        assert forall|i: int| 0 <= i < q@.len() implies r@[i + 1]@ == (#[trigger] q@[i])@ by {
            assert(views(r@)[i + 1] == views(q@)[i]);
        }
    }
}

/// A character is of a set exactly where it is one of its characters, and a text begins with
/// another exactly where its first characters are that.
pub proof fn sets_and_beginnings(set: &str, c: char, among: bool, v: &Vec<char>, prefix: &str, begins: bool, i: int)
    requires
        call_ensures(one_of, (set, c), among),
        call_ensures(begins_with, (v, prefix), begins),
    ensures
        0 <= i < set@.len() && set@[i] == c ==> among,
        among ==> exists|k: int| 0 <= k < set@.len() && set@[k] == c,
        begins <==> prefix@.len() <= v@.len() && v@.take(prefix@.len() as int) == prefix@,
{
    if begins {
        assert(v@.take(prefix@.len() as int) =~= prefix@);
    }
    if prefix@.len() <= v@.len() && v@.take(prefix@.len() as int) == prefix@ {
        assert(v@.subrange(0, prefix@.len() as int) =~= prefix@);
    }
}

} // verus!

//! What selecting is for: the cells that a drag spans, the word and the line that a click is
//! on, the address under the pointer, and what a log may show of one.
use vstd::prelude::*;
use vstd::string::*;
use crate::panes_laws::is_selected;
use crate::selection::{
    address_char, address_end, address_start, alphanumeric, authority_from, colon_from, grow_word, host_end,
    is_word, last_column, line_end, line_last_col, line_start, logical_line, redact_url, url_at,
    without_punctuation, word_at, word_char, word_end, word_flags, word_start, Grid, Run, Selection, Spot,
};
use crate::text::whitespace;

verus! {

broadcast use vstd::string::group_string_axioms;

/// A block holds the rectangle between its corners; any other selection holds everything
/// that is read from one end to the other, both included.
pub proof fn a_selection_holds_what_it_spans(s: &Selection, col: usize, line: i32, r: bool)
    requires
        call_ensures(Selection::contains, (s, col, line), r),
    ensures
        r == is_selected(*s, line as int, col as int),
        line > s.anchor.line && line > s.head.line ==> !r,
        line < s.anchor.line && line < s.head.line ==> !r,
        s.block && col > s.anchor.col && col > s.head.col ==> !r,
        s.block && col < s.anchor.col && col < s.head.col ==> !r,
{
}

/// The ends of a selection come in the order of reading, neither of them changed.
pub proof fn the_ends_come_in_reading_order(s: &Selection, r: (Spot, Spot))
    requires
        call_ensures(Selection::ordered, (s,), r),
    ensures
        ({
            let (a, b) = r;
            &&& r == (s.anchor, s.head) || r == (s.head, s.anchor)
            &&& a.line <= b.line
            &&& a.line == b.line ==> a.col <= b.col
        }),
{
}

/// Letters and digits belong to words, and so do the thirteen symbols that paths, addresses
/// and keys are written with; nothing else does.
pub proof fn words_are_made_of_letters_and_path_symbols(c: char, r: bool)
    requires
        call_ensures(is_word, (c,), r),
    ensures
        r <==> alphanumeric(c) || c == '-' || c == '_' || c == '.' || c == '/' || c == '~' || c == ':' || c == '@'
            || c == '%' || c == '+' || c == '#' || c == '=' || c == '?' || c == '&',
{
    reveal_strlit("-_./~:@%+#=?&");
    let set = "-_./~:@%+#=?&"@;
    assert(set.len() == 13);
    assert(set[0] == '-' && set[1] == '_' && set[2] == '.' && set[3] == '/' && set[4] == '~' && set[5] == ':');
    assert(set[6] == '@' && set[7] == '%' && set[8] == '+' && set[9] == '#' && set[10] == '=');
    assert(set[11] == '?' && set[12] == '&');
    if set.contains(c) {
        let i = choose|i: int| 0 <= i < set.len() && set[i] == c;
    }
}

proof fn lemma_word_start_row(words: Seq<Seq<bool>>, wrapped: Seq<bool>, cols: int, r: int, c: int)
    requires
        0 <= c,
        r > 0 ==> !crate::selection::goes_on(wrapped, r - 1),
        crate::selection::in_word(words, r, c),
    ensures
        ({
            let (sr, sc) = word_start(words, wrapped, cols, r, c);
            &&& sr == r
            &&& 0 <= sc <= c
            &&& forall|x: int| sc <= x <= c ==> #[trigger] crate::selection::in_word(words, r, x)
            &&& sc > 0 ==> !crate::selection::in_word(words, r, sc - 1)
        }),
    decreases c,
{
    if c > 0 && crate::selection::in_word(words, r, c - 1) {
        lemma_word_start_row(words, wrapped, cols, r, c - 1);
    }
}

proof fn lemma_word_end_row(words: Seq<Seq<bool>>, wrapped: Seq<bool>, cols: int, r: int, c: int)
    requires
        0 <= c,
        !crate::selection::goes_on(wrapped, r),
        crate::selection::in_word(words, r, c),
    ensures
        ({
            let (er, ec) = word_end(words, wrapped, cols, r, c);
            &&& er == r
            &&& c <= ec
            &&& c < cols ==> ec < cols
            &&& forall|x: int| c <= x <= ec ==> #[trigger] crate::selection::in_word(words, r, x)
            &&& ec + 1 < cols ==> !crate::selection::in_word(words, r, ec + 1)
        }),
    decreases cols - c,
{
    if c + 1 < cols && crate::selection::in_word(words, r, c + 1) {
        lemma_word_end_row(words, wrapped, cols, r, c + 1);
    }
}

/// Whether a cell of a pane holds a character of a word.
pub open spec fn holds_word_char(grid: Grid, r: int, c: int) -> bool {
    0 <= r < grid.rows@.len() && 0 <= c < grid.rows@[r]@.len() && word_char(grid.rows@[r]@[c])
}

/// On a row of its own a word is the longest run of its characters round the cell; a cell
/// that is in no word stands alone, and where there is no cell there is nothing.
pub proof fn a_word_is_the_longest_run_round_the_cell(grid: &Grid, col: usize, row: usize, r: Option<Run>)
    requires
        call_ensures(word_at, (grid, col, row), r),
        row > 0 && row - 1 < grid.wrapped@.len() ==> !grid.wrapped@[row - 1],
        row < grid.wrapped@.len() ==> !grid.wrapped@[row as int],
        col < grid.cols,
    ensures
        r is Some <==> row < grid.rows@.len() && col < grid.rows@[row as int]@.len(),
        r is Some ==> {
            let run = r->0;
            &&& run.start_row == row && run.end_row == row
            &&& run.start_col <= col <= run.end_col
            &&& !holds_word_char(*grid, row as int, col as int) ==> run.start_col == col && run.end_col == col
            &&& holds_word_char(*grid, row as int, col as int) ==> {
                &&& forall|x: int|
                    run.start_col <= x <= run.end_col ==> #[trigger] holds_word_char(*grid, row as int, x)
                &&& run.start_col > 0 ==> !holds_word_char(*grid, row as int, run.start_col - 1)
                &&& run.end_col + 1 < grid.cols ==> !holds_word_char(*grid, row as int, run.end_col + 1)
            }
        },
{
    let words = word_flags(grid.rows@);
    assert forall|y: int, x: int| crate::selection::in_word(words, y, x) == #[trigger] holds_word_char(
        *grid,
        y,
        x,
    ) by {}
    if r is Some && crate::selection::in_word(words, row as int, col as int) {
        lemma_word_start_row(words, grid.wrapped@, grid.cols as int, row as int, col as int);
        lemma_word_end_row(words, grid.wrapped@, grid.cols as int, row as int, col as int);
        let run = r->0;
        assert forall|x: int| run.start_col <= x <= run.end_col implies #[trigger] holds_word_char(
            *grid,
            row as int,
            x,
        ) by {
            assert(crate::selection::in_word(words, row as int, x));
        }
        assert(run.start_col > 0 ==> !holds_word_char(*grid, row as int, run.start_col - 1));
        assert(run.end_col + 1 < grid.cols ==> !holds_word_char(*grid, row as int, run.end_col + 1));
    }
}

/// Two neighbouring cells of one word find the same word, also where a row goes on in the
/// next and the word with it.
pub proof fn neighbours_find_the_same_word(
    words: &Vec<Vec<bool>>,
    wrapped: &Vec<bool>,
    cols: usize,
    row: usize,
    col: usize,
    next_row: usize,
    next_col: usize,
    a: Run,
    b: Run,
)
    requires
        call_ensures(grow_word, (words, wrapped, cols, row, col), a),
        call_ensures(grow_word, (words, wrapped, cols, next_row, next_col), b),
        row < words@.len() && col < words@[row as int]@.len() && words@[row as int]@[col as int],
        next_row < words@.len() && next_col < words@[next_row as int]@.len()
            && words@[next_row as int]@[next_col as int],
        col < cols,
        ({
            ||| next_row == row && next_col == col + 1 && next_col < cols
            ||| next_row == row + 1 && col + 1 == cols && next_col == 0 && row < wrapped@.len()
                && wrapped@[row as int]
        }),
    ensures
        a == b,
{
    let flags = crate::selection::flag_views(words@);
    assert(flags[row as int] == words@[row as int]@);
    assert(flags[next_row as int] == words@[next_row as int]@);
    assert(crate::selection::in_word(flags, row as int, col as int));
    assert(crate::selection::in_word(flags, next_row as int, next_col as int));
    assert(crate::selection::goes_on(wrapped@, row as int) || next_row == row);
}

/// Whether a character ends an address in running text: white space, quotes, and brackets
/// of all kinds.
pub open spec fn ends_address(c: char) -> bool {
    ||| whitespace(c)
    ||| c == '"' || c == '\'' || c == '<' || c == '>' || c == '`'
    ||| c == '(' || c == ')' || c == '{' || c == '}' || c == '[' || c == ']'
}

/// Whether a character at the end of an address belongs to the sentence round it.
pub open spec fn ends_sentence(c: char) -> bool {
    c == '.' || c == ',' || c == ';' || c == ':' || c == '!' || c == '?'
}

/// Whether a text begins with one of the five schemes that are opened.
pub open spec fn begins_with_scheme(s: Seq<char>) -> bool {
    ||| s.len() >= 7 && s.take(7) == seq!['h', 't', 't', 'p', ':', '/', '/']
    ||| s.len() >= 8 && s.take(8) == seq!['h', 't', 't', 'p', 's', ':', '/', '/']
    ||| s.len() >= 6 && s.take(6) == seq!['f', 't', 'p', ':', '/', '/']
    ||| s.len() >= 7 && s.take(7) == seq!['f', 'i', 'l', 'e', ':', '/', '/']
    ||| s.len() >= 7 && s.take(7) == seq!['m', 'a', 'i', 'l', 't', 'o', ':']
}

proof fn lemma_address_char(c: char)
    ensures
        address_char(c) == !ends_address(c),
{
    reveal_strlit("\"'<>`(){}[]");
    let set = "\"'<>`(){}[]"@;
    assert(set.len() == 11);
    assert(set[0] == '"' && set[1] == '\'' && set[2] == '<' && set[3] == '>' && set[4] == '`' && set[5] == '(');
    assert(set[6] == ')' && set[7] == '{' && set[8] == '}' && set[9] == '[' && set[10] == ']');
    if set.contains(c) {
        let i = choose|i: int| 0 <= i < set.len() && set[i] == c;
    }
}

proof fn lemma_punctuation(c: char)
    ensures
        ".,;:!?"@.contains(c) == ends_sentence(c),
{
    reveal_strlit(".,;:!?");
    let set = ".,;:!?"@;
    assert(set.len() == 6);
    assert(set[0] == '.' && set[1] == ',' && set[2] == ';' && set[3] == ':' && set[4] == '!' && set[5] == '?');
    if set.contains(c) {
        let i = choose|i: int| 0 <= i < set.len() && set[i] == c;
    }
}

proof fn lemma_scheme(s: Seq<char>)
    ensures
        crate::selection::has_scheme(s) == begins_with_scheme(s),
{
    reveal_strlit("http://");
    reveal_strlit("https://");
    reveal_strlit("ftp://");
    reveal_strlit("file://");
    reveal_strlit("mailto:");
    assert("http://"@ =~= seq!['h', 't', 't', 'p', ':', '/', '/']);
    assert("https://"@ =~= seq!['h', 't', 't', 'p', 's', ':', '/', '/']);
    assert("ftp://"@ =~= seq!['f', 't', 'p', ':', '/', '/']);
    assert("file://"@ =~= seq!['f', 'i', 'l', 'e', ':', '/', '/']);
    assert("mailto:"@ =~= seq!['m', 'a', 'i', 'l', 't', 'o', ':']);
    lemma_prefix(seq!['h', 't', 't', 'p', ':', '/', '/'], s);
    lemma_prefix(seq!['h', 't', 't', 'p', 's', ':', '/', '/'], s);
    lemma_prefix(seq!['f', 't', 'p', ':', '/', '/'], s);
    lemma_prefix(seq!['f', 'i', 'l', 'e', ':', '/', '/'], s);
    lemma_prefix(seq!['m', 'a', 'i', 'l', 't', 'o', ':'], s);
}

proof fn lemma_prefix(p: Seq<char>, s: Seq<char>)
    ensures
        p.is_prefix_of(s) <==> s.len() >= p.len() && s.take(p.len() as int) == p,
{
    if p.is_prefix_of(s) {
        assert(s.take(p.len() as int) =~= p);
    }
    if s.len() >= p.len() && s.take(p.len() as int) == p {
        assert(s.subrange(0, p.len() as int) =~= p);
    }
}

proof fn lemma_run_start(line: Seq<char>, s: int, c: int)
    requires
        0 <= s <= c < line.len(),
        forall|x: int| s <= x <= c ==> !ends_address(#[trigger] line[x]),
        s > 0 ==> ends_address(line[s - 1]),
    ensures
        address_start(line, c) == s,
    decreases c,
{
    if c > s {
        lemma_address_char(line[c - 1]);
        lemma_run_start(line, s, c - 1);
    } else if s > 0 {
        lemma_address_char(line[s - 1]);
    }
}

proof fn lemma_run_end(line: Seq<char>, e: int, c: int)
    requires
        0 <= c < e <= line.len(),
        forall|x: int| c <= x < e ==> !ends_address(#[trigger] line[x]),
        e < line.len() ==> ends_address(line[e]),
    ensures
        address_end(line, c) == e - 1,
    decreases e - c,
{
    if c + 1 < e {
        lemma_address_char(line[c + 1]);
        lemma_run_end(line, e, c + 1);
    } else if e < line.len() {
        lemma_address_char(line[e]);
    }
}

proof fn lemma_trimmed(s: Seq<char>, n: int)
    requires
        0 <= n <= s.len(),
        forall|x: int| n <= x < s.len() ==> ends_sentence(#[trigger] s[x]),
        n > 0 ==> !ends_sentence(s[n - 1]),
    ensures
        without_punctuation(s) == s.take(n),
    decreases s.len(),
{
    if n < s.len() {
        lemma_punctuation(s.last());
        lemma_trimmed(s.drop_last(), n);
        assert(s.drop_last().take(n) =~= s.take(n));
    } else {
        if n > 0 {
            lemma_punctuation(s.last());
        }
        assert(s.take(n) =~= s);
    }
}

/// From every cell of a run of address characters the whole run is found, without the
/// sentence's punctuation at its end, exactly where it begins with `http://`, `https://`,
/// `ftp://`, `file://` or `mailto:`. The run reaches from `s` to before `e`, and what is
/// left of it to before `p`.
pub proof fn an_address_is_found_from_each_of_its_cells(
    rows: &Vec<Vec<char>>,
    col: usize,
    row: usize,
    r: Option<String>,
    s: int,
    p: int,
    e: int,
)
    requires
        call_ensures(url_at, (rows, col, row), r),
        row < rows@.len(),
        ({
            let line = rows@[row as int]@;
            &&& 0 <= s <= col < e <= line.len()
            &&& forall|x: int| s <= x < e ==> !ends_address(#[trigger] line[x])
            &&& s > 0 ==> ends_address(line[s - 1])
            &&& e < line.len() ==> ends_address(line[e])
            &&& s <= p <= e
            &&& forall|x: int| p <= x < e ==> ends_sentence(#[trigger] line[x])
            &&& p > s ==> !ends_sentence(line[p - 1])
        }),
    ensures
        ({
            let found = rows@[row as int]@.subrange(s, p);
            &&& r is Some <==> begins_with_scheme(found)
            &&& r is Some ==> r->0@ == found
        }),
{
    let line = rows@[row as int]@;
    lemma_address_char(line[col as int]);
    lemma_run_start(line, s, col as int);
    lemma_run_end(line, e, col as int);
    let raw = line.subrange(s, e);
    lemma_trimmed(raw, p - s);
    assert(raw.take(p - s) =~= line.subrange(s, p));
    lemma_scheme(line.subrange(s, p));
}

/// Where there is no cell, or one that ends addresses, no address is found.
pub proof fn no_address_is_found_between_addresses(rows: &Vec<Vec<char>>, col: usize, row: usize, r: Option<String>)
    requires
        call_ensures(url_at, (rows, col, row), r),
        row < rows@.len() && col < rows@[row as int]@.len() ==> ends_address(rows@[row as int]@[col as int]),
    ensures
        r is None,
{
    if row < rows@.len() && col < rows@[row as int]@.len() {
        lemma_address_char(rows@[row as int]@[col as int]);
    }
}

proof fn lemma_last_column(line: Seq<char>)
    ensures
        ({
            let n = last_column(line);
            &&& 0 <= n
            &&& line.len() > 0 ==> n < line.len()
            &&& forall|x: int| n < x < line.len() ==> #[trigger] line[x] == ' '
            &&& n > 0 ==> line[n] != ' '
        }),
    decreases line.len(),
{
    if line.len() > 0 && line.last() == ' ' {
        lemma_last_column(line.drop_last());
        assert forall|x: int| last_column(line) < x < line.len() implies #[trigger] line[x] == ' ' by {
            if x < line.len() - 1 {
                assert(line.drop_last()[x] == ' ');
            }
        }
    }
}

/// A line is selected up to its last cell that is not blank: behind it there are only
/// blanks.
pub proof fn a_line_ends_before_its_blanks(rows: &Vec<Vec<char>>, row: usize, r: usize)
    requires
        call_ensures(line_last_col, (rows, row), r),
    ensures
        row < rows@.len() ==> {
            let line = rows@[row as int]@;
            &&& forall|x: int| r < x < line.len() ==> #[trigger] line[x] == ' '
            &&& r > 0 ==> r < line.len() && line[r as int] != ' '
        },
        row >= rows@.len() ==> r == 0,
{
    if row < rows@.len() {
        lemma_last_column(rows@[row as int]@);
    }
}

/// Whether a row goes on in the next.
pub open spec fn wraps(wrapped: Seq<bool>, r: int) -> bool {
    0 <= r < wrapped.len() && wrapped[r]
}

proof fn lemma_line_start(wrapped: Seq<bool>, r: int)
    requires
        0 <= r,
    ensures
        0 <= line_start(wrapped, r) <= r,
        forall|x: int| line_start(wrapped, r) <= x < r ==> #[trigger] wraps(wrapped, x),
        line_start(wrapped, r) > 0 && line_start(wrapped, r) - 1 < wrapped.len() ==> !wrapped[line_start(
            wrapped,
            r,
        ) - 1],
    decreases r,
{
    if r > 0 && crate::selection::goes_on(wrapped, r - 1) {
        lemma_line_start(wrapped, r - 1);
    }
}

proof fn lemma_line_end(wrapped: Seq<bool>, screen: int, r: int)
    requires
        0 <= r,
    ensures
        r <= line_end(wrapped, screen, r),
        r < screen ==> line_end(wrapped, screen, r) < screen,
        forall|x: int| r <= x < line_end(wrapped, screen, r) ==> #[trigger] wraps(wrapped, x),
        line_end(wrapped, screen, r) + 1 < screen && line_end(wrapped, screen, r) < wrapped.len()
            ==> !wrapped[line_end(wrapped, screen, r)],
    decreases screen - r,
{
    if r + 1 < screen && crate::selection::goes_on(wrapped, r) {
        lemma_line_end(wrapped, screen, r + 1);
    }
}

/// A line is all the rows that go on in one another: every one of them but the last goes on
/// in the next, and neither the row before the first nor the last one does.
pub proof fn a_line_is_all_rows_that_go_on(wrapped: &Vec<bool>, screen: usize, row: usize, r: (usize, usize))
    requires
        call_ensures(logical_line, (wrapped, screen, row), r),
    ensures
        ({
            let (top, bottom) = r;
            &&& top <= row <= bottom
            &&& row < screen ==> bottom < screen
            &&& forall|x: int| top <= x < bottom ==> #[trigger] wraps(wrapped@, x)
            &&& top > 0 && top - 1 < wrapped@.len() ==> !wrapped@[top - 1]
            &&& bottom + 1 < screen && bottom < wrapped@.len() ==> !wrapped@[bottom as int]
        }),
{
    lemma_line_start(wrapped@, row as int);
    lemma_line_end(wrapped@, screen as int, row as int);
    let (top, bottom) = r;
    assert forall|x: int| top <= x < bottom implies #[trigger] wraps(wrapped@, x) by {
        if x < row {
            assert(line_start(wrapped@, row as int) <= x);
        } else {
            assert(x < line_end(wrapped@, screen as int, row as int));
        }
    }
}

proof fn lemma_authority_first(url: Seq<char>, from: int, i: int)
    requires
        0 <= from <= i,
        i + 2 < url.len(),
        url[i] == ':' && url[i + 1] == '/' && url[i + 2] == '/',
        forall|k: int|
            from <= k < i ==> !(#[trigger] url[k] == ':' && url[k + 1] == '/' && url[k + 2] == '/'),
    ensures
        authority_from(url, from) == Some(i),
    decreases i - from,
{
    if from < i {
        assert(!(url[from] == ':' && url[from + 1] == '/' && url[from + 2] == '/'));
        lemma_authority_first(url, from + 1, i);
    }
}

proof fn lemma_host(url: Seq<char>, from: int, end: int)
    requires
        0 <= from <= end <= url.len(),
        forall|k: int| from <= k < end ==> #[trigger] url[k] != '/' && url[k] != '?' && url[k] != '#',
        end < url.len() ==> url[end] == '/' || url[end] == '?' || url[end] == '#',
    ensures
        host_end(url, from) == end,
    decreases end - from,
{
    if from < end {
        lemma_host(url, from + 1, end);
    }
}

/// A log shows of an address its scheme and its host, and of what follows the host only that
/// something does. `i` is where `://` first stands, and `end` where the host ends.
pub proof fn a_log_shows_scheme_and_host(url: &str, r: String, i: int, end: int)
    requires
        call_ensures(redact_url, (url,), r),
        0 <= i,
        i + 3 <= end <= url@.len(),
        url@[i] == ':' && url@[i + 1] == '/' && url@[i + 2] == '/',
        forall|k: int|
            0 <= k < i ==> !(#[trigger] url@[k] == ':' && url@[k + 1] == '/' && url@[k + 2] == '/'),
        forall|k: int| i + 3 <= k < end ==> #[trigger] url@[k] != '/' && url@[k] != '?' && url@[k] != '#',
        end < url@.len() ==> url@[end] == '/' || url@[end] == '?' || url@[end] == '#',
    ensures
        end == url@.len() ==> r@ == url@,
        end < url@.len() ==> r@ == url@.take(end) + seq!['/', '…'],
{
    lemma_authority_first(url@, 0, i);
    lemma_host(url@, i + 3, end);
    reveal_strlit("/…");
    assert("/…"@ =~= seq!['/', '…']);
    if end == url@.len() {
        assert(url@.take(end) + Seq::<char>::empty() =~= url@);
    }
}

proof fn lemma_no_authority(url: Seq<char>, from: int)
    requires
        0 <= from,
        forall|k: int| 0 <= k && k + 2 < url.len() ==> !(#[trigger] url[k] == ':' && url[k + 1] == '/' && url[k
            + 2] == '/'),
    ensures
        authority_from(url, from) is None,
    decreases url.len() - from,
{
    if from + 2 < url.len() {
        assert(!(url[from] == ':' && url[from + 1] == '/' && url[from + 2] == '/'));
        lemma_no_authority(url, from + 1);
    }
}

proof fn lemma_colon(url: Seq<char>, from: int, i: int)
    requires
        0 <= from <= i < url.len(),
        url[i] == ':',
        forall|k: int| from <= k < i ==> #[trigger] url[k] != ':',
    ensures
        colon_from(url, from) == Some(i),
    decreases i - from,
{
    if from < i {
        assert(url[from] != ':');
        lemma_colon(url, from + 1, i);
    }
}

/// Of an address without a host, such as one to write to, a log shows the scheme alone.
pub proof fn a_log_shows_no_address_without_a_host(url: &str, r: String, i: int)
    requires
        call_ensures(redact_url, (url,), r),
        forall|k: int| 0 <= k && k + 2 < url@.len() ==> !(#[trigger] url@[k] == ':' && url@[k + 1] == '/' && url@[k
            + 2] == '/'),
        0 <= i < url@.len() - 1,
        url@[i] == ':',
        forall|k: int| 0 <= k < i ==> #[trigger] url@[k] != ':',
    ensures
        r@ == url@.take(i) + seq![':', '…'],
{
    lemma_no_authority(url@, 0);
    lemma_colon(url@, 0, i);
    reveal_strlit(":…");
    assert(":…"@ =~= seq![':', '…']);
}

proof fn lemma_no_colon(url: Seq<char>, from: int, end: int)
    requires
        0 <= from <= end <= url.len(),
        forall|k: int| from <= k < end ==> #[trigger] url[k] != ':',
    ensures
        colon_from(url, from) == colon_from(url, end),
    decreases end - from,
{
    if from < end {
        lemma_no_colon(url, from + 1, end);
    }
}

/// What names neither a host nor anything behind a scheme is not shown in a log at all.
pub proof fn a_log_shows_nothing_of_what_is_no_address(url: &str, r: String)
    requires
        call_ensures(redact_url, (url,), r),
        forall|k: int| 0 <= k < url@.len() - 1 ==> #[trigger] url@[k] != ':',
    ensures
        r@ == seq!['…'],
{
    assert forall|k: int| 0 <= k && k + 2 < url@.len() implies !(#[trigger] url@[k] == ':' && url@[k + 1] == '/'
        && url@[k + 2] == '/') by {}
    lemma_no_authority(url@, 0);
    reveal_strlit("…");
    assert("…"@ =~= seq!['…']);
    reveal_with_fuel(colon_from, 3);
    if url@.len() > 0 {
        lemma_no_colon(url@, 0, url@.len() - 1);
    }
}

} // verus!

//! Text selections, and what a click finds in the text.
//!
//! A selection is anchored to lines of the buffer, not to rows of the screen: the row
//! `r` of a pane scrolled back by `d` lines shows line `r - d`. So a later change of
//! the scroll moves the highlight with the text.
use vstd::prelude::*;
use vstd::string::*;
use crate::text::{
    begins_with, char_vec, is_whitespace, one_of, text_of, text_view, whitespace,
};

verus! {

broadcast use vstd::string::group_string_axioms;

/// A cell of a pane's buffer. Lines above the screen are negative.
#[derive(Debug, Clone, Copy, PartialEq, Eq, Structural)]
pub struct Spot {
    pub col: usize,
    pub line: i32,
}

/// A text selection within one pane: from where the drag began to where it is now, line
/// by line, or, as a block, the rectangle between the two corners.
#[derive(Debug, Clone, Copy, PartialEq, Eq, Structural)]
pub struct Selection {
    pub pane: u64,
    pub anchor: Spot,
    pub head: Spot,
    pub block: bool,
}

/// The order of reading: top to bottom, then left to right.
pub open spec fn reads_before(a: Spot, b: Spot) -> bool {
    a.line < b.line || (a.line == b.line && a.col <= b.col)
}

/// Whether `x` lies between two numbers, whichever is the greater.
pub open spec fn between(x: int, a: int, b: int) -> bool {
    (a <= x && x <= b) || (b <= x && x <= a)
}

impl Selection {
    /// The end of the selection that is read first.
    pub open spec fn first(&self) -> Spot {
        if reads_before(self.anchor, self.head) {
            self.anchor
        } else {
            self.head
        }
    }

    /// The end of the selection that is read last.
    pub open spec fn last(&self) -> Spot {
        if reads_before(self.anchor, self.head) {
            self.head
        } else {
            self.anchor
        }
    }

    /// Whether the selection holds a cell: in the rectangle between its corners, or in
    /// reading order between its ends.
    pub open spec fn holds(&self, at: Spot) -> bool {
        if self.block {
            between(at.line as int, self.anchor.line as int, self.head.line as int) && between(
                at.col as int,
                self.anchor.col as int,
                self.head.col as int,
            )
        } else {
            reads_before(self.first(), at) && reads_before(at, self.last())
        }
    }

    /// The two ends, the one that is read first before the other.
    pub fn ordered(&self) -> (r: (Spot, Spot))
        ensures
            r.0 == self.first(),
            r.1 == self.last(),
    {
        if self.anchor.line < self.head.line || (self.anchor.line == self.head.line && self.anchor.col
            <= self.head.col) {
            (self.anchor, self.head)
        } else {
            (self.head, self.anchor)
        }
    }

    /// Whether the cell in column `col` of the buffer line `line` is selected.
    pub fn contains(&self, col: usize, line: i32) -> (r: bool)
        ensures
            r == self.holds(Spot { col, line }),
    {
        if self.block {
            let (c0, c1): (usize, usize) = if self.anchor.col <= self.head.col {
                (self.anchor.col, self.head.col)
            } else {
                (self.head.col, self.anchor.col)
            };
            let (l0, l1): (i32, i32) = if self.anchor.line <= self.head.line {
                (self.anchor.line, self.head.line)
            } else {
                (self.head.line, self.anchor.line)
            };
            return line >= l0 && line <= l1 && col >= c0 && col <= c1;
        }
        let (start, end): (Spot, Spot) = self.ordered();
        if line < start.line || line > end.line {
            return false;
        }
        (line != start.line || col >= start.col) && (line != end.line || col <= end.col)
    }
}

/// A selection does not depend on which end the drag began at, and always holds both of
/// its ends.
pub proof fn a_selection_has_no_direction(s: Selection, at: Spot)
    ensures
        s.holds(at) == (Selection { anchor: s.head, head: s.anchor, ..s }).holds(at),
        s.holds(s.anchor),
        s.holds(s.head),
{
}

/// What a pane shows: its rows of characters, how wide it is, and which rows go on in
/// the next.
#[derive(Debug, Clone)]
pub struct Grid {
    pub rows: Vec<Vec<char>>,
    pub cols: usize,
    pub wrapped: Vec<bool>,
}

/// The character in a cell.
pub open spec fn cell(rows: Seq<Vec<char>>, r: int, c: int) -> Option<char> {
    if 0 <= r < rows.len() && 0 <= c < rows[r]@.len() {
        Some(rows[r]@[c])
    } else {
        None
    }
}

/// Whether a row goes on in the next.
pub open spec fn goes_on(wrapped: Seq<bool>, r: int) -> bool {
    0 <= r < wrapped.len() && wrapped[r]
}

/// Whether a character is a letter or a digit in any script, as `char::is_alphanumeric`
/// has it.
pub uninterp spec fn alphanumeric(c: char) -> bool;

/// `char::is_alphanumeric` says whether a character is alphabetic or numeric by
/// Unicode's tables, which is named [`alphanumeric`].
pub assume_specification[ char::is_alphanumeric ](c: char) -> (r: bool)
    ensures
        r == alphanumeric(c),
;

/// The characters that belong to a word beside letters and digits: those common in
/// paths, addresses and keys.
pub open spec fn word_symbols() -> Seq<char> {
    "-_./~:@%+#=?&"@
}

/// Whether `c` belongs to a word.
pub open spec fn word_char(c: char) -> bool {
    alphanumeric(c) || word_symbols().contains(c)
}

/// Whether `c` belongs to a word.
pub fn is_word(c: char) -> (r: bool)
    ensures
        r == word_char(c),
{
    c.is_alphanumeric() || one_of("-_./~:@%+#=?&", c)
}

/// Which cells belong to words.
pub open spec fn in_word(words: Seq<Seq<bool>>, r: int, c: int) -> bool {
    0 <= r < words.len() && 0 <= c < words[r].len() && words[r][c]
}

/// The contents of a table of flags.
pub open spec fn flag_views(v: Seq<Vec<bool>>) -> Seq<Seq<bool>> {
    Seq::new(v.len(), |i: int| v[i]@)
}

/// The first cell of the word that the cell `(r, c)` is in.
pub open spec fn word_start(words: Seq<Seq<bool>>, wrapped: Seq<bool>, cols: int, r: int, c: int) -> (int, int)
    decreases r, c,
{
    if c > 0 {
        if in_word(words, r, c - 1) {
            word_start(words, wrapped, cols, r, c - 1)
        } else {
            (r, c)
        }
    } else if r > 0 && cols > 0 && goes_on(wrapped, r - 1) && in_word(words, r - 1, cols - 1) {
        word_start(words, wrapped, cols, r - 1, cols - 1)
    } else {
        (r, c)
    }
}

/// The last cell of the word that the cell `(r, c)` is in.
pub open spec fn word_end(words: Seq<Seq<bool>>, wrapped: Seq<bool>, cols: int, r: int, c: int) -> (int, int)
    decreases wrapped.len() - r, cols - c,
{
    if c + 1 < cols {
        if in_word(words, r, c + 1) {
            word_end(words, wrapped, cols, r, c + 1)
        } else {
            (r, c)
        }
    } else if goes_on(wrapped, r) && in_word(words, r + 1, 0) {
        word_end(words, wrapped, cols, r + 1, 0)
    } else {
        (r, c)
    }
}

/// A run of cells on the screen, from its first to its last.
#[derive(Debug, Clone, Copy, PartialEq, Eq, Structural)]
pub struct Run {
    pub start_col: usize,
    pub start_row: usize,
    pub end_col: usize,
    pub end_row: usize,
}

/// The cells of the word at `(row, col)`: of the cell alone, where it is in none.
pub open spec fn word_run(words: Seq<Seq<bool>>, wrapped: Seq<bool>, cols: int, r: int, c: int) -> (
    (int, int),
    (int, int),
) {
    if in_word(words, r, c) {
        (word_start(words, wrapped, cols, r, c), word_end(words, wrapped, cols, r, c))
    } else {
        ((r, c), (r, c))
    }
}

fn flagged(words: &Vec<Vec<bool>>, r: usize, c: usize) -> (b: bool)
    ensures
        b == in_word(flag_views(words@), r as int, c as int),
{
    r < words.len() && c < words[r].len() && words[r][c]
}

fn row_goes_on(wrapped: &Vec<bool>, r: usize) -> (b: bool)
    ensures
        b == goes_on(wrapped@, r as int),
{
    r < wrapped.len() && wrapped[r]
}

/// The cells of the word at `(row, col)`, `words` saying which cells belong to words. A
/// word goes on over the end of a row that goes on in the next.
pub fn grow_word(words: &Vec<Vec<bool>>, wrapped: &Vec<bool>, cols: usize, row: usize, col: usize) -> (r: Run)
    ensures
        ((r.start_row as int, r.start_col as int), (r.end_row as int, r.end_col as int)) == word_run(
            flag_views(words@),
            wrapped@,
            cols as int,
            row as int,
            col as int,
        ),
{
    if !flagged(words, row, col) {
        return Run { start_col: col, start_row: row, end_col: col, end_row: row };
    }
    let mut sr: usize = row;
    let mut sc: usize = col;
    let mut more: bool = true;
    while more
        invariant
            word_start(flag_views(words@), wrapped@, cols as int, sr as int, sc as int) == word_start(
                flag_views(words@),
                wrapped@,
                cols as int,
                row as int,
                col as int,
            ),
            !more ==> word_start(flag_views(words@), wrapped@, cols as int, sr as int, sc as int) == (
                sr as int,
                sc as int,
            ),
        decreases sr, sc, (if more { 1int } else { 0 }),
    {
        if sc > 0 {
            if flagged(words, sr, sc - 1) {
                sc = sc - 1;
            } else {
                more = false;
            }
        } else if sr > 0 && cols > 0 && row_goes_on(wrapped, sr - 1) && flagged(words, sr - 1, cols - 1) {
            sr = sr - 1;
            sc = cols - 1;
        } else {
            more = false;
        }
    }
    let mut er: usize = row;
    let mut ec: usize = col;
    let mut on: bool = true;
    while on
        invariant
            in_word(flag_views(words@), er as int, ec as int),
            word_end(flag_views(words@), wrapped@, cols as int, er as int, ec as int) == word_end(
                flag_views(words@),
                wrapped@,
                cols as int,
                row as int,
                col as int,
            ),
            !on ==> word_end(flag_views(words@), wrapped@, cols as int, er as int, ec as int) == (
                er as int,
                ec as int,
            ),
        decreases words@.len() - er, (if ec < cols { cols - ec } else { 0 }), (if on { 1int } else { 0 }),
    {
        if ec < cols && cols - ec > 1 {
            if flagged(words, er, ec + 1) {
                ec = ec + 1;
            } else {
                on = false;
            }
        } else if er < words.len() - 1 && row_goes_on(wrapped, er) && flagged(words, er + 1, 0) {
            er = er + 1;
            ec = 0;
        } else {
            on = false;
        }
    }
    Run { start_col: sc, start_row: sr, end_col: ec, end_row: er }
}

/// Which cells of a pane hold characters of words.
pub open spec fn word_flags(rows: Seq<Vec<char>>) -> Seq<Seq<bool>> {
    Seq::new(rows.len(), |r: int| Seq::new(rows[r]@.len(), |c: int| word_char(rows[r]@[c])))
}

fn flag_words(rows: &Vec<Vec<char>>) -> (words: Vec<Vec<bool>>)
    ensures
        flag_views(words@) == word_flags(rows@),
{
    let mut words: Vec<Vec<bool>> = Vec::new();
    let mut r: usize = 0;
    while r < rows.len()
        invariant
            r <= rows@.len(),
            words@.len() == r,
            forall|k: int| #![trigger words@[k]] 0 <= k < r ==> words@[k]@ == word_flags(rows@)[k],
        decreases rows@.len() - r,
    {
        let row: &Vec<char> = &rows[r];
        let mut flags: Vec<bool> = Vec::new();
        let mut c: usize = 0;
        while c < row.len()
            invariant
                c <= row@.len(),
                flags@.len() == c,
                forall|k: int| 0 <= k < c ==> flags@[k] == word_char(#[trigger] row@[k]),
            decreases row@.len() - c,
        {
            flags.push(is_word(row[c]));
            c = c + 1;
        }
        assert(flags@ =~= word_flags(rows@)[r as int]);
        words.push(flags);
        r = r + 1;
    }
    assert(flag_views(words@) =~= word_flags(rows@));
    words
}

/// The word under the cell `(col, row)`, for a double click: letters, digits and the
/// symbols common in paths, over the ends of rows that go on in the next. A cell that
/// is in no word is selected alone; past the contents of its row there is nothing.
pub fn word_at(grid: &Grid, col: usize, row: usize) -> (r: Option<Run>)
    ensures
        r is Some <==> cell(grid.rows@, row as int, col as int) is Some,
        r is Some ==> (
            (r->0.start_row as int, r->0.start_col as int),
            (r->0.end_row as int, r->0.end_col as int),
        ) == word_run(
            word_flags(grid.rows@),
            grid.wrapped@,
            grid.cols as int,
            row as int,
            col as int,
        ),
{
    if row >= grid.rows.len() || col >= grid.rows[row].len() {
        return None;
    }
    let words: Vec<Vec<bool>> = flag_words(&grid.rows);
    Some(grow_word(&words, &grid.wrapped, grid.cols, row, col))
}

/// A word is found whole: it begins where the cell before it is no part of a word, and
/// reads on from there to the cell that was asked about.
pub proof fn a_word_begins_where_no_word_goes_on(
    words: Seq<Seq<bool>>,
    wrapped: Seq<bool>,
    cols: int,
    r: int,
    c: int,
)
    requires
        0 <= r,
        0 <= c,
        in_word(words, r, c),
    ensures
        ({
            let (sr, sc) = word_start(words, wrapped, cols, r, c);
            &&& 0 <= sr <= r
            &&& 0 <= sc
            &&& in_word(words, sr, sc)
            &&& if sc > 0 {
                !in_word(words, sr, sc - 1)
            } else {
                !(sr > 0 && cols > 0 && goes_on(wrapped, sr - 1) && in_word(words, sr - 1, cols - 1))
            }
        }),
    decreases r, c,
{
    if c > 0 {
        if in_word(words, r, c - 1) {
            a_word_begins_where_no_word_goes_on(words, wrapped, cols, r, c - 1);
        }
    } else if r > 0 && cols > 0 && goes_on(wrapped, r - 1) && in_word(words, r - 1, cols - 1) {
        a_word_begins_where_no_word_goes_on(words, wrapped, cols, r - 1, cols - 1);
    }
}

/// A word is found whole: it ends where the cell after it is no part of a word.
pub proof fn a_word_ends_where_no_word_goes_on(
    words: Seq<Seq<bool>>,
    wrapped: Seq<bool>,
    cols: int,
    r: int,
    c: int,
)
    requires
        0 <= r,
        0 <= c,
        in_word(words, r, c),
    ensures
        ({
            let (er, ec) = word_end(words, wrapped, cols, r, c);
            &&& r <= er
            &&& in_word(words, er, ec)
            &&& if ec + 1 < cols {
                !in_word(words, er, ec + 1)
            } else {
                !(goes_on(wrapped, er) && in_word(words, er + 1, 0))
            }
        }),
    decreases wrapped.len() - r, cols - c,
{
    if c + 1 < cols {
        if in_word(words, r, c + 1) {
            a_word_ends_where_no_word_goes_on(words, wrapped, cols, r, c + 1);
        }
    } else if goes_on(wrapped, r) && in_word(words, r + 1, 0) {
        a_word_ends_where_no_word_goes_on(words, wrapped, cols, r + 1, 0);
    }
}

/// The characters that end an address in running text.
pub open spec fn address_enders() -> Seq<char> {
    "\"'<>`(){}[]"@
}

/// Whether `c` can be part of an address.
pub open spec fn address_char(c: char) -> bool {
    !whitespace(c) && !address_enders().contains(c)
}

fn is_url_char(c: char) -> (r: bool)
    ensures
        r == address_char(c),
{
    !is_whitespace(c) && !one_of("\"'<>`(){}[]", c)
}

/// The first column of the address characters round `c`.
pub open spec fn address_start(line: Seq<char>, c: int) -> int
    decreases c,
{
    if c > 0 && address_char(line[c - 1]) {
        address_start(line, c - 1)
    } else {
        c
    }
}

/// The last column of the address characters round `c`.
pub open spec fn address_end(line: Seq<char>, c: int) -> int
    decreases line.len() - c,
{
    if c + 1 < line.len() && address_char(line[c + 1]) {
        address_end(line, c + 1)
    } else {
        c
    }
}

/// `s` without the punctuation at its end that belongs to the sentence round it.
pub open spec fn without_punctuation(s: Seq<char>) -> Seq<char>
    decreases s.len(),
{
    if s.len() > 0 && ".,;:!?"@.contains(s.last()) {
        without_punctuation(s.drop_last())
    } else {
        s
    }
}

/// Whether `s` begins as an address does.
pub open spec fn has_scheme(s: Seq<char>) -> bool {
    "http://"@.is_prefix_of(s) || "https://"@.is_prefix_of(s) || "ftp://"@.is_prefix_of(s)
        || "file://"@.is_prefix_of(s) || "mailto:"@.is_prefix_of(s)
}

/// The address at a cell of a line.
pub open spec fn address_at(line: Seq<char>, c: int) -> Option<Seq<char>> {
    if 0 <= c < line.len() && address_char(line[c]) {
        let found = without_punctuation(
            line.subrange(address_start(line, c), address_end(line, c) + 1),
        );
        if has_scheme(found) {
            Some(found)
        } else {
            None
        }
    } else {
        None
    }
}

/// The address under the cell `(col, row)`, for opening it: the run of address
/// characters round the cell, without the punctuation at its end, where it begins with
/// a known scheme.
pub fn url_at(rows: &Vec<Vec<char>>, col: usize, row: usize) -> (r: Option<String>)
    ensures
        text_view(r) == (if row < rows@.len() {
            address_at(rows@[row as int]@, col as int)
        } else {
            None
        }),
{
    if row >= rows.len() {
        return None;
    }
    let line: &Vec<char> = &rows[row];
    if col >= line.len() || !is_url_char(line[col]) {
        return None;
    }
    let mut s: usize = col;
    while s > 0 && is_url_char(line[s - 1])
        invariant
            s <= col < line@.len(),
            address_start(line@, s as int) == address_start(line@, col as int),
        ensures
            s == address_start(line@, col as int),
        decreases s,
    {
        s = s - 1;
    }
    let mut e: usize = col;
    while e < line.len() - 1 && is_url_char(line[e + 1])
        invariant
            col <= e < line@.len(),
            address_end(line@, e as int) == address_end(line@, col as int),
        ensures
            e == address_end(line@, col as int),
        decreases line@.len() - e,
    {
        e = e + 1;
    }
    let ghost raw = line@.subrange(s as int, e + 1);
    let mut to: usize = e + 1;
    assert(line@.subrange(s as int, to as int) =~= raw);
    while to > s && one_of(".,;:!?", line[to - 1])
        invariant
            s <= to <= line@.len(),
            without_punctuation(line@.subrange(s as int, to as int)) == without_punctuation(raw),
        ensures
            without_punctuation(raw) == line@.subrange(s as int, to as int),
        decreases to,
    {
        assert(line@.subrange(s as int, to as int).drop_last() =~= line@.subrange(s as int, to - 1));
        to = to - 1;
    }
    let url: String = text_of(line, s, to);
    let v: Vec<char> = char_vec(url.as_str());
    if begins_with(&v, "http://") || begins_with(&v, "https://") || begins_with(&v, "ftp://") || begins_with(
        &v,
        "file://",
    ) || begins_with(&v, "mailto:") {
        Some(url)
    } else {
        None
    }
}

/// The last column of a line that is not blank, for a triple click: the first, on a
/// blank line.
pub open spec fn last_column(line: Seq<char>) -> int
    decreases line.len(),
{
    if line.len() == 0 {
        0
    } else if line.last() != ' ' {
        line.len() - 1
    } else {
        last_column(line.drop_last())
    }
}

/// The last column of `row` that is not blank: the first, where there is none.
pub fn line_last_col(rows: &Vec<Vec<char>>, row: usize) -> (r: usize)
    ensures
        r == (if row < rows@.len() {
            last_column(rows@[row as int]@)
        } else {
            0
        }),
{
    if row >= rows.len() {
        return 0;
    }
    let line: &Vec<char> = &rows[row];
    let mut n: usize = line.len();
    assert(line@.take(n as int) =~= line@);
    while n > 0
        invariant
            n <= line@.len(),
            row < rows@.len(),
            line@ == rows@[row as int]@,
            last_column(line@.take(n as int)) == last_column(line@),
        decreases n,
    {
        if line[n - 1] != ' ' {
            return n - 1;
        }
        assert(line@.take(n as int).drop_last() =~= line@.take(n - 1));
        n = n - 1;
    }
    0
}

/// The first row of the line that `r` is part of: those above that go on in it belong
/// to it.
pub open spec fn line_start(wrapped: Seq<bool>, r: int) -> int
    decreases r,
{
    if r > 0 && goes_on(wrapped, r - 1) {
        line_start(wrapped, r - 1)
    } else {
        r
    }
}

/// The last row, of `screen` rows, of the line that `r` is part of.
pub open spec fn line_end(wrapped: Seq<bool>, screen: int, r: int) -> int
    decreases screen - r,
{
    if r + 1 < screen && goes_on(wrapped, r) {
        line_end(wrapped, screen, r + 1)
    } else {
        r
    }
}

/// The first and last row of the line that `row` is part of, rows that go on in the next
/// counting as one line.
pub fn logical_line(wrapped: &Vec<bool>, screen: usize, row: usize) -> (r: (usize, usize))
    ensures
        r.0 == line_start(wrapped@, row as int),
        r.1 == line_end(wrapped@, screen as int, row as int),
        r.0 <= row <= r.1,
{
    let mut top: usize = row;
    while top > 0 && row_goes_on(wrapped, top - 1)
        invariant
            top <= row,
            line_start(wrapped@, top as int) == line_start(wrapped@, row as int),
        ensures
            top == line_start(wrapped@, row as int),
            top <= row,
        decreases top,
    {
        top = top - 1;
    }
    let mut bottom: usize = row;
    while bottom < screen && screen - bottom > 1 && row_goes_on(wrapped, bottom)
        invariant
            row <= bottom,
            line_end(wrapped@, screen as int, bottom as int) == line_end(wrapped@, screen as int, row as int),
        ensures
            bottom == line_end(wrapped@, screen as int, row as int),
            row <= bottom,
        decreases screen - bottom,
    {
        bottom = bottom + 1;
    }
    (top, bottom)
}

/// Whether `://` stands at `i`.
pub open spec fn authority_at(url: Seq<char>, i: int) -> bool {
    0 <= i && i + 2 < url.len() && url[i] == ':' && url[i + 1] == '/' && url[i + 2] == '/'
}

/// Where `://` first stands, from `i` on.
pub open spec fn authority_from(url: Seq<char>, i: int) -> Option<int>
    decreases url.len() - i,
{
    if i + 2 >= url.len() || i < 0 {
        None
    } else if authority_at(url, i) {
        Some(i)
    } else {
        authority_from(url, i + 1)
    }
}

/// Where the host that begins at `i` ends: before a path, a query or a fragment.
pub open spec fn host_end(url: Seq<char>, i: int) -> int
    decreases url.len() - i,
{
    if i >= url.len() || url[i] == '/' || url[i] == '?' || url[i] == '#' {
        i
    } else {
        host_end(url, i + 1)
    }
}

/// Where a colon first stands, from `i` on.
pub open spec fn colon_from(url: Seq<char>, i: int) -> Option<int>
    decreases url.len() - i,
{
    if i >= url.len() || i < 0 {
        None
    } else if url[i] == ':' {
        Some(i)
    } else {
        colon_from(url, i + 1)
    }
}

/// An address as a log may show it: its scheme and host.
pub open spec fn redacted(url: Seq<char>) -> Seq<char> {
    match authority_from(url, 0) {
        Some(i) => {
            let end = host_end(url, i + 3);
            url.take(end) + if end < url.len() {
                "/…"@
            } else {
                Seq::empty()
            }
        },
        None => match colon_from(url, 0) {
            Some(i) => if i + 1 < url.len() {
                url.take(i) + ":…"@
            } else {
                "…"@
            },
            None => "…"@,
        },
    }
}

/// An address as a log may show it: the scheme and the host, or the scheme alone. A
/// path, a query or a fragment may carry what must not be logged.
pub fn redact_url(url: &str) -> (r: String)
    ensures
        r@ == redacted(url@),
{
    let v: Vec<char> = char_vec(url);
    let n: usize = v.len();
    let mut i: usize = 0;
    while i < n && n - i > 2
        invariant
            i <= n,
            n == v@.len(),
            v@ == url@,
            authority_from(url@, i as int) == authority_from(url@, 0),
        decreases n - i,
    {
        if v[i] == ':' && v[i + 1] == '/' && v[i + 2] == '/' {
            let mut end: usize = i + 3;
            while end < n && v[end] != '/' && v[end] != '?' && v[end] != '#'
                invariant
                    end <= n,
                    n == v@.len(),
                    v@ == url@,
                    host_end(url@, end as int) == host_end(url@, i + 3),
                ensures
                    end == host_end(url@, i + 3),
                    end <= n,
                decreases n - end,
            {
                end = end + 1;
            }
            let mut out: String = text_of(&v, 0, end);
            assert(v@.subrange(0, end as int) =~= url@.take(end as int));
            if end < n {
                out.append("/…");
            } else {
                assert(url@.take(end as int) + Seq::<char>::empty() =~= url@.take(end as int));
            }
            return out;
        }
        i = i + 1;
    }
    assert(authority_from(url@, 0) is None);
    let mut j: usize = 0;
    while j < n && v[j] != ':'
        invariant
            j <= n,
            n == v@.len(),
            v@ == url@,
            colon_from(url@, j as int) == colon_from(url@, 0),
        ensures
            colon_from(url@, 0) == (if j < n {
                Some(j as int)
            } else {
                None
            }),
            j <= n,
        decreases n - j,
    {
        j = j + 1;
    }
    if j < n && n - j > 1 {
        let mut out: String = text_of(&v, 0, j);
        assert(v@.subrange(0, j as int) =~= url@.take(j as int));
        out.append(":…");
        out
    } else {
        "…".to_string()
    }
}

proof fn lemma_authority_found(url: Seq<char>, from: int)
    requires
        0 <= from,
        authority_from(url, from) is Some,
    ensures
        from <= authority_from(url, from)->0,
        authority_at(url, authority_from(url, from)->0),
        forall|k: int| from <= k < authority_from(url, from)->0 ==> !authority_at(url, k),
    decreases url.len() - from,
{
    if !authority_at(url, from) {
        lemma_authority_found(url, from + 1);
    }
}

proof fn lemma_authority_is_first(url: Seq<char>, from: int, at: int)
    requires
        0 <= from <= at,
        authority_at(url, at),
        forall|k: int| from <= k < at ==> !authority_at(url, k),
    ensures
        authority_from(url, from) == Some(at),
    decreases at - from,
{
    if from < at {
        lemma_authority_is_first(url, from + 1, at);
    }
}

proof fn lemma_host_end(url: Seq<char>, from: int)
    requires
        0 <= from <= url.len(),
    ensures
        from <= host_end(url, from) <= url.len(),
        forall|k: int| from <= k < host_end(url, from) ==> url[k] != '/' && url[k] != '?' && url[k] != '#',
    decreases url.len() - from,
{
    if from < url.len() && url[from] != '/' && url[from] != '?' && url[from] != '#' {
        lemma_host_end(url, from + 1);
    }
}

proof fn lemma_host_ends_at(url: Seq<char>, from: int, end: int)
    requires
        0 <= from <= end < url.len(),
        url[end] == '/' || url[end] == '?' || url[end] == '#',
        forall|k: int| from <= k < end ==> url[k] != '/' && url[k] != '?' && url[k] != '#',
    ensures
        host_end(url, from) == end,
    decreases end - from,
{
    if from < end {
        lemma_host_ends_at(url, from + 1, end);
    }
}

/// A log never learns what follows the host: two addresses that differ only in their
/// path, query or fragment are shown alike.
pub proof fn a_redaction_hides_what_follows_the_host(a: Seq<char>, b: Seq<char>)
    requires
        authority_from(a, 0) is Some,
        ({
            let end = host_end(a, authority_from(a, 0)->0 + 3);
            &&& end < a.len()
            &&& end < b.len()
            &&& a.take(end) == b.take(end)
            &&& b[end] == '/' || b[end] == '?' || b[end] == '#'
        }),
    ensures
        redacted(a) == redacted(b),
{
    lemma_authority_found(a, 0);
    let i = authority_from(a, 0)->0;
    lemma_host_end(a, i + 3);
    let end = host_end(a, i + 3);
    assert forall|k: int| 0 <= k < end implies a[k] == b[k] by {
        assert(a.take(end)[k] == b.take(end)[k]);
    }
    assert(authority_at(b, i));
    assert forall|k: int| 0 <= k < i implies !authority_at(b, k) by {
        assert(!authority_at(a, k));
    }
    lemma_authority_is_first(b, 0, i);
    assert forall|k: int| i + 3 <= k < end implies b[k] != '/' && b[k] != '?' && b[k] != '#' by {
        assert(a[k] == b[k]);
    }
    lemma_host_ends_at(b, i + 3, end);
}

} // verus!

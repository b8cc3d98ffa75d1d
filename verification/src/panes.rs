//! What is drawn of a pane: its cells, its cursor, and what its titlebar says.
use vstd::prelude::*;
use vstd::string::*;
use crate::pane_title::{derived, derived_title, fit, fitted, Keep, ProcFacts};
use crate::search::Match;
use crate::selection::{Selection, Spot};
use crate::settings::Rgb;
use crate::text::{numeral, push_number};

verus! {

broadcast use vstd::string::group_string_axioms;

/// A cell as a pane's terminal has it: its character, its colours and its attributes.
#[derive(Debug, Clone, Copy, PartialEq, Eq, Structural)]
pub struct CellLook {
    pub c: char,
    pub fg: Rgb,
    pub bg: Rgb,
    pub bold: bool,
    pub italic: bool,
    pub underline: bool,
    pub strikeout: bool,
}

/// Where a cell is drawn: in which column of text, and in which column and row of it.
#[derive(Debug, Clone, Copy, PartialEq, Eq, Structural)]
pub struct At {
    pub tile: usize,
    pub col: usize,
    pub row: usize,
}

/// One thing to draw in a cell.
#[derive(Debug, Clone, Copy, PartialEq, Eq, Structural)]
pub enum Op {
    Fill(At, Rgb),
    Glyph(At, char, Rgb, bool, bool),
    Underline(At, Rgb),
    Strikeout(At, Rgb),
}

/// How a pane's rows are laid out: below each other, or in several columns of text of so
/// many rows each; and how much of them there is room for.
#[derive(Debug, Clone, Copy, PartialEq, Eq, Structural)]
pub struct Tiling {
    pub columns: usize,
    pub per_column: usize,
    pub max_cols: usize,
    pub max_rows: usize,
}

impl Tiling {
    /// Whether the text runs in several columns.
    pub open spec fn tiled(&self) -> bool {
        self.columns > 1
    }

    /// Whether a column of text has rows.
    pub open spec fn wf(&self) -> bool {
        self.columns > 1 ==> self.per_column > 0
    }

    /// The column of text that a row is in.
    pub open spec fn tile_of(&self, r: int) -> int {
        if self.tiled() {
            r / self.per_column as int
        } else {
            0
        }
    }

    /// The row of that column.
    pub open spec fn row_of(&self, r: int) -> int {
        if self.tiled() {
            r % self.per_column as int
        } else {
            r
        }
    }

    /// Whether a row is drawn: it is in a column that there is, and there is room.
    pub open spec fn shows(&self, r: int) -> bool {
        (self.tiled() ==> self.tile_of(r) < self.columns) && self.row_of(r) < self.max_rows
    }
}

/// What is marked in a pane: the hits of a search and which of them is the current one,
/// the selection, how far the pane is scrolled back, and the background that cells have
/// by default.
pub struct Marks {
    pub hits: Vec<Match>,
    pub current: usize,
    pub selection: Option<Selection>,
    pub offset: i32,
    pub default_bg: Rgb,
}

/// Whether a hit covers a cell of the screen.
pub open spec fn covers(m: Match, offset: int, r: int, c: int) -> bool {
    m.line + offset == r && m.col <= c < m.col + m.len
}

/// Whether the current hit covers a cell.
pub open spec fn in_current(k: Marks, r: int, c: int) -> bool {
    k.current < k.hits@.len() && covers(k.hits@[k.current as int], k.offset as int, r, c)
}

/// Whether another hit covers a cell.
pub open spec fn in_other(k: Marks, r: int, c: int) -> bool {
    exists|i: int|
        0 <= i < k.hits@.len() && i != k.current && covers(#[trigger] k.hits@[i], k.offset as int, r, c)
}

/// Whether the selection holds a cell.
pub open spec fn in_selection(k: Marks, row: int, c: int) -> bool {
    k.selection is Some && k.selection->0.holds(
        Spot { col: c as usize, line: (row - k.offset) as i32 },
    )
}

/// The colour of the current hit.
pub open spec fn current_colour() -> Rgb {
    Rgb { r: 0xbb, g: 0x99, b: 0x22 }
}

/// The colour of the other hits.
pub open spec fn other_colour() -> Rgb {
    Rgb { r: 0x5a, g: 0x4a, b: 0x10 }
}

/// The colour of the selection.
pub open spec fn selection_colour() -> Rgb {
    Rgb { r: 0x33, g: 0x44, b: 0x66 }
}

/// What a cell is filled with: the current hit's colour before the others', those before
/// the selection's, and that before its own. A cell in the default background is not
/// filled, so that what is behind the window shows through.
pub open spec fn filling(k: Marks, t: Tiling, look: CellLook, r: int, c: int) -> Option<Rgb> {
    if in_current(k, r, c) {
        Some(current_colour())
    } else if in_other(k, r, c) {
        Some(other_colour())
    } else if in_selection(k, t.row_of(r), c) {
        Some(selection_colour())
    } else if look.bg != k.default_bg {
        Some(look.bg)
    } else {
        None
    }
}

/// What is drawn in a cell: its filling, its character unless it is blank, and its lines,
/// which even a blank has.
pub open spec fn cell_ops(k: Marks, t: Tiling, look: CellLook, r: int, c: int) -> Seq<Op> {
    let at = At { tile: t.tile_of(r) as usize, col: c as usize, row: t.row_of(r) as usize };
    (match filling(k, t, look, r, c) {
        Some(colour) => seq![Op::Fill(at, colour)],
        None => Seq::empty(),
    }) + (if look.c != ' ' {
        seq![Op::Glyph(at, look.c, look.fg, look.bold, look.italic)]
    } else {
        Seq::empty()
    }) + (if look.underline {
        seq![Op::Underline(at, look.fg)]
    } else {
        Seq::empty()
    }) + (if look.strikeout {
        seq![Op::Strikeout(at, look.fg)]
    } else {
        Seq::empty()
    })
}

/// What is drawn of the first `n` cells of a row.
pub open spec fn row_ops(k: Marks, t: Tiling, row: Seq<CellLook>, r: int, n: nat) -> Seq<Op>
    decreases n,
{
    if n == 0 {
        Seq::empty()
    } else {
        row_ops(k, t, row, r, (n - 1) as nat) + cell_ops(k, t, row[n - 1], r, n - 1)
    }
}

/// How many cells of a row there is room for.
pub open spec fn room(t: Tiling, row: Seq<CellLook>) -> nat {
    if row.len() < t.max_cols {
        row.len()
    } else {
        t.max_cols as nat
    }
}

/// What is drawn of the first `n` rows of a pane.
pub open spec fn grid_ops(k: Marks, t: Tiling, rows: Seq<Vec<CellLook>>, n: nat) -> Seq<Op>
    decreases n,
{
    if n == 0 {
        Seq::empty()
    } else {
        let r = n - 1;
        grid_ops(k, t, rows, r as nat) + if t.shows(r) {
            row_ops(k, t, rows[r]@, r, room(t, rows[r]@))
        } else {
            Seq::empty()
        }
    }
}

fn is_current(k: &Marks, r: usize, c: usize) -> (b: bool)
    ensures
        b == in_current(*k, r as int, c as int),
{
    if k.current >= k.hits.len() {
        return false;
    }
    hit_covers(k.hits[k.current], k.offset, r, c)
}

fn hit_covers(m: Match, offset: i32, r: usize, c: usize) -> (b: bool)
    ensures
        b == covers(m, offset as int, r as int, c as int),
{
    let row: i64 = m.line as i64 + offset as i64;
    if row < 0 || row as u64 != r as u64 {
        return false;
    }
    m.col <= c && c - m.col < m.len
}

fn is_other(k: &Marks, r: usize, c: usize) -> (b: bool)
    ensures
        b == in_other(*k, r as int, c as int),
{
    let mut i: usize = 0;
    while i < k.hits.len()
        invariant
            i <= k.hits@.len(),
            forall|j: int|
                0 <= j < i && j != k.current ==> !covers(
                    #[trigger] k.hits@[j],
                    k.offset as int,
                    r as int,
                    c as int,
                ),
        decreases k.hits@.len() - i,
    {
        if i != k.current && hit_covers(k.hits[i], k.offset, r, c) {
            return true;
        }
        i = i + 1;
    }
    false
}

fn fill_of(k: &Marks, look: CellLook, r: usize, row: usize, c: usize, t: Tiling) -> (f: Option<Rgb>)
    requires
        row == t.row_of(r as int),
        row <= 0x3fff_ffff,
        0 <= k.offset <= 0x3fff_ffff,
    ensures
        f == filling(*k, t, look, r as int, c as int),
{
    if is_current(k, r, c) {
        return Some(Rgb { r: 0xbb, g: 0x99, b: 0x22 });
    }
    if is_other(k, r, c) {
        return Some(Rgb { r: 0x5a, g: 0x4a, b: 0x10 });
    }
    if let Some(sel) = k.selection {
        if sel.contains(c, row as i32 - k.offset) {
            return Some(Rgb { r: 0x33, g: 0x44, b: 0x66 });
        }
    }
    if look.bg != k.default_bg {
        Some(look.bg)
    } else {
        None
    }
}

fn push_cell(out: &mut Vec<Op>, k: &Marks, t: Tiling, look: CellLook, r: usize, tile: usize, row: usize, c: usize)
    requires
        tile == t.tile_of(r as int),
        row == t.row_of(r as int),
        row <= 0x3fff_ffff,
        0 <= k.offset <= 0x3fff_ffff,
    ensures
        final(out)@ == old(out)@ + cell_ops(*k, t, look, r as int, c as int),
{
    let at: At = At { tile, col: c, row };
    if let Some(colour) = fill_of(k, look, r, row, c, t) {
        out.push(Op::Fill(at, colour));
    }
    if look.c != ' ' {
        out.push(Op::Glyph(at, look.c, look.fg, look.bold, look.italic));
    }
    if look.underline {
        out.push(Op::Underline(at, look.fg));
    }
    if look.strikeout {
        out.push(Op::Strikeout(at, look.fg));
    }
    assert(out@ =~= old(out)@ + cell_ops(*k, t, look, r as int, c as int));
}

/// Everything that is drawn in a pane's cells, in order.
pub fn draw_grid(rows: &Vec<Vec<CellLook>>, t: Tiling, k: &Marks) -> (r: Vec<Op>)
    requires
        t.wf(),
        rows@.len() <= 0x3fff_ffff,
        0 <= k.offset <= 0x3fff_ffff,
    ensures
        r@ == grid_ops(*k, t, rows@, rows@.len()),
{
    let mut out: Vec<Op> = Vec::new();
    let mut r: usize = 0;
    while r < rows.len()
        invariant
            r <= rows@.len() <= 0x3fff_ffff,
            t.wf(),
            0 <= k.offset <= 0x3fff_ffff,
            out@ == grid_ops(*k, t, rows@, r as nat),
        decreases rows@.len() - r,
    {
        let tiled: bool = t.columns > 1;
        let tile: usize = if tiled {
            r / t.per_column
        } else {
            0
        };
        let sub: usize = if tiled {
            r % t.per_column
        } else {
            r
        };
        assert(tile == t.tile_of(r as int));
        assert(sub == t.row_of(r as int));
        proof {
            if tiled {
                vstd::arithmetic::div_mod::lemma_mod_decreases(r as nat, t.per_column as nat);
            }
        }
        let ghost before = out@;
        if (!tiled || tile < t.columns) && sub < t.max_rows {
            let row: &Vec<CellLook> = &rows[r];
            let n: usize = if row.len() < t.max_cols {
                row.len()
            } else {
                t.max_cols
            };
            let mut c: usize = 0;
            assert(before + row_ops(*k, t, row@, r as int, 0) =~= before);
            while c < n
                invariant
                    c <= n <= row@.len(),
                    t.wf(),
                    tile == t.tile_of(r as int),
                    sub == t.row_of(r as int),
                    sub <= 0x3fff_ffff,
                    0 <= k.offset <= 0x3fff_ffff,
                    out@ == before + row_ops(*k, t, row@, r as int, c as nat),
                decreases n - c,
            {
                let ghost so_far = out@;
                push_cell(&mut out, k, t, row[c], r, tile, sub, c);
                c = c + 1;
                assert(out@ =~= before + row_ops(*k, t, row@, r as int, c as nat));
            }
        } else {
            assert(before + Seq::<Op>::empty() =~= before);
        }
        r = r + 1;
        assert(out@ =~= grid_ops(*k, t, rows@, r as nat));
    }
    out
}

/// The shape of the cursor that a program asks for.
#[derive(Debug, Clone, Copy, PartialEq, Eq, Structural)]
pub enum CursorShape {
    Block,
    HollowBlock,
    Underline,
    Beam,
    Hidden,
}

/// Where the cursor is, and its shape.
#[derive(Debug, Clone, Copy, PartialEq, Eq, Structural)]
pub struct Cursor {
    pub col: usize,
    pub line: usize,
    pub shape: CursorShape,
}

/// How the cursor is drawn.
#[derive(Debug, Clone, Copy, PartialEq, Eq, Structural)]
pub enum CursorLook {
    Nothing,
    Hollow(At),
    /// Solid, over what is in the cell.
    Block(At),
    /// Solid, with the character in the cell's background over it.
    BlockOver(At, char, Rgb, bool, bool),
    Underline(At),
    Beam(At),
}

/// Whether the cursor is drawn: it is on a row that is shown, and there is room.
pub open spec fn cursor_shown(cur: Cursor, t: Tiling, rows: int) -> bool {
    cur.line < rows && t.shows(cur.line as int) && cur.col < t.max_cols
}

/// How the cursor is drawn. In a pane without the focus it is hollow, whatever the
/// program asks for.
pub open spec fn cursor_look(cur: Cursor, t: Tiling, rows: Seq<Vec<CellLook>>, focused: bool) -> CursorLook {
    let at = At {
        tile: t.tile_of(cur.line as int) as usize,
        col: cur.col,
        row: t.row_of(cur.line as int) as usize,
    };
    if !cursor_shown(cur, t, rows.len() as int) {
        CursorLook::Nothing
    } else if !focused {
        CursorLook::Hollow(at)
    } else {
        match cur.shape {
            CursorShape::Block => {
                let row = rows[cur.line as int]@;
                if cur.col < row.len() && row[cur.col as int].c != ' ' {
                    let look = row[cur.col as int];
                    CursorLook::BlockOver(at, look.c, look.bg, look.bold, look.italic)
                } else {
                    CursorLook::Block(at)
                }
            },
            CursorShape::HollowBlock => CursorLook::Hollow(at),
            CursorShape::Underline => CursorLook::Underline(at),
            CursorShape::Beam => CursorLook::Beam(at),
            CursorShape::Hidden => CursorLook::Nothing,
        }
    }
}

/// How the cursor is drawn.
pub fn draw_cursor(cur: Cursor, t: Tiling, rows: &Vec<Vec<CellLook>>, focused: bool) -> (r: CursorLook)
    requires
        t.wf(),
    ensures
        r == cursor_look(cur, t, rows@, focused),
{
    if cur.line >= rows.len() {
        return CursorLook::Nothing;
    }
    let tiled: bool = t.columns > 1;
    let tile: usize = if tiled {
        cur.line / t.per_column
    } else {
        0
    };
    let row: usize = if tiled {
        cur.line % t.per_column
    } else {
        cur.line
    };
    if (tiled && tile >= t.columns) || row >= t.max_rows || cur.col >= t.max_cols {
        return CursorLook::Nothing;
    }
    let at: At = At { tile, col: cur.col, row };
    if !focused {
        return CursorLook::Hollow(at);
    }
    match cur.shape {
        CursorShape::Block => {
            let line: &Vec<CellLook> = &rows[cur.line];
            if cur.col < line.len() && line[cur.col].c != ' ' {
                let look: CellLook = line[cur.col];
                CursorLook::BlockOver(at, look.c, look.bg, look.bold, look.italic)
            } else {
                CursorLook::Block(at)
            }
        },
        CursorShape::HollowBlock => CursorLook::Hollow(at),
        CursorShape::Underline => CursorLook::Underline(at),
        CursorShape::Beam => CursorLook::Beam(at),
        CursorShape::Hidden => CursorLook::Nothing,
    }
}

/// Who gets what is typed.
#[derive(Debug, Clone, Copy, PartialEq, Eq, Structural)]
pub enum Broadcast {
    Off,
    All,
    Group,
}

/// The colour of a group of panes.
pub open spec fn group_colour(g: u32) -> Rgb {
    if g == 1 {
        Rgb { r: 0xe0, g: 0x6c, b: 0x40 }
    } else if g == 2 {
        Rgb { r: 0x4c, g: 0xa0, b: 0xe0 }
    } else if g == 3 {
        Rgb { r: 0x6c, g: 0xc0, b: 0x50 }
    } else {
        Rgb { r: 0xc0, g: 0x60, b: 0xd0 }
    }
}

/// The colour of a group of panes.
pub fn group_hue(g: u32) -> (r: Rgb)
    ensures
        r == group_colour(g),
{
    if g == 1 {
        Rgb { r: 0xe0, g: 0x6c, b: 0x40 }
    } else if g == 2 {
        Rgb { r: 0x4c, g: 0xa0, b: 0xe0 }
    } else if g == 3 {
        Rgb { r: 0x6c, g: 0xc0, b: 0x50 }
    } else {
        Rgb { r: 0xc0, g: 0x60, b: 0xd0 }
    }
}

/// The swatch in a pane's titlebar, and whether it pulses: a pane that gets what is typed
/// elsewhere says so; any other shows its group, if it is in one. `receives` says whether
/// this pane gets what is typed.
pub fn swatch(group: Option<u32>, broadcast: Broadcast, receives: bool) -> (r: Option<(Rgb, bool)>)
    ensures
        r == (if broadcast != Broadcast::Off && receives {
            Some(
                (
                    if broadcast == Broadcast::All {
                        Rgb { r: 0xd9, g: 0x4a, b: 0x4a }
                    } else {
                        Rgb { r: 0xd9, g: 0x90, b: 0x4a }
                    },
                    true,
                ),
            )
        } else {
            match group {
                Some(g) => Some((group_colour(g), false)),
                None => None,
            }
        }),
{
    if broadcast != Broadcast::Off && receives {
        if broadcast == Broadcast::All {
            return Some((Rgb { r: 0xd9, g: 0x4a, b: 0x4a }, true));
        }
        return Some((Rgb { r: 0xd9, g: 0x90, b: 0x4a }, true));
    }
    match group {
        Some(g) => Some((group_hue(g), false)),
        None => None,
    }
}

/// How full a pane's buffer is.
#[derive(Debug, Clone, Copy, PartialEq, Eq, Structural)]
pub enum Fill {
    /// There is room.
    Calm,
    /// More than three fifths are used.
    Warm,
    /// More than seventeen twentieths are.
    Hot,
}

/// How full a buffer is that holds `used` of at most `max` lines.
pub fn fill_level(used: usize, max: usize) -> (r: Fill)
    requires
        max > 0,
    ensures
        r == (if used * 20 > max * 17 {
            Fill::Hot
        } else if used * 5 > max * 3 {
            Fill::Warm
        } else {
            Fill::Calm
        }),
{
    if used as u128 * 20 > max as u128 * 17 {
        Fill::Hot
    } else if used as u128 * 5 > max as u128 * 3 {
        Fill::Warm
    } else {
        Fill::Calm
    }
}

/// A channel so many hundredths of the way from one value to another, rounded.
pub open spec fn blended(a: u8, b: u8, percent: int) -> int {
    (2 * (a * 100 + (b - a) * percent) + 100) / 200
}

fn blend(a: u8, b: u8, percent: u8) -> (r: u8)
    requires
        percent <= 100,
    ensures
        r == blended(a, b, percent as int),
{
    let base: i64 = a as i64 * 100;
    let way: i64 = b as i64 - a as i64;
    proof {
        assert(-25500 <= way * percent <= 25500) by (nonlinear_arith)
            requires
                -255 <= way <= 255,
                0 <= percent <= 100,
        ;
        assert(0 <= a * 100 + way * percent <= 25500) by (nonlinear_arith)
            requires
                way == b - a,
                0 <= percent <= 100,
                0 <= a <= 255,
                0 <= b <= 255,
        ;
    }
    let sum: i64 = 2 * (base + way * percent as i64) + 100;
    (sum / 200) as u8
}

/// A colour so many hundredths of the way from one to another: a tint of the user's own
/// colours never leaves their range.
pub fn mix(a: Rgb, b: Rgb, percent: u8) -> (r: Rgb)
    requires
        percent <= 100,
    ensures
        r.r == blended(a.r, b.r, percent as int),
        r.g == blended(a.g, b.g, percent as int),
        r.b == blended(a.b, b.b, percent as int),
{
    Rgb { r: blend(a.r, b.r, percent), g: blend(a.g, b.g, percent), b: blend(a.b, b.b, percent) }
}

/// What a pane's titlebar says in the room it has: the state of the selection that the
/// keyboard drives, if it does; or else the pane's title, its end if it is too long; or,
/// without one, what is known of its program; or at least that it is a terminal.
pub open spec fn title_text(
    status: Option<Seq<char>>,
    title: Option<Seq<char>>,
    facts: ProcFacts,
    cols: nat,
    rows: nat,
    avail: nat,
) -> Seq<char> {
    match status {
        Some(s) => fitted(s, avail, Keep::Head),
        None => if title is Some && title->0.len() > 0 {
            fitted(title->0, avail, Keep::Tail)
        } else {
            match derived_title(facts, cols, rows, avail) {
                Some(t) => t,
                None => fitted("Terminal"@, avail, Keep::Head),
            }
        },
    }
}

/// The view of a borrowed text that may be missing.
pub open spec fn str_view(t: Option<&str>) -> Option<Seq<char>> {
    match t {
        Some(s) => Some(s@),
        None => None,
    }
}

/// What a pane's titlebar says in the room it has.
pub fn title_for(
    status: Option<&str>,
    title: Option<&str>,
    facts: &ProcFacts,
    cols: usize,
    rows: usize,
    avail: usize,
) -> (r: String)
    ensures
        r@ == title_text(
            str_view(status),
            str_view(title),
            *facts,
            cols as nat,
            rows as nat,
            avail as nat,
        ),
        r@.len() <= avail,
{
    if let Some(s) = status {
        return fit(s, avail, Keep::Head);
    }
    if let Some(t) = title {
        if !t.is_empty() {
            return fit(t, avail, Keep::Tail);
        }
    }
    match derived(facts, cols, rows, avail) {
        Some(t) => t,
        None => fit("Terminal", avail, Keep::Head),
    }
}

/// The size that a titlebar gives.
pub fn size_label(cols: usize, rows: usize) -> (r: String)
    ensures
        r@ == crate::pane_title::grid_label(cols as nat, rows as nat),
{
    let mut s: String = String::new();
    push_number(&mut s, cols as u64);
    s.push('x');
    push_number(&mut s, rows as u64);
    assert(s@ =~= crate::pane_title::grid_label(cols as nat, rows as nat));
    s
}

/// The label of a tab: its number and the title of its pane, cut to the room it has; or
/// its number alone.
pub fn tab_label(number: usize, title: Option<&str>, avail: usize) -> (r: String)
    ensures
        r@ == (match title {
            Some(t) => fitted(numeral(number as nat) + ": "@ + t@, avail as nat, Keep::Head),
            None => numeral(number as nat),
        }),
{
    let mut s: String = String::new();
    push_number(&mut s, number as u64);
    assert(s@ =~= numeral(number as nat));
    match title {
        Some(t) => {
            s.append(": ");
            s.append(t);
            fit(s.as_str(), avail, Keep::Head)
        },
        None => s,
    }
}

/// A cell that is marked in more than one way shows the mark that matters most: the
/// current hit is never hidden by another hit or by the selection.
pub proof fn the_current_hit_is_always_seen(k: Marks, t: Tiling, look: CellLook, r: int, c: int)
    requires
        in_current(k, r, c),
    ensures
        cell_ops(k, t, look, r, c).len() > 0,
        cell_ops(k, t, look, r, c)[0] == Op::Fill(
            At { tile: t.tile_of(r) as usize, col: c as usize, row: t.row_of(r) as usize },
            current_colour(),
        ),
{
}

} // verus!

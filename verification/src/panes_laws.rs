//! What a pane looks like, said of what is drawn: every cell with its own character,
//! colours and face, at its own place, under the marks that cover it.
use vstd::prelude::*;
use vstd::string::*;
use crate::pane_title::ProcFacts;
use crate::panes::{
    cell_ops, covers, draw_cursor, draw_grid, fill_level, filling, grid_ops, group_hue, in_current, in_other,
    in_selection, mix, room, row_ops, size_label, swatch, tab_label, title_for, At, Broadcast, CellLook, Cursor, CursorLook, CursorShape, Fill, Marks, Op,
    Tiling,
};
use crate::search::Match;
use crate::selection::Selection;
use crate::settings::Rgb;
use crate::text::numeral;

verus! {

broadcast use vstd::string::group_string_axioms;

/// Whether the cell in column `c` of row `r` is on the screen: below each other, the rows
/// that there is room for; in columns of text, those that some column has room for.
pub open spec fn on_screen(t: Tiling, r: int, c: int) -> bool {
    c < t.max_cols && if t.columns <= 1 {
        r < t.max_rows
    } else {
        t.per_column > 0 && r / t.per_column as int <= t.columns - 1 && r % t.per_column as int <= t.max_rows
            - 1
    }
}

/// Where a cell goes: rows are counted down the first column of text, then down the next.
pub open spec fn is_place(t: Tiling, r: int, c: int, at: At) -> bool {
    at.col == c && if t.columns <= 1 {
        at.tile == 0 && at.row == r
    } else {
        at.tile * t.per_column + at.row == r && at.row < t.per_column
    }
}

/// Whether a hit of the search is over a cell, the pane being scrolled back by `offset`.
pub open spec fn under_hit(m: Match, offset: int, r: int, c: int) -> bool {
    r - offset == m.line && 0 <= c - m.col < m.len
}

/// Whether the hit that was gone to is over a cell.
pub open spec fn under_current(k: Marks, r: int, c: int) -> bool {
    0 <= k.current < k.hits@.len() && under_hit(k.hits@[k.current as int], k.offset as int, r, c)
}

/// Whether any other hit is over a cell.
pub open spec fn under_another(k: Marks, r: int, c: int) -> bool {
    exists|i: int|
        0 <= i < k.hits@.len() && i != k.current && under_hit(#[trigger] k.hits@[i], k.offset as int, r, c)
}

/// Whether a cell of a buffer is selected: inside the rectangle that two corners span, or
/// neither before the first end nor behind the last, in the order of reading.
pub open spec fn is_selected(s: Selection, line: int, col: int) -> bool {
    let (a, b) = if s.head.line < s.anchor.line || (s.head.line == s.anchor.line && s.head.col < s.anchor.col) {
        (s.head, s.anchor)
    } else {
        (s.anchor, s.head)
    };
    if s.block {
        let left = if s.anchor.col < s.head.col { s.anchor.col } else { s.head.col };
        let right = if s.anchor.col < s.head.col { s.head.col } else { s.anchor.col };
        a.line <= line <= b.line && left <= col <= right
    } else {
        a.line <= line <= b.line && (line == a.line ==> a.col <= col) && (line == b.line ==> col <= b.col)
    }
}

/// Whether the selection is over a cell. A row of text shows the line that is as far
/// above it as the pane is scrolled back.
pub open spec fn under_selection(k: Marks, t: Tiling, r: int, c: int) -> bool {
    let row = if t.columns <= 1 { r } else { r % t.per_column as int };
    k.selection is Some && is_selected(k.selection->0, row - k.offset, c)
}

/// What is allowed in a cell: its own character in its own face and colour, its own lines,
/// and a filling for one of four reasons.
pub open spec fn belongs(k: Marks, t: Tiling, look: CellLook, r: int, c: int, op: Op) -> bool {
    match op {
        Op::Glyph(at, ch, colour, bold, italic) => is_place(t, r, c, at) && ch == look.c && ch != ' ' && colour
            == look.fg && bold == look.bold && italic == look.italic,
        Op::Underline(at, colour) => is_place(t, r, c, at) && look.underline && colour == look.fg,
        Op::Strikeout(at, colour) => is_place(t, r, c, at) && look.strikeout && colour == look.fg,
        Op::Fill(at, colour) => is_place(t, r, c, at) && {
            ||| colour == (Rgb { r: 187, g: 153, b: 34 }) && under_current(k, r, c)
            ||| colour == (Rgb { r: 90, g: 74, b: 16 }) && under_another(k, r, c) && !under_current(k, r, c)
            ||| colour == (Rgb { r: 51, g: 68, b: 102 }) && under_selection(k, t, r, c) && !under_another(
                k,
                r,
                c,
            ) && !under_current(k, r, c)
            ||| colour == look.bg && look.bg != k.default_bg && !under_selection(k, t, r, c)
                && !under_another(k, r, c) && !under_current(k, r, c)
        },
    }
}

/// The place of what is drawn.
pub open spec fn place_of(op: Op) -> At {
    match op {
        Op::Fill(at, _) => at,
        Op::Glyph(at, _, _, _, _) => at,
        Op::Underline(at, _) => at,
        Op::Strikeout(at, _) => at,
    }
}

/// How far up what is drawn lies: a filling under a character, and lines over both.
pub open spec fn layer(op: Op) -> int {
    match op {
        Op::Fill(_, _) => 0,
        Op::Glyph(_, _, _, _, _) => 1,
        Op::Underline(_, _) => 2,
        Op::Strikeout(_, _) => 3,
    }
}

proof fn lemma_places(t: Tiling, r: int, c: int)
    requires
        t.columns > 1 ==> t.per_column > 0,
        0 <= r <= 0x3fff_ffff,
        0 <= c <= usize::MAX,
    ensures
        is_place(
            t,
            r,
            c,
            At { tile: t.tile_of(r) as usize, col: c as usize, row: t.row_of(r) as usize },
        ),
{
    if t.columns > 1 {
        vstd::arithmetic::div_mod::lemma_fundamental_div_mod(r, t.per_column as int);
        vstd::arithmetic::div_mod::lemma_div_pos_is_pos(r, t.per_column as int);
        vstd::arithmetic::div_mod::lemma_mod_decreases(r as nat, t.per_column as nat);
        vstd::arithmetic::div_mod::lemma_div_is_ordered_by_denominator(r, 1, t.per_column as int);
        assert(t.tile_of(r) * t.per_column == t.per_column * (r / t.per_column as int)) by (nonlinear_arith)
            requires
                t.tile_of(r) == r / t.per_column as int,
        ;
    }
}

proof fn lemma_one_place(t: Tiling, r: int, c: int, s: int, d: int, at: At)
    requires
        is_place(t, r, c, at),
        is_place(t, s, d, at),
    ensures
        r == s,
        c == d,
{
}

proof fn lemma_marks(k: Marks, t: Tiling, r: int, c: int)
    requires
        t.columns > 1 ==> t.per_column > 0,
        0 <= r <= 0x3fff_ffff,
        0 <= c <= usize::MAX,
        0 <= k.offset <= 0x3fff_ffff,
    ensures
        in_current(k, r, c) == under_current(k, r, c),
        in_other(k, r, c) == under_another(k, r, c),
        in_selection(k, t.row_of(r), c) == under_selection(k, t, r, c),
{
    if t.columns > 1 {
        vstd::arithmetic::div_mod::lemma_mod_decreases(r as nat, t.per_column as nat);
        vstd::arithmetic::div_mod::lemma_mod_bound(r, t.per_column as int);
    }
    if in_other(k, r, c) {
        let i = choose|i: int|
            0 <= i < k.hits@.len() && i != k.current && covers(#[trigger] k.hits@[i], k.offset as int, r, c);
        assert(under_hit(k.hits@[i], k.offset as int, r, c));
    }
    if under_another(k, r, c) {
        let i = choose|i: int|
            0 <= i < k.hits@.len() && i != k.current && under_hit(
                #[trigger] k.hits@[i],
                k.offset as int,
                r,
                c,
            );
        assert(covers(k.hits@[i], k.offset as int, r, c));
    }
}

proof fn lemma_cell(k: Marks, t: Tiling, look: CellLook, r: int, c: int)
    requires
        t.columns > 1 ==> t.per_column > 0,
        0 <= r <= 0x3fff_ffff,
        0 <= c <= usize::MAX,
        0 <= k.offset <= 0x3fff_ffff,
    ensures
        ({
            let ops = cell_ops(k, t, look, r, c);
            &&& forall|q: int| 0 <= q < ops.len() ==> belongs(k, t, look, r, c, #[trigger] ops[q])
            &&& forall|p: int, q: int| 0 <= p < q < ops.len() ==> layer(ops[p]) < layer(ops[q])
            &&& look.c != ' ' ==> exists|q: int| 0 <= q < ops.len() && layer(#[trigger] ops[q]) == 1
            &&& look.underline ==> exists|q: int| 0 <= q < ops.len() && layer(#[trigger] ops[q]) == 2
            &&& look.strikeout ==> exists|q: int| 0 <= q < ops.len() && layer(#[trigger] ops[q]) == 3
            &&& under_current(k, r, c) || under_another(k, r, c) || under_selection(k, t, r, c) || look.bg
                != k.default_bg ==> exists|q: int| 0 <= q < ops.len() && layer(#[trigger] ops[q]) == 0
        }),
{
    lemma_places(t, r, c);
    lemma_marks(k, t, r, c);
    let at = At { tile: t.tile_of(r) as usize, col: c as usize, row: t.row_of(r) as usize };
    let fill: Seq<Op> = match filling(k, t, look, r, c) {
        Some(colour) => seq![Op::Fill(at, colour)],
        None => Seq::empty(),
    };
    let glyph: Seq<Op> = if look.c != ' ' {
        seq![Op::Glyph(at, look.c, look.fg, look.bold, look.italic)]
    } else {
        Seq::empty()
    };
    let under: Seq<Op> = if look.underline {
        seq![Op::Underline(at, look.fg)]
    } else {
        Seq::empty()
    };
    let strike: Seq<Op> = if look.strikeout {
        seq![Op::Strikeout(at, look.fg)]
    } else {
        Seq::empty()
    };
    let ops = cell_ops(k, t, look, r, c);
    assert(ops =~= fill + glyph + under + strike);
    assert(forall|q: int| 0 <= q < fill.len() ==> belongs(k, t, look, r, c, #[trigger] fill[q]));
    lemma_stacked(k, t, look, r, c, fill, glyph, under, strike);
}

proof fn lemma_stacked(
    k: Marks,
    t: Tiling,
    look: CellLook,
    r: int,
    c: int,
    fill: Seq<Op>,
    glyph: Seq<Op>,
    under: Seq<Op>,
    strike: Seq<Op>,
)
    requires
        fill.len() <= 1 && glyph.len() <= 1 && under.len() <= 1 && strike.len() <= 1,
        fill.len() == 1 ==> layer(fill[0]) == 0 && belongs(k, t, look, r, c, fill[0]),
        glyph.len() == 1 ==> layer(glyph[0]) == 1 && belongs(k, t, look, r, c, glyph[0]),
        under.len() == 1 ==> layer(under[0]) == 2 && belongs(k, t, look, r, c, under[0]),
        strike.len() == 1 ==> layer(strike[0]) == 3 && belongs(k, t, look, r, c, strike[0]),
    ensures
        ({
            let ops = fill + glyph + under + strike;
            &&& forall|q: int| 0 <= q < ops.len() ==> belongs(k, t, look, r, c, #[trigger] ops[q])
            &&& forall|p: int, q: int| 0 <= p < q < ops.len() ==> layer(ops[p]) < layer(ops[q])
            &&& glyph.len() == 1 ==> exists|q: int| 0 <= q < ops.len() && layer(#[trigger] ops[q]) == 1
            &&& under.len() == 1 ==> exists|q: int| 0 <= q < ops.len() && layer(#[trigger] ops[q]) == 2
            &&& strike.len() == 1 ==> exists|q: int| 0 <= q < ops.len() && layer(#[trigger] ops[q]) == 3
            &&& fill.len() == 1 ==> exists|q: int| 0 <= q < ops.len() && layer(#[trigger] ops[q]) == 0
        }),
{
    let ops = fill + glyph + under + strike;
    if fill.len() == 1 {
        assert(ops[0] == fill[0]);
    }
    if glyph.len() == 1 {
        assert(ops[fill.len() as int] == glyph[0]);
    }
    if under.len() == 1 {
        assert(ops[(fill.len() + glyph.len()) as int] == under[0]);
    }
    if strike.len() == 1 {
        assert(ops[(fill.len() + glyph.len() + under.len()) as int] == strike[0]);
    }
}

/// Whether what is drawn `j`th is the `q`th thing drawn in a cell.
spec fn comes_from(k: Marks, t: Tiling, rows: Seq<Vec<CellLook>>, j: int, r: int, c: int, q: int) -> bool {
    &&& 0 <= r < rows.len()
    &&& 0 <= c < rows[r]@.len()
    &&& on_screen(t, r, c)
    &&& 0 <= q < cell_ops(k, t, rows[r]@[c], r, c).len()
    &&& j == grid_ops(k, t, rows, r as nat).len() + row_ops(k, t, rows[r]@, r, c as nat).len() + q
}

proof fn lemma_row(k: Marks, t: Tiling, row: Seq<CellLook>, r: int, n: nat, j: int) -> (c: int)
    requires
        0 <= j < row_ops(k, t, row, r, n).len(),
    ensures
        0 <= c < n,
        row_ops(k, t, row, r, c as nat).len() <= j,
        j < row_ops(k, t, row, r, c as nat).len() + cell_ops(k, t, row[c], r, c).len(),
        row_ops(k, t, row, r, n)[j] == cell_ops(k, t, row[c], r, c)[j - row_ops(k, t, row, r, c as nat).len()],
    decreases n,
{
    if j < row_ops(k, t, row, r, (n - 1) as nat).len() {
        lemma_row(k, t, row, r, (n - 1) as nat, j)
    } else {
        n - 1
    }
}

proof fn lemma_grid(k: Marks, t: Tiling, rows: Seq<Vec<CellLook>>, n: nat, j: int) -> (o: (int, int, int))
    requires
        t.columns > 1 ==> t.per_column > 0,
        n <= rows.len(),
        0 <= j < grid_ops(k, t, rows, n).len(),
    ensures
        o.0 < n,
        comes_from(k, t, rows, j, o.0, o.1, o.2),
        grid_ops(k, t, rows, n)[j] == cell_ops(k, t, rows[o.0]@[o.1], o.0, o.1)[o.2],
    decreases n,
{
    let before = grid_ops(k, t, rows, (n - 1) as nat);
    if j < before.len() {
        lemma_grid(k, t, rows, (n - 1) as nat, j)
    } else {
        let r = n - 1;
        let c = lemma_row(k, t, rows[r]@, r, room(t, rows[r]@), j - before.len());
        (r, c, j - before.len() - row_ops(k, t, rows[r]@, r, c as nat).len())
    }
}

proof fn lemma_row_has(k: Marks, t: Tiling, row: Seq<CellLook>, r: int, n: nat, c: int, q: int)
    requires
        0 <= c < n,
        0 <= q < cell_ops(k, t, row[c], r, c).len(),
    ensures
        row_ops(k, t, row, r, c as nat).len() + q < row_ops(k, t, row, r, n).len(),
        row_ops(k, t, row, r, n)[row_ops(k, t, row, r, c as nat).len() + q] == cell_ops(k, t, row[c], r, c)[q],
    decreases n,
{
    if c < n - 1 {
        lemma_row_has(k, t, row, r, (n - 1) as nat, c, q);
    }
}

proof fn lemma_grid_has(k: Marks, t: Tiling, rows: Seq<Vec<CellLook>>, n: nat, r: int, c: int, q: int)
    requires
        t.columns > 1 ==> t.per_column > 0,
        0 <= r < n <= rows.len(),
        0 <= c < rows[r]@.len(),
        on_screen(t, r, c),
        0 <= q < cell_ops(k, t, rows[r]@[c], r, c).len(),
    ensures
        grid_ops(k, t, rows, n).contains(cell_ops(k, t, rows[r]@[c], r, c)[q]),
    decreases n,
{
    let before = grid_ops(k, t, rows, (n - 1) as nat);
    let all = grid_ops(k, t, rows, n);
    let wanted = cell_ops(k, t, rows[r]@[c], r, c)[q];
    if r < n - 1 {
        lemma_grid_has(k, t, rows, (n - 1) as nat, r, c, q);
        let j = choose|j: int| 0 <= j < before.len() && before[j] == wanted;
        assert(all[j] == wanted);
    } else {
        lemma_row_has(k, t, rows[r]@, r, room(t, rows[r]@), c, q);
        assert(all[before.len() + row_ops(k, t, rows[r]@, r, c as nat).len() + q] == wanted);
    }
}

/// Every cell on the screen is drawn as it looks: its character in its own colour, its own
/// weight and its own slant, with the lines it has, at its own place.
pub proof fn a_cell_is_drawn_as_it_looks(
    rows: &Vec<Vec<CellLook>>,
    t: Tiling,
    k: &Marks,
    ops: Vec<Op>,
    r: int,
    c: int,
    at: At,
)
    requires
        call_ensures(draw_grid, (rows, t, k), ops),
        t.columns > 1 ==> t.per_column > 0,
        rows@.len() <= 0x3fff_ffff,
        0 <= k.offset <= 0x3fff_ffff,
        0 <= r < rows@.len(),
        0 <= c < rows@[r]@.len(),
        on_screen(t, r, c),
        is_place(t, r, c, at),
    ensures
        ({
            let look = rows@[r]@[c];
            &&& look.c != ' ' ==> ops@.contains(Op::Glyph(at, look.c, look.fg, look.bold, look.italic))
            &&& look.underline ==> ops@.contains(Op::Underline(at, look.fg))
            &&& look.strikeout ==> ops@.contains(Op::Strikeout(at, look.fg))
            &&& under_current(*k, r, c) ==> ops@.contains(Op::Fill(at, Rgb { r: 187, g: 153, b: 34 }))
            &&& under_another(*k, r, c) && !under_current(*k, r, c) ==> ops@.contains(
                Op::Fill(at, Rgb { r: 90, g: 74, b: 16 }),
            )
            &&& under_selection(*k, t, r, c) && !under_another(*k, r, c) && !under_current(*k, r, c)
                ==> ops@.contains(Op::Fill(at, Rgb { r: 51, g: 68, b: 102 }))
            &&& look.bg != k.default_bg && !under_selection(*k, t, r, c) && !under_another(*k, r, c)
                && !under_current(*k, r, c) ==> ops@.contains(Op::Fill(at, look.bg))
        }),
{
    let look = rows@[r]@[c];
    let cell = cell_ops(*k, t, look, r, c);
    lemma_cell(*k, t, look, r, c);
    assert forall|q: int| 0 <= q < cell.len() implies ops@.contains(#[trigger] cell[q]) && place_of(cell[q])
        == at by {
        lemma_grid_has(*k, t, rows@, rows@.len(), r, c, q);
        assert(belongs(*k, t, look, r, c, cell[q]));
        lemma_same_place(t, r, c, place_of(cell[q]), at);
    }
    if look.c != ' ' {
        let q = choose|q: int| 0 <= q < cell.len() && layer(#[trigger] cell[q]) == 1;
        assert(ops@.contains(cell[q]) && belongs(*k, t, look, r, c, cell[q]));
    }
    if look.underline {
        let q = choose|q: int| 0 <= q < cell.len() && layer(#[trigger] cell[q]) == 2;
        assert(ops@.contains(cell[q]) && belongs(*k, t, look, r, c, cell[q]));
    }
    if look.strikeout {
        let q = choose|q: int| 0 <= q < cell.len() && layer(#[trigger] cell[q]) == 3;
        assert(ops@.contains(cell[q]) && belongs(*k, t, look, r, c, cell[q]));
    }
    if under_current(*k, r, c) || under_another(*k, r, c) || under_selection(*k, t, r, c) || look.bg
        != k.default_bg {
        let q = choose|q: int| 0 <= q < cell.len() && layer(#[trigger] cell[q]) == 0;
        assert(ops@.contains(cell[q]) && belongs(*k, t, look, r, c, cell[q]));
    }
}

proof fn lemma_same_place(t: Tiling, r: int, c: int, a: At, b: At)
    requires
        is_place(t, r, c, a),
        is_place(t, r, c, b),
        t.columns > 1 ==> t.per_column > 0,
    ensures
        a == b,
{
    if t.columns > 1 {
        assert(a.tile == b.tile && a.row == b.row) by (nonlinear_arith)
            requires
                a.tile * t.per_column + a.row == r,
                b.tile * t.per_column + b.row == r,
                0 <= a.row < t.per_column,
                0 <= b.row < t.per_column,
        ;
    }
}

/// Nothing else is drawn: whatever is, belongs to a cell that is on the screen.
pub proof fn nothing_is_drawn_without_a_cell(
    rows: &Vec<Vec<CellLook>>,
    t: Tiling,
    k: &Marks,
    ops: Vec<Op>,
    j: int,
)
    requires
        call_ensures(draw_grid, (rows, t, k), ops),
        t.columns > 1 ==> t.per_column > 0,
        rows@.len() <= 0x3fff_ffff,
        0 <= k.offset <= 0x3fff_ffff,
        0 <= j < ops@.len(),
    ensures
        exists|r: int, c: int|
            0 <= r < rows@.len() && 0 <= c < rows@[r]@.len() && on_screen(t, r, c) && #[trigger] belongs(
                *k,
                t,
                rows@[r]@[c],
                r,
                c,
                ops@[j],
            ),
{
    let (r, c, q) = lemma_grid(*k, t, rows@, rows@.len(), j);
    lemma_cell(*k, t, rows@[r]@[c], r, c);
    assert(belongs(*k, t, rows@[r]@[c], r, c, ops@[j]));
}

/// In a cell a character lies over the filling and lines lie over both, and each is drawn
/// once.
pub proof fn a_filling_lies_under_its_character(
    rows: &Vec<Vec<CellLook>>,
    t: Tiling,
    k: &Marks,
    ops: Vec<Op>,
    i: int,
    j: int,
)
    requires
        call_ensures(draw_grid, (rows, t, k), ops),
        t.columns > 1 ==> t.per_column > 0,
        rows@.len() <= 0x3fff_ffff,
        0 <= k.offset <= 0x3fff_ffff,
        0 <= i < j < ops@.len(),
        place_of(ops@[i]) == place_of(ops@[j]),
    ensures
        layer(ops@[i]) < layer(ops@[j]),
{
    let (r, c, p) = lemma_grid(*k, t, rows@, rows@.len(), i);
    let (s, d, q) = lemma_grid(*k, t, rows@, rows@.len(), j);
    lemma_cell(*k, t, rows@[r]@[c], r, c);
    lemma_cell(*k, t, rows@[s]@[d], s, d);
    assert(belongs(*k, t, rows@[r]@[c], r, c, ops@[i]));
    assert(belongs(*k, t, rows@[s]@[d], s, d, ops@[j]));
    lemma_one_place(t, r, c, s, d, place_of(ops@[i]));
}

/// The cursor is where the program put it, and looks as the program asked while the pane
/// has the focus: a block shows the character under it in that cell's own face, on its own
/// background. Without the focus it is hollow, and off the screen it is not drawn.
pub proof fn the_cursor_looks_as_asked(
    cur: Cursor,
    t: Tiling,
    rows: &Vec<Vec<CellLook>>,
    focused: bool,
    r: CursorLook,
)
    requires
        call_ensures(draw_cursor, (cur, t, rows, focused), r),
        t.columns > 1 ==> t.per_column > 0,
        rows@.len() <= 0x3fff_ffff,
    ensures
        ({
            let seen = cur.line < rows@.len() && on_screen(t, cur.line as int, cur.col as int);
            &&& r is Nothing <==> !seen || (focused && cur.shape == CursorShape::Hidden)
            &&& seen && !focused ==> r is Hollow
            &&& seen && focused ==> {
                &&& cur.shape == CursorShape::HollowBlock <==> r is Hollow
                &&& cur.shape == CursorShape::Underline <==> r is Underline
                &&& cur.shape == CursorShape::Beam <==> r is Beam
                &&& cur.shape == CursorShape::Block <==> r is Block || r is BlockOver
            }
            &&& match r {
                CursorLook::Nothing => true,
                CursorLook::Hollow(at) => is_place(t, cur.line as int, cur.col as int, at),
                CursorLook::Block(at) => {
                    &&& is_place(t, cur.line as int, cur.col as int, at)
                    &&& cur.col < rows@[cur.line as int]@.len() ==> rows@[cur.line as int]@[cur.col as int].c
                        == ' '
                },
                CursorLook::BlockOver(at, c, colour, bold, italic) => {
                    let look = rows@[cur.line as int]@[cur.col as int];
                    &&& is_place(t, cur.line as int, cur.col as int, at)
                    &&& c == look.c && c != ' '
                    &&& colour == look.bg
                    &&& bold == look.bold
                    &&& italic == look.italic
                },
                CursorLook::Underline(at) => is_place(t, cur.line as int, cur.col as int, at),
                CursorLook::Beam(at) => is_place(t, cur.line as int, cur.col as int, at),
            }
        }),
{
    if cur.line < rows@.len() {
        lemma_places(t, cur.line as int, cur.col as int);
        if t.columns > 1 {
            vstd::arithmetic::div_mod::lemma_mod_bound(cur.line as int, t.per_column as int);
        }
    }
}

/// A swatch pulses exactly in a pane that gets what is typed elsewhere: red where all panes
/// do, orange where a group does. Any other pane in a group shows the group's colour, and a
/// pane in none shows no swatch.
pub proof fn a_swatch_says_who_gets_what_is_typed(
    group: Option<u32>,
    broadcast: Broadcast,
    receives: bool,
    r: Option<(Rgb, bool)>,
)
    requires
        call_ensures(swatch, (group, broadcast, receives), r),
    ensures
        ({
            let told = receives && (broadcast == Broadcast::All || broadcast == Broadcast::Group);
            match r {
                Some((colour, pulses)) => {
                    &&& pulses == told
                    &&& told && broadcast == Broadcast::All ==> colour == (Rgb { r: 217, g: 74, b: 74 })
                    &&& told && broadcast == Broadcast::Group ==> colour == (Rgb { r: 217, g: 144, b: 74 })
                    &&& !told ==> group is Some && colour == group_colours(group->0)
                },
                None => !told && group is None,
            }
        }),
{
}

/// The colours of groups: one each for the first three, and one for all others.
pub open spec fn group_colours(g: u32) -> Rgb {
    let first = Rgb { r: 224, g: 108, b: 64 };
    let second = Rgb { r: 76, g: 160, b: 224 };
    let third = Rgb { r: 108, g: 192, b: 80 };
    let others = Rgb { r: 192, g: 96, b: 208 };
    seq![others, first, second, third][if g <= 3 { g as int } else { 0 }]
}

/// Groups one, two and three are told apart by their colours, from each other and from
/// every later group.
pub proof fn groups_are_told_apart(g: u32, h: u32, a: Rgb, b: Rgb)
    requires
        call_ensures(group_hue, (g,), a),
        call_ensures(group_hue, (h,), b),
    ensures
        a == group_colours(g),
        1 <= g <= 3 && g != h ==> a != b,
{
}

/// A buffer gets hotter as it fills, and never cools: it is warm beyond sixty hundredths,
/// and hot beyond eighty-five.
pub proof fn a_fuller_buffer_is_never_cooler(used: usize, more: usize, max: usize, a: Fill, b: Fill)
    requires
        call_ensures(fill_level, (used, max), a),
        call_ensures(fill_level, (more, max), b),
        used <= more,
    ensures
        a == Fill::Hot ==> b == Fill::Hot,
        a == Fill::Warm ==> b != Fill::Calm,
        a == Fill::Hot <==> 100 * used > 85 * max,
        a == Fill::Calm <==> 100 * used <= 60 * max,
{
}

/// A mixed colour is nearest to the point that many hundredths of the way from the first to
/// the second, in each channel by itself: at none of it the first, at all of it the second.
pub proof fn a_mix_lies_on_the_way(a: Rgb, b: Rgb, percent: u8, m: Rgb)
    requires
        call_ensures(mix, (a, b, percent), m),
        percent <= 100,
    ensures
        -50 <= 100 * m.r - (100 * a.r + (b.r - a.r) * percent) <= 50,
        -50 <= 100 * m.g - (100 * a.g + (b.g - a.g) * percent) <= 50,
        -50 <= 100 * m.b - (100 * a.b + (b.b - a.b) * percent) <= 50,
        percent == 0 ==> m == a,
        percent == 100 ==> m == b,
{
    if percent == 0 {
        assert((b.r - a.r) * percent == 0 && (b.g - a.g) * percent == 0 && (b.b - a.b) * percent == 0)
            by (nonlinear_arith)
            requires
                percent == 0,
        ;
    }
    if percent == 100 {
        assert((b.r - a.r) * percent == 100 * (b.r - a.r) && (b.g - a.g) * percent == 100 * (b.g - a.g) && (b.b
            - a.b) * percent == 100 * (b.b - a.b)) by (nonlinear_arith)
            requires
                percent == 100,
        ;
    }
}

/// A titlebar gives the columns before the rows.
pub proof fn a_size_gives_columns_first(cols: usize, rows: usize, r: String)
    requires
        call_ensures(size_label, (cols, rows), r),
    ensures
        r@ == numeral(cols as nat) + seq!['x'] + numeral(rows as nat),
{
    assert(r@ =~= numeral(cols as nat) + seq!['x'] + numeral(rows as nat));
}

/// A tab with room for its label shows its number, a colon and its title, whole; with less
/// room it shows how the label begins, and no more than there is room for. Without a title
/// it shows its number.
pub proof fn a_tab_shows_its_number_first(number: usize, title: Option<&str>, avail: usize, r: String)
    requires
        call_ensures(tab_label, (number, title, avail), r),
    ensures
        title is None ==> r@ == numeral(number as nat),
        title is Some ==> {
            let label = numeral(number as nat) + seq![':', ' '] + title->0@;
            &&& label.len() <= avail ==> r@ == label
            &&& label.len() > avail ==> r@.len() == avail
            &&& label.len() > avail && avail > 1 ==> r@.drop_last() == label.take(avail - 1)
        },
{
    reveal_strlit(": ");
    if title is Some {
        let label = numeral(number as nat) + seq![':', ' '] + title->0@;
        assert(numeral(number as nat) + ": "@ + title->0@ =~= label);
        if label.len() > avail && avail > 1 {
            assert(r@.drop_last() =~= label.take(avail - 1));
        }
    }
}

/// A titlebar with room shows the state of the keyboard's selection before any title, the
/// title before what is known of the program, and where nothing is known that it is a
/// terminal. What is cut off a title is its beginning; of a state it is the end.
pub proof fn a_titlebar_shows_what_matters_most(
    status: Option<&str>,
    title: Option<&str>,
    facts: &ProcFacts,
    cols: usize,
    rows: usize,
    avail: usize,
    r: String,
)
    requires
        call_ensures(title_for, (status, title, facts, cols, rows, avail), r),
    ensures
        r@.len() <= avail,
        status is Some && status->0@.len() <= avail ==> r@ == status->0@,
        status is Some && 1 < avail < status->0@.len() ==> r@.drop_last() == status->0@.take(avail - 1),
        status is None && title is Some && 0 < title->0@.len() <= avail ==> r@ == title->0@,
        status is None && title is Some && 1 < avail < title->0@.len() ==> r@.skip(1) == title->0@.skip(
            title->0@.len() - (avail - 1),
        ),
        status is None && (title is None || title->0@.len() == 0) && facts.cwd is None && facts.name is None
            && avail >= 8 ==> r@ == "Terminal"@,
{
    reveal_strlit("Terminal");
    if status is Some && 1 < avail < status->0@.len() {
        assert(r@.drop_last() =~= status->0@.take(avail - 1));
    }
    if status is None && title is Some && 1 < avail < title->0@.len() {
        assert(r@.skip(1) =~= title->0@.skip(title->0@.len() - (avail - 1)));
    }
}

} // verus!

//! The terminal grid and the rules by which the renderer paints its cells.
use vstd::prelude::*;
use crate::geometry::{
    cell_index, flat_index, in_grid, lemma_flat_index_bounded, lemma_flat_index_injective,
};

verus! {

/// One character cell of the terminal, with foreground and background colour.
#[derive(Clone, Copy, Debug, PartialEq, Eq)]
pub struct TerminalCell {
    pub ch: char,
    pub fg: (u8, u8, u8),
    pub bg: (u8, u8, u8),
    pub bold: bool,
}

/// The cell of an empty, black screen.
pub open spec fn blank_cell() -> TerminalCell {
    TerminalCell { ch: ' ', fg: (0, 0, 0), bg: (0, 0, 0), bold: false }
}

/// A cell showing `ch` in colour `fg` on black, not bold.
pub open spec fn plain_cell(ch: char, fg: (u8, u8, u8)) -> TerminalCell {
    TerminalCell { ch, fg, bg: (0, 0, 0), bold: false }
}

/// The blank cell.
pub fn blank() -> (c: TerminalCell)
    ensures
        c == blank_cell(),
{
    TerminalCell { ch: ' ', fg: (0, 0, 0), bg: (0, 0, 0), bold: false }
}

/// Turns every cell of the grid blank: the screen starts black each frame.
pub fn clear_grid(grid: &mut [TerminalCell])
    ensures
        final(grid)@.len() == old(grid)@.len(),
        forall|i: int| 0 <= i < final(grid)@.len() ==> final(grid)@[i] == blank_cell(),
{
    let n = grid.len();
    let mut i: usize = 0;
    while i < n
        invariant
            n == grid@.len(),
            n == old(grid)@.len(),
            i <= n,
            forall|j: int| 0 <= j < i ==> grid@[j] == blank_cell(),
        decreases n - i,
    {
        grid[i] = blank();
        i = i + 1;
    }
}

/// Which cells a layer of the picture may draw over.
#[derive(Clone, Copy, Debug, PartialEq, Eq)]
pub enum Overwrite {
    /// Any cell (firefly bodies, attractors).
    Any,
    /// Only blank cells (trails).
    Blank,
    /// Blank cells and faint dots (glow around bright fireflies).
    BlankOrDot,
    /// Blank cells, dots and connector strokes (kill sparks).
    Spark,
}

/// Whether a layer painting under `rule` may draw over a cell showing `ch`.
pub open spec fn overwrites(rule: Overwrite, ch: char) -> bool {
    match rule {
        Overwrite::Any => true,
        Overwrite::Blank => ch == ' ',
        Overwrite::BlankOrDot => ch == ' ' || ch == '·',
        Overwrite::Spark => ch == ' ' || ch == '·' || ch == '─' || ch == '│' || ch == '╱' || ch
            == '╲',
    }
}

/// Executable form of `overwrites`.
pub fn may_overwrite(rule: Overwrite, ch: char) -> (b: bool)
    ensures
        b == overwrites(rule, ch),
        rule == Overwrite::Any ==> b,
        rule == Overwrite::Blank ==> (b <==> ch == ' '),
        rule == Overwrite::BlankOrDot ==> (b <==> (ch == ' ' || ch == '·')),
        rule == Overwrite::Spark ==> (b <==> (ch == ' ' || ch == '·' || ch == '─' || ch == '│'
            || ch == '╱' || ch == '╲')),
{
    match rule {
        Overwrite::Any => true,
        Overwrite::Blank => ch == ' ',
        Overwrite::BlankOrDot => ch == ' ' || ch == '·',
        Overwrite::Spark => ch == ' ' || ch == '·' || ch == '─' || ch == '│' || ch == '╱' || ch
            == '╲',
    }
}

/// The grid after painting `cell` at `(x, y)` under `rule`: unchanged when the
/// cell is off the grid or holds something the rule may not draw over.
pub open spec fn painted(
    g: Seq<TerminalCell>,
    cols: int,
    rows: int,
    x: int,
    y: int,
    rule: Overwrite,
    cell: TerminalCell,
) -> Seq<TerminalCell> {
    if in_grid(x, y, cols, rows) && overwrites(rule, g[flat_index(x, y, cols)].ch) {
        g.update(flat_index(x, y, cols), cell)
    } else {
        g
    }
}

/// Paints `cell` at `(x, y)` when the cell is on the grid and `rule` lets it
/// draw over what is there; says whether it did.
pub fn paint(
    grid: &mut [TerminalCell],
    cols: usize,
    rows: usize,
    x: i32,
    y: i32,
    rule: Overwrite,
    cell: TerminalCell,
) -> (done: bool)
    requires
        cols <= i32::MAX,
        rows <= i32::MAX,
        cols * rows <= old(grid)@.len(),
    ensures
        done == (in_grid(x as int, y as int, cols as int, rows as int) && overwrites(
            rule,
            old(grid)@[flat_index(x as int, y as int, cols as int)].ch,
        )),
        final(grid)@ == painted(old(grid)@, cols as int, rows as int, x as int, y as int, rule, cell),
        final(grid)@.len() == old(grid)@.len(),
        rule == Overwrite::Any && in_grid(x as int, y as int, cols as int, rows as int) ==> done
            && final(grid)@[y * cols + x] == cell,
        forall|i: int|
            0 <= i < old(grid)@.len() && i != y * cols + x ==> final(grid)@[i] == old(grid)@[i],
{
    match cell_index(x, y, cols, rows) {
        Some(idx) => {
            if may_overwrite(rule, grid[idx].ch) {
                grid[idx] = cell;
                true
            } else {
                false
            }
        },
        None => false,
    }
}

/// The grid after painting each cell of `cells` at the point of `points` with
/// the same position, in order.
pub open spec fn painted_all(
    g: Seq<TerminalCell>,
    cols: int,
    rows: int,
    points: Seq<(i32, i32)>,
    cells: Seq<TerminalCell>,
    rule: Overwrite,
) -> Seq<TerminalCell>
    decreases points.len(),
{
    if points.len() == 0 {
        g
    } else {
        let prev = painted_all(g, cols, rows, points.drop_last(), cells.drop_last(), rule);
        let p = points.last();
        painted(prev, cols, rows, p.0 as int, p.1 as int, rule, cells[points.len() - 1])
    }
}

/// Paints a run of points in order (a firefly's trail, the kill sparks), each
/// with its own cell, under one rule.
pub fn paint_points(
    grid: &mut [TerminalCell],
    cols: usize,
    rows: usize,
    points: &[(i32, i32)],
    cells: &[TerminalCell],
    rule: Overwrite,
)
    requires
        cols <= i32::MAX,
        rows <= i32::MAX,
        cols * rows <= old(grid)@.len(),
        points@.len() == cells@.len(),
    ensures
        final(grid)@ == painted_all(old(grid)@, cols as int, rows as int, points@, cells@, rule),
{
    let n = points.len();
    let mut k: usize = 0;
    while k < n
        invariant
            n == points@.len(),
            n == cells@.len(),
            k <= n,
            cols <= i32::MAX,
            rows <= i32::MAX,
            cols * rows <= old(grid)@.len(),
            grid@.len() == old(grid)@.len(),
            grid@ == painted_all(
                old(grid)@,
                cols as int,
                rows as int,
                points@.take(k as int),
                cells@.take(k as int),
                rule,
            ),
        decreases n - k,
    {
        let (x, y) = points[k];
        paint(grid, cols, rows, x, y, rule, cells[k]);
        proof {
            assert(points@.take(k + 1).drop_last() =~= points@.take(k as int));
            assert(cells@.take(k + 1).drop_last() =~= cells@.take(k as int));
        }
        k = k + 1;
    }
    proof {
        assert(points@.take(n as int) =~= points@);
        assert(cells@.take(n as int) =~= cells@);
    }
}

/// Whether position `i` is one of the on-grid orthogonal neighbours of
/// `(px, py)`.
pub open spec fn is_glow_cell(i: int, px: int, py: int, cols: int, rows: int) -> bool {
    ||| in_grid(px - 1, py, cols, rows) && i == flat_index(px - 1, py, cols)
    ||| in_grid(px + 1, py, cols, rows) && i == flat_index(px + 1, py, cols)
    ||| in_grid(px, py - 1, cols, rows) && i == flat_index(px, py - 1, cols)
    ||| in_grid(px, py + 1, cols, rows) && i == flat_index(px, py + 1, cols)
}

/// Soft glow around a bright firefly at `(px, py)`: each orthogonal neighbour
/// on the grid that is blank or a faint dot becomes a dot in colour `fg`;
/// every other cell keeps what it had.
pub fn paint_glow(
    grid: &mut [TerminalCell],
    cols: usize,
    rows: usize,
    px: i32,
    py: i32,
    fg: (u8, u8, u8),
)
    requires
        cols <= i32::MAX,
        rows <= i32::MAX,
        cols * rows <= old(grid)@.len(),
        i32::MIN < px < i32::MAX,
        i32::MIN < py < i32::MAX,
    ensures
        final(grid)@.len() == old(grid)@.len(),
        forall|i: int|
            0 <= i < old(grid)@.len() ==> #[trigger] final(grid)@[i] == if is_glow_cell(
                i,
                px as int,
                py as int,
                cols as int,
                rows as int,
            ) && overwrites(Overwrite::BlankOrDot, old(grid)@[i].ch) {
                plain_cell('·', fg)
            } else {
                old(grid)@[i]
            },
{
    let cell = TerminalCell { ch: '·', fg, bg: (0, 0, 0), bold: false };
    let ghost g0 = grid@;
    let ghost (c, r) = (cols as int, rows as int);
    let ghost (x, y) = (px as int, py as int);
    paint(grid, cols, rows, px - 1, py, Overwrite::BlankOrDot, cell);
    let ghost g1 = grid@;
    paint(grid, cols, rows, px + 1, py, Overwrite::BlankOrDot, cell);
    let ghost g2 = grid@;
    paint(grid, cols, rows, px, py - 1, Overwrite::BlankOrDot, cell);
    let ghost g3 = grid@;
    paint(grid, cols, rows, px, py + 1, Overwrite::BlankOrDot, cell);
    proof {
        // The four neighbours are distinct cells, so no paint sees another's dot.
        assert forall|i: int| 0 <= i < g0.len() implies #[trigger] grid@[i] == if is_glow_cell(
            i,
            x,
            y,
            c,
            r,
        ) && overwrites(Overwrite::BlankOrDot, g0[i].ch) {
            cell
        } else {
            g0[i]
        } by {
            if in_grid(x - 1, y, c, r) {
                lemma_flat_index_bounded(x - 1, y, c, r);
            }
            if in_grid(x + 1, y, c, r) {
                lemma_flat_index_bounded(x + 1, y, c, r);
            }
            if in_grid(x, y - 1, c, r) {
                lemma_flat_index_bounded(x, y - 1, c, r);
            }
            if in_grid(x, y + 1, c, r) {
                lemma_flat_index_bounded(x, y + 1, c, r);
            }
            if in_grid(x - 1, y, c, r) && in_grid(x + 1, y, c, r) {
                if flat_index(x - 1, y, c) == flat_index(x + 1, y, c) {
                    lemma_flat_index_injective(x - 1, y, x + 1, y, c, r);
                }
            }
            if in_grid(x - 1, y, c, r) && in_grid(x, y - 1, c, r) {
                if flat_index(x - 1, y, c) == flat_index(x, y - 1, c) {
                    lemma_flat_index_injective(x - 1, y, x, y - 1, c, r);
                }
            }
            if in_grid(x - 1, y, c, r) && in_grid(x, y + 1, c, r) {
                if flat_index(x - 1, y, c) == flat_index(x, y + 1, c) {
                    lemma_flat_index_injective(x - 1, y, x, y + 1, c, r);
                }
            }
            if in_grid(x + 1, y, c, r) && in_grid(x, y - 1, c, r) {
                if flat_index(x + 1, y, c) == flat_index(x, y - 1, c) {
                    lemma_flat_index_injective(x + 1, y, x, y - 1, c, r);
                }
            }
            if in_grid(x + 1, y, c, r) && in_grid(x, y + 1, c, r) {
                if flat_index(x + 1, y, c) == flat_index(x, y + 1, c) {
                    lemma_flat_index_injective(x + 1, y, x, y + 1, c, r);
                }
            }
            if in_grid(x, y - 1, c, r) && in_grid(x, y + 1, c, r) {
                if flat_index(x, y - 1, c) == flat_index(x, y + 1, c) {
                    lemma_flat_index_injective(x, y - 1, x, y + 1, c, r);
                }
            }
        }
    }
}

/// What each layer may draw over: bodies and attractors over anything,
/// trails only over blank cells, glow over blank cells and faint dots, sparks
/// over those and connector strokes; every other glyph is kept.
pub proof fn lemma_overwrite_rules(ch: char)
    ensures
        overwrites(Overwrite::Any, ch),
        overwrites(Overwrite::Blank, ch) <==> ch == ' ',
        overwrites(Overwrite::BlankOrDot, ch) <==> (ch == ' ' || ch == '·'),
        overwrites(Overwrite::Spark, ch) <==> (ch == ' ' || ch == '·' || ch == '─' || ch == '│'
            || ch == '╱' || ch == '╲'),
{
}

/// Painting on the grid stores the cell at `(x, y)` exactly when the rule
/// allows drawing over what is there, and touches no other cell.
pub proof fn lemma_painted_cell(
    g: Seq<TerminalCell>,
    cols: int,
    rows: int,
    x: int,
    y: int,
    rule: Overwrite,
    cell: TerminalCell,
    i: int,
)
    requires
        cols * rows <= g.len(),
        0 <= i < g.len(),
    ensures
        painted(g, cols, rows, x, y, rule, cell).len() == g.len(),
        in_grid(x, y, cols, rows) && i == y * cols + x && overwrites(rule, g[i].ch) ==> painted(
            g,
            cols,
            rows,
            x,
            y,
            rule,
            cell,
        )[i] == cell,
        !(in_grid(x, y, cols, rows) && i == y * cols + x && overwrites(rule, g[i].ch)) ==> painted(
            g,
            cols,
            rows,
            x,
            y,
            rule,
            cell,
        )[i] == g[i],
{
    if in_grid(x, y, cols, rows) {
        lemma_flat_index_bounded(x, y, cols, rows);
    }
}

/// Painting a run is painting all but its last point, then painting the last
/// point: every point of the run is painted, in order, the last one included.
pub proof fn lemma_painted_all_push(
    g: Seq<TerminalCell>,
    cols: int,
    rows: int,
    points: Seq<(i32, i32)>,
    cells: Seq<TerminalCell>,
    p: (i32, i32),
    c: TerminalCell,
    rule: Overwrite,
)
    requires
        points.len() == cells.len(),
    ensures
        painted_all(g, cols, rows, points.push(p), cells.push(c), rule) == painted(
            painted_all(g, cols, rows, points, cells, rule),
            cols,
            rows,
            p.0 as int,
            p.1 as int,
            rule,
            c,
        ),
        painted_all(g, cols, rows, Seq::empty(), Seq::empty(), rule) == g,
        painted_all(g, cols, rows, seq![p], seq![c], rule) == painted(
            g,
            cols,
            rows,
            p.0 as int,
            p.1 as int,
            rule,
            c,
        ),
{
    assert(points.push(p).drop_last() =~= points);
    assert(cells.push(c).drop_last() =~= cells);
    assert(seq![p].drop_last() =~= Seq::<(i32, i32)>::empty());
    assert(seq![c].drop_last() =~= Seq::<TerminalCell>::empty());
    assert(painted_all(g, cols, rows, Seq::<(i32, i32)>::empty(), Seq::<TerminalCell>::empty(), rule) == g);
    assert(seq![p].last() == p);
    assert(seq![c][0] == c);
}

/// The glyph of a firefly's body by its size class.
pub open spec fn firefly_glyph_spec(size: u8) -> char {
    if size == 3 {
        '✦'
    } else if size == 2 {
        'o'
    } else if size == 1 {
        '+'
    } else {
        '·'
    }
}

/// Glyph of a firefly's body: `✦`, `o`, `+` for sizes 3, 2, 1, a dot otherwise.
pub fn firefly_glyph(size: u8) -> (ch: char)
    ensures
        ch == firefly_glyph_spec(size),
{
    match size {
        3 => '✦',
        2 => 'o',
        1 => '+',
        _ => '·',
    }
}

/// Firefly sizes 3, 2 and 1 show as a four-pointed star, a ring and a plus;
/// every other size as a faint dot.
pub proof fn lemma_firefly_glyphs(size: u8)
    ensures
        firefly_glyph_spec(3) == '✦',
        firefly_glyph_spec(2) == 'o',
        firefly_glyph_spec(1) == '+',
        size == 0 || size > 3 ==> firefly_glyph_spec(size) == '·',
{
}

/// The glow of a firefly at `(px, py)` reaches exactly its on-grid left,
/// right, upper and lower neighbours, never the firefly's own cell.
pub proof fn lemma_glow_cells(px: int, py: int, cols: int, rows: int, i: int)
    requires
        in_grid(px, py, cols, rows),
    ensures
        px > 0 ==> is_glow_cell(py * cols + px - 1, px, py, cols, rows),
        px + 1 < cols ==> is_glow_cell(py * cols + px + 1, px, py, cols, rows),
        py > 0 ==> is_glow_cell((py - 1) * cols + px, px, py, cols, rows),
        py + 1 < rows ==> is_glow_cell((py + 1) * cols + px, px, py, cols, rows),
        !is_glow_cell(py * cols + px, px, py, cols, rows),
        is_glow_cell(i, px, py, cols, rows) ==> 0 <= i < cols * rows,
{
    if is_glow_cell(py * cols + px, px, py, cols, rows) {
        if in_grid(px - 1, py, cols, rows) && py * cols + px == flat_index(px - 1, py, cols) {
        }
        if in_grid(px, py - 1, cols, rows) && py * cols + px == flat_index(px, py - 1, cols) {
            assert((py - 1) * cols + px == py * cols + px - cols) by (nonlinear_arith);
        }
        if in_grid(px, py + 1, cols, rows) && py * cols + px == flat_index(px, py + 1, cols) {
            assert((py + 1) * cols + px == py * cols + px + cols) by (nonlinear_arith);
        }
    }
    assert((py - 1) * cols + px == flat_index(px, py - 1, cols));
    assert((py + 1) * cols + px == flat_index(px, py + 1, cols));
    if is_glow_cell(i, px, py, cols, rows) {
        if in_grid(px - 1, py, cols, rows) && i == flat_index(px - 1, py, cols) {
            lemma_flat_index_bounded(px - 1, py, cols, rows);
        }
        if in_grid(px + 1, py, cols, rows) && i == flat_index(px + 1, py, cols) {
            lemma_flat_index_bounded(px + 1, py, cols, rows);
        }
        if in_grid(px, py - 1, cols, rows) && i == flat_index(px, py - 1, cols) {
            lemma_flat_index_bounded(px, py - 1, cols, rows);
        }
        if in_grid(px, py + 1, cols, rows) && i == flat_index(px, py + 1, cols) {
            lemma_flat_index_bounded(px, py + 1, cols, rows);
        }
    }
}

/// A cleared cell is a space, black on black, not bold.
pub proof fn lemma_blank_cell()
    ensures
        blank_cell().ch == ' ',
        blank_cell().fg == (0u8, 0u8, 0u8),
        blank_cell().bg == (0u8, 0u8, 0u8),
        !blank_cell().bold,
{
}

} // verus!

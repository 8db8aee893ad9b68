//! Cell coordinates on the terminal grid and the placement of the field.
use vstd::prelude::*;

verus! {

/// Whether the cell `(x, y)` lies on a `cols` by `rows` grid.
pub open spec fn in_grid(x: int, y: int, cols: int, rows: int) -> bool {
    0 <= x < cols && 0 <= y < rows
}

/// Row-major position of the cell `(x, y)` in a grid `cols` cells wide.
pub open spec fn flat_index(x: int, y: int, cols: int) -> int {
    y * cols + x
}

/// Every cell of the grid has a position below `cols * rows`.
pub proof fn lemma_flat_index_bounded(x: int, y: int, cols: int, rows: int)
    requires
        in_grid(x, y, cols, rows),
    ensures
        0 <= flat_index(x, y, cols) < cols * rows,
{
    assert(0 <= y * cols + x < cols * rows) by (nonlinear_arith)
        requires
            0 <= x < cols,
            0 <= y < rows,
    ;
}

/// Two cells of the grid share a position only if they are the same cell.
pub proof fn lemma_flat_index_injective(x1: int, y1: int, x2: int, y2: int, cols: int, rows: int)
    requires
        in_grid(x1, y1, cols, rows),
        in_grid(x2, y2, cols, rows),
        flat_index(x1, y1, cols) == flat_index(x2, y2, cols),
    ensures
        x1 == x2,
        y1 == y2,
{
    if y1 < y2 {
        assert(y1 * cols + cols <= y2 * cols) by (nonlinear_arith)
            requires
                y1 < y2,
                0 < cols,
        ;
    } else if y2 < y1 {
        assert(y2 * cols + cols <= y1 * cols) by (nonlinear_arith)
            requires
                y2 < y1,
                0 < cols,
        ;
    }
}

/// Position in the grid of the cell `(x, y)`, or `None` when the cell is off
/// the grid.
pub fn cell_index(x: i32, y: i32, cols: usize, rows: usize) -> (idx: Option<usize>)
    requires
        cols <= i32::MAX,
        rows <= i32::MAX,
        cols * rows <= usize::MAX,
    ensures
        idx is Some <==> in_grid(x as int, y as int, cols as int, rows as int),
        idx matches Some(i) ==> i == flat_index(x as int, y as int, cols as int) && i < cols
            * rows,
        idx matches Some(i) ==> i == y * cols + x && i % cols == x && i / cols == y,
{
    if x >= 0 && x < cols as i32 && y >= 0 && y < rows as i32 {
        proof {
            lemma_flat_index_bounded(x as int, y as int, cols as int, rows as int);
        }
        proof {
            vstd::arithmetic::div_mod::lemma_fundamental_div_mod_converse(
                (y * cols + x) as int,
                cols as int,
                y as int,
                x as int,
            );
        }
        Some(y as usize * cols + x as usize)
    } else {
        None
    }
}

/// The cells of a monitor within the terminal grid: columns
/// `start_col..end_col` and rows `start_row..end_row`.
#[derive(Clone, Copy, Debug, PartialEq, Eq)]
pub struct MonitorCellBounds {
    pub start_col: usize,
    pub end_col: usize,
    pub start_row: usize,
    pub end_row: usize,
    pub is_primary: bool,
}

impl MonitorCellBounds {
    /// The bounds do not run backwards.
    pub open spec fn wf(self) -> bool {
        self.start_col <= self.end_col && self.start_row <= self.end_row
    }

    pub fn width(&self) -> (w: usize)
        requires
            self.wf(),
        ensures
            w == self.end_col - self.start_col,
    {
        self.end_col - self.start_col
    }

    pub fn height(&self) -> (h: usize)
        requires
            self.wf(),
        ensures
            h == self.end_row - self.start_row,
    {
        self.end_row - self.start_row
    }
}

/// Which part of the terminal the swarm lives on: the whole grid of a
/// secondary monitor, or the primary monitor's bounds within the grid.
#[derive(Clone, Copy, Debug)]
pub enum Screen {
    Secondary,
    Primary(MonitorCellBounds),
}

impl Screen {
    pub open spec fn wf(self) -> bool {
        self matches Screen::Primary(b) ==> b.wf()
    }
}

/// A coordinate on the half-cell lattice: `cell`, plus one half when `half`.
#[derive(Clone, Copy, Debug, PartialEq, Eq)]
pub struct HalfCell {
    pub cell: usize,
    pub half: bool,
}

impl HalfCell {
    /// Twice the coordinate, an integer.
    pub open spec fn doubled(self) -> int {
        2 * self.cell + if self.half {
            1int
        } else {
            0int
        }
    }
}

/// The coordinate `n / 2`, exactly.
fn halve(n: usize) -> (h: HalfCell)
    ensures
        h.doubled() == n,
        h == (HalfCell { cell: n / 2, half: n % 2 == 1 }),
{
    HalfCell { cell: n / 2, half: n % 2 == 1 }
}

/// The centre of the field: the middle of the whole grid on a secondary
/// monitor, otherwise the middle cell of the primary monitor (whole cells,
/// the half of an odd width dropped).
pub open spec fn center_spec(screen: Screen, cols: usize, rows: usize) -> (HalfCell, HalfCell) {
    match screen {
        Screen::Secondary => (
            HalfCell { cell: cols / 2, half: cols % 2 == 1 },
            HalfCell { cell: rows / 2, half: rows % 2 == 1 },
        ),
        Screen::Primary(b) => (
            HalfCell { cell: (b.start_col + (b.end_col - b.start_col) / 2) as usize, half: false },
            HalfCell { cell: (b.start_row + (b.end_row - b.start_row) / 2) as usize, half: false },
        ),
    }
}

/// The centre of the field (see `center_spec`); on a secondary monitor it is
/// exactly half the grid's width and height.
pub fn field_center(screen: &Screen, cols: usize, rows: usize) -> (c: (HalfCell, HalfCell))
    requires
        screen.wf(),
    ensures
        c == center_spec(*screen, cols, rows),
        *screen matches Screen::Secondary ==> c.0.doubled() == cols && c.1.doubled() == rows,
{
    match screen {
        Screen::Secondary => (halve(cols), halve(rows)),
        Screen::Primary(b) => (
            HalfCell { cell: b.start_col + b.width() / 2, half: false },
            HalfCell { cell: b.start_row + b.height() / 2, half: false },
        ),
    }
}

/// The area in which replacement fireflies are spawned: the whole grid on a
/// secondary monitor, otherwise the primary monitor's bounds.
pub fn spawn_area(screen: &Screen, cols: usize, rows: usize) -> (a: MonitorCellBounds)
    ensures
        a == match *screen {
            Screen::Secondary => MonitorCellBounds {
                start_col: 0,
                end_col: cols,
                start_row: 0,
                end_row: rows,
                is_primary: false,
            },
            Screen::Primary(b) => b,
        },
{
    match screen {
        Screen::Secondary => MonitorCellBounds {
            start_col: 0,
            end_col: cols,
            start_row: 0,
            end_row: rows,
            is_primary: false,
        },
        Screen::Primary(b) => *b,
    }
}

/// The field's centre lies on the screen it belongs to, halfway across it: on
/// a secondary monitor exactly half the grid, on the primary monitor the
/// middle cell, the half of an odd extent dropped.
pub proof fn lemma_center_in_the_middle(screen: Screen, cols: usize, rows: usize)
    requires
        screen.wf(),
    ensures
        screen matches Screen::Secondary ==> center_spec(screen, cols, rows).0.doubled() == cols
            && center_spec(screen, cols, rows).1.doubled() == rows,
        screen matches Screen::Primary(b) ==> {
            let (cx, cy) = center_spec(screen, cols, rows);
            &&& !cx.half && !cy.half
            &&& b.start_col <= cx.cell <= b.end_col
            &&& b.start_row <= cy.cell <= b.end_row
            &&& 2 * (cx.cell - b.start_col) <= b.end_col - b.start_col < 2 * (cx.cell - b.start_col) + 2
            &&& 2 * (cy.cell - b.start_row) <= b.end_row - b.start_row < 2 * (cy.cell - b.start_row) + 2
        },
{
}

} // verus!

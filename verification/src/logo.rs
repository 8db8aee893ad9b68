//! The system logo placed in the middle of the field: which of its cells are
//! drawn where, and which cells a passing firefly lights up.
use vstd::prelude::*;
use crate::geometry::{flat_index, in_grid, lemma_flat_index_bounded};

verus! {

/// A logo placed on the grid: its top-left cell, its size, and its lines of
/// characters.
pub struct LogoPlacement {
    pub x: usize,
    pub y: usize,
    pub width: usize,
    pub height: usize,
    pub lines: Vec<Vec<char>>,
}

/// The position in the logo's excitation buffer of the logo cell that the
/// grid cell `(px, py)` covers, when the buffer has one entry per logo cell
/// (`width * height` entries, neither of them zero) and the cell lies on the
/// logo.
pub open spec fn excitation_index_spec(
    px: int,
    py: int,
    x: int,
    y: int,
    width: int,
    height: int,
    len: int,
) -> Option<int> {
    if width == 0 || height == 0 || len != width * height {
        None
    } else if x <= px < x + width && y <= py < y + height {
        Some((py - y) * width + (px - x))
    } else {
        None
    }
}

/// Which entry of the logo's excitation buffer (of `len` entries) a firefly
/// at the grid cell `(px, py)` lights up, if any.
pub fn excitation_index(px: i32, py: i32, logo: &LogoPlacement, len: usize) -> (idx: Option<usize>)
    requires
        logo.x + logo.width <= i32::MAX,
        logo.y + logo.height <= i32::MAX,
    ensures
        idx matches Some(i) ==> i < len,
        match excitation_index_spec(
            px as int,
            py as int,
            logo.x as int,
            logo.y as int,
            logo.width as int,
            logo.height as int,
            len as int,
        ) {
            Some(i) => idx == Some(i as usize),
            None => idx is None,
        },
{
    let w = logo.width;
    let h = logo.height;
    if w == 0 || h == 0 {
        return None;
    }
    if w > len / h {
        proof {
            assert(w * h > len) by (nonlinear_arith)
                requires
                    w > len / h,
                    h > 0,
            ;
        }
        return None;
    }
    proof {
        assert(w * h <= len) by (nonlinear_arith)
            requires
                w <= len / h,
                h > 0,
        ;
    }
    if w * h != len {
        return None;
    }
    let x0 = logo.x as i32;
    let x1 = (logo.x + w) as i32;
    let y0 = logo.y as i32;
    let y1 = (logo.y + h) as i32;
    if px >= x0 && px < x1 && py >= y0 && py < y1 {
        let lx = px as usize - logo.x;
        let ly = py as usize - logo.y;
        proof {
            assert(ly * w + lx < h * w) by (nonlinear_arith)
                requires
                    ly < h,
                    lx < w,
            ;
            assert(h * w == w * h) by (nonlinear_arith);
        }
        Some(ly * w + lx)
    } else {
        None
    }
}

/// The excitation entries lit by fireflies at `points`, one per point on the
/// logo, in the order of the points.
pub open spec fn lit_cells(
    points: Seq<(i32, i32)>,
    x: int,
    y: int,
    width: int,
    height: int,
    len: int,
) -> Seq<usize>
    decreases points.len(),
{
    if points.len() == 0 {
        Seq::empty()
    } else {
        let prev = lit_cells(points.drop_last(), x, y, width, height, len);
        let p = points.last();
        match excitation_index_spec(p.0 as int, p.1 as int, x, y, width, height, len) {
            Some(i) => prev.push(i as usize),
            None => prev,
        }
    }
}

/// The excitation entries lit up by fireflies standing at the grid cells
/// `points` (their rounded positions); each entry is below `len`.
pub fn excited_cells(points: &[(i32, i32)], logo: &LogoPlacement, len: usize) -> (lit: Vec<usize>)
    requires
        logo.x + logo.width <= i32::MAX,
        logo.y + logo.height <= i32::MAX,
    ensures
        lit@ == lit_cells(
            points@,
            logo.x as int,
            logo.y as int,
            logo.width as int,
            logo.height as int,
            len as int,
        ),
        forall|k: int| 0 <= k < lit@.len() ==> lit@[k] < len,
{
    let mut lit: Vec<usize> = Vec::new();
    let mut k: usize = 0;
    while k < points.len()
        invariant
            k <= points@.len(),
            logo.x + logo.width <= i32::MAX,
            logo.y + logo.height <= i32::MAX,
            lit@ == lit_cells(
                points@.take(k as int),
                logo.x as int,
                logo.y as int,
                logo.width as int,
                logo.height as int,
                len as int,
            ),
            forall|j: int| 0 <= j < lit@.len() ==> lit@[j] < len,
        decreases points@.len() - k,
    {
        let (px, py) = points[k];
        proof {
            assert(points@.take(k + 1).drop_last() =~= points@.take(k as int));
        }
        match excitation_index(px, py, logo, len) {
            Some(i) => lit.push(i),
            None => {},
        }
        k = k + 1;
    }
    assert(points@.take(points@.len() as int) =~= points@);
    lit
}

/// A character of the logo to draw: where it goes on the grid, which entry of
/// the excitation buffer belongs to it (if the buffer has one), and the
/// character itself.
#[derive(Clone, Copy, Debug, PartialEq, Eq)]
pub struct LogoCell {
    pub grid: usize,
    pub excitation: Option<usize>,
    pub ch: char,
}

/// The cell drawn for the character `ch` at column `c` of line `r` of a logo
/// placed at `(x, y)`, or `None` when it is a space or falls off the grid.
pub open spec fn logo_cell_at(
    x: int,
    y: int,
    width: int,
    r: int,
    c: int,
    ch: char,
    cols: int,
    rows: int,
    len: int,
) -> Option<LogoCell> {
    if in_grid(x + c, y + r, cols, rows) && ch != ' ' {
        Some(
            LogoCell {
                grid: flat_index(x + c, y + r, cols) as usize,
                excitation: if r * width + c < len {
                    Some((r * width + c) as usize)
                } else {
                    None
                },
                ch,
            },
        )
    } else {
        None
    }
}

/// The cells drawn for line `r` of the logo, left to right.
pub open spec fn line_cells(
    x: int,
    y: int,
    width: int,
    r: int,
    line: Seq<char>,
    cols: int,
    rows: int,
    len: int,
) -> Seq<LogoCell>
    decreases line.len(),
{
    if line.len() == 0 {
        Seq::empty()
    } else {
        let prev = line_cells(x, y, width, r, line.drop_last(), cols, rows, len);
        match logo_cell_at(x, y, width, r, line.len() - 1, line.last(), cols, rows, len) {
            Some(cell) => prev.push(cell),
            None => prev,
        }
    }
}

/// The cells drawn for the logo's `lines`, line by line from the top.
pub open spec fn logo_cells_spec(
    x: int,
    y: int,
    width: int,
    lines: Seq<Vec<char>>,
    cols: int,
    rows: int,
    len: int,
) -> Seq<LogoCell>
    decreases lines.len(),
{
    if lines.len() == 0 {
        Seq::empty()
    } else {
        logo_cells_spec(x, y, width, lines.drop_last(), cols, rows, len) + line_cells(
            x,
            y,
            width,
            lines.len() - 1,
            lines.last()@,
            cols,
            rows,
            len,
        )
    }
}

/// The logo's visible characters on a `cols` by `rows` grid, in reading
/// order, each with its grid position and its entry in an excitation buffer of
/// `len` entries.
pub fn logo_cells(logo: &LogoPlacement, cols: usize, rows: usize, len: usize) -> (cells: Vec<
    LogoCell,
>)
    requires
        cols * rows <= usize::MAX,
    ensures
        cells@ == logo_cells_spec(
            logo.x as int,
            logo.y as int,
            logo.width as int,
            logo.lines@,
            cols as int,
            rows as int,
            len as int,
        ),
        forall|k: int| 0 <= k < cells@.len() ==> cells@[k].grid < cols * rows,
{
    let mut cells: Vec<LogoCell> = Vec::new();
    let mut r: usize = 0;
    let n = logo.lines.len();
    while r < n
        invariant
            n == logo.lines@.len(),
            r <= n,
            cols * rows <= usize::MAX,
            cells@ == logo_cells_spec(
                logo.x as int,
                logo.y as int,
                logo.width as int,
                logo.lines@.take(r as int),
                cols as int,
                rows as int,
                len as int,
            ),
            forall|k: int| 0 <= k < cells@.len() ==> cells@[k].grid < cols * rows,
        decreases n - r,
    {
        let line = &logo.lines[r];
        let ghost before = cells@;
        let mut c: usize = 0;
        while c < line.len()
            invariant
                c <= line@.len(),
                r < n,
                n == logo.lines@.len(),
                line == logo.lines@[r as int],
                cols * rows <= usize::MAX,
                cells@ == before + line_cells(
                    logo.x as int,
                    logo.y as int,
                    logo.width as int,
                    r as int,
                    line@.take(c as int),
                    cols as int,
                    rows as int,
                    len as int,
                ),
                forall|k: int| 0 <= k < cells@.len() ==> cells@[k].grid < cols * rows,
            decreases line@.len() - c,
        {
            let ch = line[c];
            proof {
                assert(line@.take(c + 1).drop_last() =~= line@.take(c as int));
            }
            let ghost prev = cells@;
            if logo.x < cols && c < cols - logo.x && logo.y < rows && r < rows - logo.y && ch
                != ' ' {
                let gx = logo.x + c;
                let gy = logo.y + r;
                proof {
                    lemma_flat_index_bounded(gx as int, gy as int, cols as int, rows as int);
                    assert((r as int) * (logo.width as int) <= (usize::MAX as int) * (
                    usize::MAX as int)) by (nonlinear_arith)
                        requires
                            r <= usize::MAX,
                            logo.width <= usize::MAX,
                    ;
                }
                let wide: u128 = (r as u128) * (logo.width as u128) + (c as u128);
                let excitation = if wide < len as u128 {
                    Some(r * logo.width + c)
                } else {
                    None
                };
                cells.push(LogoCell { grid: gy * cols + gx, excitation, ch });
                proof {
                    assert(cells@ =~= before + line_cells(
                        logo.x as int,
                        logo.y as int,
                        logo.width as int,
                        r as int,
                        line@.take(c + 1),
                        cols as int,
                        rows as int,
                        len as int,
                    ));
                }
            }
            c = c + 1;
        }
        proof {
            assert(line@.take(line@.len() as int) =~= line@);
            assert(logo.lines@.take(r + 1).drop_last() =~= logo.lines@.take(r as int));
        }
        r = r + 1;
    }
    assert(logo.lines@.take(n as int) =~= logo.lines@);
    cells
}

/// A lit entry is the logo cell under the firefly: its column within the
/// logo is the entry modulo the width, its line the entry divided by the
/// width; and a firefly off the logo lights nothing.
pub proof fn lemma_excitation_is_cell_under_firefly(
    px: int,
    py: int,
    x: int,
    y: int,
    width: int,
    height: int,
)
    requires
        width > 0,
        height > 0,
    ensures
        excitation_index_spec(px, py, x, y, width, height, width * height) matches Some(i) ==> i
            % width == px - x && i / width == py - y && 0 <= i < width * height,
        !(x <= px < x + width && y <= py < y + height) ==> excitation_index_spec(
            px,
            py,
            x,
            y,
            width,
            height,
            width * height,
        ) is None,
        (x <= px < x + width && y <= py < y + height) ==> excitation_index_spec(
            px,
            py,
            x,
            y,
            width,
            height,
            width * height,
        ) is Some,
{
    if x <= px < x + width && y <= py < y + height {
        let i = (py - y) * width + (px - x);
        vstd::arithmetic::div_mod::lemma_fundamental_div_mod_converse(i, width, py - y, px - x);
        assert(i < width * height) by (nonlinear_arith)
            requires
                i == (py - y) * width + (px - x),
                0 <= py - y < height,
                0 <= px - x < width,
        ;
        assert(0 <= i) by (nonlinear_arith)
            requires
                i == (py - y) * width + (px - x),
                0 <= py - y,
                0 <= px - x,
                width > 0,
        ;
    }
}

/// Every drawn logo cell shows a visible character and lies on the grid,
/// at the logo's position offset by the character's line and column.
pub proof fn lemma_logo_cell_at(
    x: int,
    y: int,
    width: int,
    r: int,
    c: int,
    ch: char,
    cols: int,
    rows: int,
    len: int,
)
    requires
        cols * rows <= usize::MAX,
    ensures
        logo_cell_at(x, y, width, r, c, ch, cols, rows, len) matches Some(cell) ==> cell.ch == ch
            && ch != ' ' && 0 <= x + c < cols && 0 <= y + r < rows && cell.grid == (y + r) * cols
            + (x + c),
        (ch != ' ' && 0 <= x + c < cols && 0 <= y + r < rows) ==> logo_cell_at(
            x,
            y,
            width,
            r,
            c,
            ch,
            cols,
            rows,
            len,
        ) is Some,
        ch == ' ' ==> logo_cell_at(x, y, width, r, c, ch, cols, rows, len) is None,
{
    if 0 <= x + c < cols && 0 <= y + r < rows {
        lemma_flat_index_bounded(x + c, y + r, cols, rows);
    }
}

} // verus!

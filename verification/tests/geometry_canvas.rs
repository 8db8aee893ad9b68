use saver_gnats::canvas::{
    blank, clear_grid, firefly_glyph, may_overwrite, paint, paint_glow, paint_points, Overwrite,
    TerminalCell,
};
use saver_gnats::geometry::{cell_index, field_center, spawn_area, HalfCell, MonitorCellBounds, Screen};

fn cell(ch: char) -> TerminalCell {
    TerminalCell { ch, fg: (10, 20, 30), bg: (0, 0, 0), bold: false }
}

#[test]
fn cell_index_inside_and_outside() {
    assert_eq!(cell_index(0, 0, 4, 3), Some(0));
    assert_eq!(cell_index(3, 2, 4, 3), Some(11));
    assert_eq!(cell_index(1, 1, 4, 3), Some(5));
    assert_eq!(cell_index(4, 0, 4, 3), None);
    assert_eq!(cell_index(0, 3, 4, 3), None);
    assert_eq!(cell_index(-1, 0, 4, 3), None);
    assert_eq!(cell_index(0, -1, 4, 3), None);
    assert_eq!(cell_index(0, 0, 0, 0), None);
}

#[test]
fn center_of_secondary_screen_is_half_the_grid() {
    let (x, y) = field_center(&Screen::Secondary, 81, 24);
    assert_eq!(x, HalfCell { cell: 40, half: true });
    assert_eq!(y, HalfCell { cell: 12, half: false });
}

#[test]
fn center_of_primary_screen_rounds_down() {
    let b = MonitorCellBounds { start_col: 10, end_col: 31, start_row: 2, end_row: 9, is_primary: true };
    assert_eq!(b.width(), 21);
    assert_eq!(b.height(), 7);
    let (x, y) = field_center(&Screen::Primary(b), 100, 40);
    assert_eq!(x, HalfCell { cell: 20, half: false });
    assert_eq!(y, HalfCell { cell: 5, half: false });
}

#[test]
fn spawn_area_by_screen() {
    let full = spawn_area(&Screen::Secondary, 80, 24);
    assert_eq!(full, MonitorCellBounds { start_col: 0, end_col: 80, start_row: 0, end_row: 24, is_primary: false });
    let b = MonitorCellBounds { start_col: 5, end_col: 50, start_row: 1, end_row: 20, is_primary: true };
    assert_eq!(spawn_area(&Screen::Primary(b), 80, 24), b);
}

#[test]
fn clear_grid_blanks_every_cell() {
    let mut grid = vec![cell('x'); 6];
    clear_grid(&mut grid);
    assert_eq!(grid.len(), 6);
    assert!(grid.iter().all(|c| *c == blank()));
    assert_eq!(blank(), TerminalCell { ch: ' ', fg: (0, 0, 0), bg: (0, 0, 0), bold: false });
}

#[test]
fn overwrite_rules() {
    assert!(may_overwrite(Overwrite::Any, 'x'));
    assert!(may_overwrite(Overwrite::Blank, ' '));
    assert!(!may_overwrite(Overwrite::Blank, '·'));
    assert!(may_overwrite(Overwrite::BlankOrDot, '·'));
    assert!(!may_overwrite(Overwrite::BlankOrDot, '─'));
    for ch in [' ', '·', '─', '│', '╱', '╲'] {
        assert!(may_overwrite(Overwrite::Spark, ch));
    }
    assert!(!may_overwrite(Overwrite::Spark, 'o'));
    assert!(!may_overwrite(Overwrite::Spark, '*'));
}

#[test]
fn paint_respects_bounds_and_rule() {
    let mut grid = vec![blank(); 12];
    assert!(paint(&mut grid, 4, 3, 1, 2, Overwrite::Blank, cell('a')));
    assert_eq!(grid[9], cell('a'));
    // The cell is taken now: a trail may not draw over it, a body may.
    assert!(!paint(&mut grid, 4, 3, 1, 2, Overwrite::Blank, cell('b')));
    assert_eq!(grid[9], cell('a'));
    assert!(paint(&mut grid, 4, 3, 1, 2, Overwrite::Any, cell('c')));
    assert_eq!(grid[9], cell('c'));
    assert!(!paint(&mut grid, 4, 3, 4, 0, Overwrite::Any, cell('d')));
    assert!(!paint(&mut grid, 4, 3, -1, 0, Overwrite::Any, cell('d')));
    assert_eq!(grid.iter().filter(|c| **c != blank()).count(), 1);
}

#[test]
fn paint_points_first_trail_point_keeps_its_cell() {
    let mut grid = vec![blank(); 9];
    let points = [(0, 0), (1, 1), (0, 0), (5, 5)];
    let cells = [cell('1'), cell('2'), cell('3'), cell('4')];
    paint_points(&mut grid, 3, 3, &points, &cells, Overwrite::Blank);
    assert_eq!(grid[0], cell('1'));
    assert_eq!(grid[4], cell('2'));
    assert_eq!(grid.iter().filter(|c| **c != blank()).count(), 2);
}

#[test]
fn paint_points_sparks_cover_connectors_not_bodies() {
    let mut grid = vec![blank(); 4];
    grid[0] = cell('─');
    grid[1] = cell('o');
    let points = [(0, 0), (1, 0)];
    let cells = [cell('*'), cell('*')];
    paint_points(&mut grid, 2, 2, &points, &cells, Overwrite::Spark);
    assert_eq!(grid[0], cell('*'));
    assert_eq!(grid[1], cell('o'));
}

#[test]
fn glow_touches_only_free_orthogonal_neighbours() {
    let mut grid = vec![blank(); 9];
    grid[1] = cell('o');
    grid[3] = cell('·');
    paint_glow(&mut grid, 3, 3, 1, 1, (7, 8, 9));
    let dot = TerminalCell { ch: '·', fg: (7, 8, 9), bg: (0, 0, 0), bold: false };
    assert_eq!(grid[1], cell('o'));
    assert_eq!(grid[3], dot);
    assert_eq!(grid[5], dot);
    assert_eq!(grid[7], dot);
    assert_eq!(grid[4], blank());
    assert_eq!(grid[0], blank());
    assert_eq!(grid[8], blank());
}

#[test]
fn glow_in_a_corner_stays_on_the_grid() {
    let mut grid = vec![blank(); 4];
    paint_glow(&mut grid, 2, 2, 0, 0, (1, 1, 1));
    assert_eq!(grid[0], blank());
    assert_eq!(grid[1].ch, '·');
    assert_eq!(grid[2].ch, '·');
    assert_eq!(grid[3], blank());
}

#[test]
fn firefly_glyphs_by_size() {
    assert_eq!(firefly_glyph(3), '✦');
    assert_eq!(firefly_glyph(2), 'o');
    assert_eq!(firefly_glyph(1), '+');
    assert_eq!(firefly_glyph(0), '·');
    assert_eq!(firefly_glyph(4), '·');
}

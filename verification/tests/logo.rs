use saver_gnats::logo::{excitation_index, excited_cells, logo_cells, LogoCell, LogoPlacement};

fn logo() -> LogoPlacement {
    LogoPlacement {
        x: 2,
        y: 1,
        width: 3,
        height: 2,
        lines: vec![vec!['a', ' ', 'b'], vec!['c', 'd']],
    }
}

#[test]
fn excitation_index_on_and_off_the_logo() {
    let l = logo();
    assert_eq!(excitation_index(2, 1, &l, 6), Some(0));
    assert_eq!(excitation_index(4, 2, &l, 6), Some(5));
    assert_eq!(excitation_index(3, 2, &l, 6), Some(4));
    assert_eq!(excitation_index(5, 1, &l, 6), None);
    assert_eq!(excitation_index(1, 1, &l, 6), None);
    assert_eq!(excitation_index(2, 3, &l, 6), None);
    assert_eq!(excitation_index(-2, -2, &l, 6), None);
}

#[test]
fn excitation_needs_a_matching_buffer() {
    let l = logo();
    assert_eq!(excitation_index(2, 1, &l, 5), None);
    assert_eq!(excitation_index(2, 1, &l, 0), None);
    let empty = LogoPlacement { x: 2, y: 1, width: 0, height: 2, lines: vec![] };
    assert_eq!(excitation_index(2, 1, &empty, 0), None);
}

#[test]
fn excited_cells_in_order_of_fireflies() {
    let l = logo();
    let lit = excited_cells(&[(4, 2), (0, 0), (2, 1), (4, 2)], &l, 6);
    assert_eq!(lit, vec![5, 0, 5]);
}

#[test]
fn logo_cells_skip_spaces_and_off_grid() {
    let l = logo();
    let cells = logo_cells(&l, 4, 3, 6);
    assert_eq!(
        cells,
        vec![
            LogoCell { grid: 6, excitation: Some(0), ch: 'a' },
            LogoCell { grid: 10, excitation: Some(3), ch: 'c' },
            LogoCell { grid: 11, excitation: Some(4), ch: 'd' },
        ]
    );
}

#[test]
fn logo_cells_without_buffer_entries() {
    let l = logo();
    let cells = logo_cells(&l, 10, 10, 4);
    assert_eq!(
        cells,
        vec![
            LogoCell { grid: 12, excitation: Some(0), ch: 'a' },
            LogoCell { grid: 14, excitation: Some(2), ch: 'b' },
            LogoCell { grid: 22, excitation: Some(3), ch: 'c' },
            LogoCell { grid: 23, excitation: None, ch: 'd' },
        ]
    );
    assert!(logo_cells(&l, 2, 10, 6).is_empty());
}

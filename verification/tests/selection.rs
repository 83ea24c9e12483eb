use terbulator::clipboard::Selection;
use terbulator::terminal::grid::{Cell, Grid};

fn grid_of(rows: &[&str], cols: usize) -> Grid {
    let mut grid = Grid::new(cols, rows.len(), 0);
    for (r, line) in rows.iter().enumerate() {
        for (c, ch) in line.chars().enumerate() {
            grid.set(c, r, Cell::new(ch));
        }
    }
    grid
}

fn selection(start: (usize, usize), end: (usize, usize)) -> Selection {
    Selection { start, end, active: true }
}

#[test]
fn selection_extract_over_three_rows() {
    let grid = grid_of(&["foo", "bar", "baz"], 3);
    let sel = selection((1, 0), (1, 2));
    assert_eq!(sel.get_text(&grid), "oo\nbar\nba");
}

#[test]
fn selection_extract_is_the_same_backwards() {
    let grid = grid_of(&["foo", "bar", "baz"], 3);
    let sel = selection((1, 2), (1, 0));
    assert_eq!(sel.get_text(&grid), "oo\nbar\nba");
    assert_eq!(sel.normalized_start(), (1, 0));
    assert_eq!(sel.normalized_end(), (1, 2));
}

#[test]
fn selection_on_one_row_keeps_trailing_spaces() {
    let grid = grid_of(&["ab  ", "cd  "], 4);
    assert_eq!(selection((1, 0), (3, 0)).get_text(&grid), "b  ");
    assert_eq!(selection((3, 1), (0, 1)).get_text(&grid), "cd  ");
    assert_eq!(selection((2, 0), (2, 0)).get_text(&grid), " ");
}

#[test]
fn inactive_selection_has_no_text_and_contains_nothing() {
    let grid = grid_of(&["foo"], 3);
    let sel = Selection { start: (0, 0), end: (2, 0), active: false };
    assert_eq!(sel.get_text(&grid), "");
    assert!(!sel.contains(1, 0));
}

#[test]
fn nul_cells_are_left_out() {
    let mut grid = grid_of(&["abc"], 3);
    grid.set(1, 0, Cell::new('\0'));
    assert_eq!(selection((0, 0), (2, 0)).get_text(&grid), "ac");
}

#[test]
fn selection_beyond_the_grid_is_cut() {
    let grid = grid_of(&["ab", "cd"], 2);
    assert_eq!(selection((1, 0), (9, 7)).get_text(&grid), "b\ncd\n");
    assert_eq!(selection((0, 5), (1, 6)).get_text(&grid), "");
    assert_eq!(selection((5, 0), (1, 1)).get_text(&grid), "\ncd");
    assert_eq!(selection((0, 1), (7, 1)).get_text(&grid), "cd");
}

#[test]
fn contains_matches_the_cells_of_the_text() {
    let grid = grid_of(&["abcd", "efgh", "ijkl", "mnop"], 4);
    let selections = vec![
        selection((1, 0), (2, 2)),
        selection((2, 2), (1, 0)),
        selection((3, 1), (0, 1)),
        selection((0, 0), (3, 3)),
        selection((2, 3), (2, 3)),
        selection((3, 0), (0, 1)),
    ];
    for sel in selections {
        let mut expected = String::new();
        for row in 0..4 {
            let mut any = false;
            for col in 0..4 {
                if sel.contains(col, row) {
                    expected.push(grid.get(col, row).unwrap().ch);
                    any = true;
                }
            }
            if any && row < sel.normalized_end().1 {
                expected.push('\n');
            }
        }
        assert_eq!(sel.get_text(&grid), expected);
    }
}

#[test]
fn contains_on_one_row_and_on_several() {
    let one = selection((1, 2), (3, 2));
    assert!(!one.contains(0, 2));
    assert!(one.contains(1, 2));
    assert!(one.contains(3, 2));
    assert!(!one.contains(4, 2));
    assert!(!one.contains(2, 1));
    let several = selection((3, 1), (1, 3));
    assert!(!several.contains(2, 1));
    assert!(several.contains(3, 1));
    assert!(several.contains(100, 1));
    assert!(several.contains(0, 2));
    assert!(several.contains(100, 2));
    assert!(several.contains(0, 3));
    assert!(several.contains(1, 3));
    assert!(!several.contains(2, 3));
    assert!(!several.contains(0, 0));
    assert!(!several.contains(0, 4));
}

#[test]
fn start_at_waits_for_a_drag() {
    let mut sel = Selection::new();
    assert_eq!(sel, Selection { start: (0, 0), end: (0, 0), active: false });
    assert_eq!(sel, Selection::default());
    sel.start_at(2, 3);
    assert_eq!(sel, Selection { start: (2, 3), end: (2, 3), active: false });
    sel.update_end(2, 3);
    assert!(!sel.active);
    sel.update_end(4, 3);
    assert_eq!(sel, Selection { start: (2, 3), end: (4, 3), active: true });
    sel.update_end(2, 3);
    assert_eq!(sel, Selection { start: (2, 3), end: (2, 3), active: true });
    sel.clear();
    assert_eq!(sel, Selection { start: (0, 0), end: (0, 0), active: false });
}

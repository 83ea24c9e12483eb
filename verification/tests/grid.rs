use terbulator::renderer::backend::Color;
use terbulator::terminal::grid::{Cell, CellAttributes, Grid};

fn row_text(grid: &Grid, row: usize) -> String {
    grid.get_row(row).unwrap().iter().map(|c| c.ch).collect()
}

fn fill(grid: &mut Grid, rows: &[&str]) {
    for (r, line) in rows.iter().enumerate() {
        for (c, ch) in line.chars().enumerate() {
            grid.set(c, r, Cell::new(ch));
        }
    }
}

#[test]
fn new_grid_is_blank_and_asks_for_a_full_redraw() {
    let grid = Grid::new(4, 3, 10);
    assert_eq!(grid.cols(), 4);
    assert_eq!(grid.rows(), 3);
    assert_eq!(grid.iter_rows().len(), 3);
    for row in grid.iter_rows() {
        assert_eq!(row.len(), 4);
        for cell in row {
            assert_eq!(cell, Cell::default());
        }
    }
    assert_eq!(grid.get(0, 0), Some(&Cell::default()));
    assert_eq!(grid.get(4, 0), None);
    assert_eq!(grid.get(0, 3), None);
    assert!(grid.needs_full_redraw());
    assert!(grid.dirty_cells().is_empty());
    assert!(grid.scrollback().is_empty());
}

#[test]
fn default_cell_is_a_space_white_on_black() {
    let cell = Cell::default();
    assert_eq!(cell.ch, ' ');
    assert_eq!(cell.fg, Color::rgb(255, 255, 255));
    assert_eq!(cell.bg, Color::rgb(0, 0, 0));
    assert_eq!(cell.attrs, CellAttributes::default());
    assert!(!cell.attrs.bold && !cell.attrs.italic && !cell.attrs.underline && !cell.attrs.inverse);
    let mut other = Cell::new('x');
    assert_eq!(other.ch, 'x');
    assert_eq!(other.fg, cell.fg);
    other.reset();
    assert_eq!(other, cell);
}

#[test]
fn set_marks_only_a_cell_that_changes() {
    let mut grid = Grid::new(4, 3, 10);
    grid.clear_dirty();
    assert!(!grid.needs_full_redraw());
    grid.set(1, 2, Cell::default());
    assert!(grid.dirty_cells().is_empty());
    assert!(!grid.is_dirty(1, 2));
    grid.set(1, 2, Cell::new('x'));
    assert!(grid.is_dirty(1, 2));
    assert_eq!(grid.dirty_cells().len(), 1);
    assert!(grid.dirty_cells().contains(&(2 * 4 + 1)));
    assert_eq!(grid.get(1, 2).unwrap().ch, 'x');
    grid.set(9, 9, Cell::new('y'));
    assert_eq!(grid.dirty_cells().len(), 1);
    grid.set(0, 0, Cell::new('z'));
    assert!(grid.is_dirty(1, 2));
    assert!(grid.is_dirty(0, 0));
    grid.clear_dirty();
    assert!(!grid.is_dirty(1, 2));
    assert!(grid.dirty_cells().is_empty());
}

#[test]
fn get_mut_changes_a_cell_without_marking_it() {
    let mut grid = Grid::new(2, 2, 0);
    grid.clear_dirty();
    *grid.get_mut(1, 1).unwrap() = Cell::new('q');
    assert_eq!(grid.get(1, 1), Some(&Cell::new('q')));
    assert_eq!(grid.get(0, 1), Some(&Cell::default()));
    assert!(grid.dirty_cells().is_empty());
    assert!(grid.get_mut(2, 0).is_none());
    assert!(grid.get_mut(0, 2).is_none());
}

#[test]
fn scroll_up_moves_top_rows_to_the_scrollback() {
    let mut grid = Grid::new(3, 4, 10);
    fill(&mut grid, &["abc", "def", "ghi", "jkl"]);
    grid.clear_dirty();
    grid.scroll_up(2);
    assert_eq!(row_text(&grid, 0), "ghi");
    assert_eq!(row_text(&grid, 1), "jkl");
    assert_eq!(row_text(&grid, 2), "   ");
    assert_eq!(row_text(&grid, 3), "   ");
    assert_eq!(grid.get_row(3).unwrap(), vec![Cell::default(); 3]);
    let history: Vec<String> =
        grid.scrollback().iter().map(|r| r.iter().map(|c| c.ch).collect()).collect();
    assert_eq!(history, vec!["abc".to_string(), "def".to_string()]);
    assert!(grid.needs_full_redraw());
    assert!(grid.dirty_cells().is_empty());
    assert_eq!(grid.iter_rows().len(), 4);
}

#[test]
fn scroll_up_by_nothing_or_too_much_does_nothing() {
    let mut grid = Grid::new(3, 2, 10);
    grid.clear_dirty();
    fill(&mut grid, &["abc", "def"]);
    grid.scroll_up(0);
    grid.scroll_up(2);
    grid.scroll_up(5);
    assert_eq!(row_text(&grid, 0), "abc");
    assert_eq!(row_text(&grid, 1), "def");
    assert!(grid.scrollback().is_empty());
    assert!(!grid.needs_full_redraw());
    assert_eq!(grid.dirty_cells().len(), 6);
    grid.scroll_down(0);
    grid.scroll_down(2);
    assert_eq!(row_text(&grid, 0), "abc");
}

#[test]
fn scrollback_drops_its_oldest_rows_at_the_cap() {
    let mut grid = Grid::new(1, 3, 2);
    fill(&mut grid, &["a", "b", "c"]);
    grid.scroll_up(1);
    fill(&mut grid, &["b", "c", "d"]);
    grid.scroll_up(2);
    let history: Vec<char> = grid.scrollback().iter().map(|r| r[0].ch).collect();
    assert_eq!(history, vec!['b', 'c']);
    assert!(grid.scrollback().len() <= 2);
}

#[test]
fn scrollback_cap_of_zero_keeps_nothing() {
    let mut grid = Grid::new(2, 3, 0);
    fill(&mut grid, &["ab", "cd", "ef"]);
    grid.scroll_up(1);
    assert!(grid.scrollback().is_empty());
    assert_eq!(row_text(&grid, 0), "cd");
    assert_eq!(row_text(&grid, 1), "ef");
    assert_eq!(row_text(&grid, 2), "  ");
}

#[test]
fn scroll_down_loses_the_bottom_rows() {
    let mut grid = Grid::new(3, 3, 10);
    fill(&mut grid, &["abc", "def", "ghi"]);
    grid.clear_dirty();
    grid.scroll_down(1);
    assert_eq!(row_text(&grid, 0), "   ");
    assert_eq!(row_text(&grid, 1), "abc");
    assert_eq!(row_text(&grid, 2), "def");
    assert!(grid.scrollback().is_empty());
    assert!(grid.needs_full_redraw());
    assert!(grid.dirty_cells().is_empty());
}

#[test]
fn clear_row_resets_and_marks_the_whole_row() {
    let mut grid = Grid::new(3, 2, 10);
    fill(&mut grid, &["abc", "def"]);
    grid.clear_dirty();
    grid.clear_row(1);
    assert_eq!(row_text(&grid, 0), "abc");
    assert_eq!(row_text(&grid, 1), "   ");
    assert!(grid.is_dirty(0, 1) && grid.is_dirty(1, 1) && grid.is_dirty(2, 1));
    assert!(!grid.is_dirty(0, 0));
    assert_eq!(grid.dirty_cells().len(), 3);
    assert!(!grid.needs_full_redraw());
    grid.clear_row(7);
    assert_eq!(grid.dirty_cells().len(), 3);
}

#[test]
fn clear_resets_every_cell() {
    let mut grid = Grid::new(3, 2, 10);
    fill(&mut grid, &["abc", "def"]);
    grid.clear_dirty();
    grid.clear();
    assert_eq!(row_text(&grid, 0), "   ");
    assert_eq!(row_text(&grid, 1), "   ");
    assert!(grid.needs_full_redraw());
    assert!(grid.dirty_cells().is_empty());
}

#[test]
fn resize_to_one_by_one() {
    let mut grid = Grid::new(3, 2, 10);
    fill(&mut grid, &["abc", "def"]);
    grid.clear_dirty();
    grid.resize(1, 1);
    assert_eq!(grid.cols(), 1);
    assert_eq!(grid.rows(), 1);
    assert_eq!(grid.iter_rows().len(), 1);
    assert_eq!(grid.iter_rows()[0].len(), 1);
    assert_eq!(grid.get(0, 0).unwrap().ch, 'a');
    assert_eq!(grid.get(1, 0), None);
    assert!(grid.needs_full_redraw());
    assert!(grid.dirty_cells().is_empty());
}

#[test]
fn resize_keeps_the_flat_buffer_and_fills_with_blanks() {
    let mut grid = Grid::new(2, 2, 10);
    fill(&mut grid, &["ab", "cd"]);
    grid.resize(3, 2);
    assert_eq!(row_text(&grid, 0), "abc");
    assert_eq!(row_text(&grid, 1), "d  ");
    assert_eq!(grid.iter_rows().iter().map(|r| r.len()).sum::<usize>(), 6);
    assert_eq!(grid.get_row(2), None);
}

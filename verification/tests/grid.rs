use alacritty_core::grid::{Grid, Scroll};
use alacritty_core::index::{Column, Line, Point};

fn at(line: i32, column: usize) -> Point {
    Point::new(Line(line), Column(column))
}

/// Scrolls the grid up by a line and writes `mark` at the start of the
/// first line of the viewport.
fn push_line(grid: &mut Grid<usize>, mark: usize) {
    grid.scroll_up(1);
    grid.set_cell(at(0, 0), mark);
}

#[test]
fn new_grid_is_blank() {
    let grid: Grid<usize> = Grid::new(24, 80, 1000);
    assert_eq!(grid.screen_lines(), 24);
    assert_eq!(grid.columns(), 80);
    assert_eq!(grid.history_size(), 0);
    assert_eq!(grid.total_lines(), 24);
    assert_eq!(grid.display_offset(), 0);
    assert_eq!(grid.cursor(), at(0, 0));
    assert_eq!(grid.topmost_line(), Line(0));
    assert_eq!(grid.bottommost_line(), Line(23));
    assert_eq!(*grid.cell(at(23, 79)), 0);
    assert!(grid.contains(at(23, 79)));
    assert!(!grid.contains(at(24, 0)));
    assert!(!grid.contains(at(0, 80)));
    assert!(!grid.contains(at(-1, 0)));
}

#[test]
fn push_lines_beyond_history_cap() {
    let mut grid: Grid<usize> = Grid::new(24, 80, 1000);
    for mark in 1..=1005 {
        push_line(&mut grid, mark);
    }
    // Exactly as many lines of scrollback as the cap allows.
    assert_eq!(grid.history_size(), 1000);
    assert_eq!(grid.total_lines(), 1024);
    assert_eq!(grid.topmost_line(), Line(-1000));
    // The viewport shows the line that came last.
    assert_eq!(*grid.cell(at(0, 0)), 1005);
    // The scrollback holds the thousand lines before it; the oldest lines
    // are gone.
    assert_eq!(*grid.cell(at(-1, 0)), 1004);
    assert_eq!(*grid.cell(at(-999, 0)), 6);
    assert_eq!(*grid.cell(at(-1000, 0)), 5);
    assert_eq!(grid.row(Line(-1000)).len(), 80);
}

#[test]
fn scroll_up_moves_lines_into_history() {
    let mut grid: Grid<usize> = Grid::new(3, 2, 10);
    grid.set_cell(at(0, 0), 1);
    grid.set_cell(at(1, 0), 2);
    grid.set_cell(at(2, 0), 3);
    grid.scroll_up(2);
    assert_eq!(grid.history_size(), 2);
    assert_eq!(*grid.cell(at(-2, 0)), 1);
    assert_eq!(*grid.cell(at(-1, 0)), 2);
    assert_eq!(*grid.cell(at(0, 0)), 3);
    assert_eq!(*grid.cell(at(1, 0)), 0);
    assert_eq!(*grid.cell(at(2, 0)), 0);
}

#[test]
fn scroll_up_without_history_drops_lines() {
    let mut grid: Grid<usize> = Grid::new(3, 1, 0);
    grid.set_cell(at(0, 0), 1);
    grid.set_cell(at(1, 0), 2);
    grid.set_cell(at(2, 0), 3);
    grid.scroll_up(1);
    assert_eq!(grid.history_size(), 0);
    assert_eq!(*grid.cell(at(0, 0)), 2);
    assert_eq!(*grid.cell(at(1, 0)), 3);
    assert_eq!(*grid.cell(at(2, 0)), 0);
}

#[test]
fn scrolled_back_viewport_stays_on_its_lines() {
    let mut grid: Grid<usize> = Grid::new(3, 1, 5);
    for mark in 1..=4 {
        push_line(&mut grid, mark);
    }
    grid.scroll_display(Scroll::Delta(2));
    assert_eq!(grid.display_offset(), 2);
    grid.scroll_up(1);
    assert_eq!(grid.display_offset(), 3);
    // At the cap the viewport cannot follow further.
    grid.scroll_up(1);
    grid.scroll_up(1);
    grid.scroll_up(1);
    assert_eq!(grid.history_size(), 5);
    assert_eq!(grid.display_offset(), 5);
}

#[test]
fn scroll_display_stays_within_the_history() {
    let mut grid: Grid<usize> = Grid::new(3, 1, 10);
    for mark in 1..=7 {
        push_line(&mut grid, mark);
    }
    assert_eq!(grid.history_size(), 7);
    grid.scroll_display(Scroll::PageUp);
    assert_eq!(grid.display_offset(), 3);
    grid.scroll_display(Scroll::Delta(100));
    assert_eq!(grid.display_offset(), 7);
    grid.scroll_display(Scroll::PageDown);
    assert_eq!(grid.display_offset(), 4);
    grid.scroll_display(Scroll::Delta(-100));
    assert_eq!(grid.display_offset(), 0);
    grid.scroll_display(Scroll::Top);
    assert_eq!(grid.display_offset(), 7);
    grid.scroll_display(Scroll::Bottom);
    assert_eq!(grid.display_offset(), 0);
}

#[test]
fn scroll_to_point_shows_the_line() {
    let mut grid: Grid<usize> = Grid::new(3, 1, 10);
    for mark in 1..=7 {
        push_line(&mut grid, mark);
    }
    grid.scroll_to_point(at(-5, 0));
    assert_eq!(grid.display_offset(), 5);
    // A line that is shown moves nothing.
    grid.scroll_to_point(at(-4, 0));
    assert_eq!(grid.display_offset(), 5);
    grid.scroll_to_point(at(2, 0));
    assert_eq!(grid.display_offset(), 0);
}

#[test]
fn growing_the_viewport_takes_lines_from_the_history() {
    let mut grid: Grid<usize> = Grid::new(2, 1, 10);
    for mark in 1..=3 {
        push_line(&mut grid, mark);
    }
    // History 1, 2 above the viewport 3, blank.
    grid.set_cursor(at(1, 0));
    grid.scroll_display(Scroll::Delta(2));
    grid.resize(3, 1);
    assert_eq!(grid.screen_lines(), 3);
    assert_eq!(grid.history_size(), 2);
    assert_eq!(*grid.cell(at(0, 0)), 2);
    assert_eq!(*grid.cell(at(1, 0)), 3);
    assert_eq!(*grid.cell(at(-1, 0)), 1);
    assert_eq!(grid.cursor(), at(2, 0));
    assert_eq!(grid.display_offset(), 1);
}

#[test]
fn growing_beyond_the_history_adds_blank_lines_at_the_top() {
    let mut grid: Grid<usize> = Grid::new(2, 1, 10);
    push_line(&mut grid, 1);
    push_line(&mut grid, 2);
    // History 1 above the viewport 2, blank.
    grid.resize(5, 1);
    assert_eq!(grid.screen_lines(), 5);
    assert_eq!(grid.history_size(), 0);
    assert_eq!(grid.total_lines(), 5);
    assert_eq!(*grid.cell(at(0, 0)), 0);
    assert_eq!(*grid.cell(at(1, 0)), 0);
    assert_eq!(*grid.cell(at(2, 0)), 1);
    assert_eq!(*grid.cell(at(3, 0)), 2);
    assert_eq!(*grid.cell(at(4, 0)), 0);
    assert_eq!(grid.cursor(), at(3, 0));
}

#[test]
fn shrinking_the_viewport_moves_lines_into_the_history() {
    let mut grid: Grid<usize> = Grid::new(4, 1, 2);
    for line in 0..4 {
        grid.set_cell(at(line, 0), line as usize + 1);
    }
    grid.set_cursor(at(3, 0));
    grid.resize(3, 1);
    assert_eq!(grid.screen_lines(), 3);
    assert_eq!(grid.history_size(), 1);
    assert_eq!(*grid.cell(at(-1, 0)), 1);
    assert_eq!(*grid.cell(at(0, 0)), 2);
    assert_eq!(grid.cursor(), at(2, 0));
    // Beyond the cap the oldest lines are dropped.
    grid.resize(1, 1);
    assert_eq!(grid.history_size(), 2);
    assert_eq!(grid.total_lines(), 3);
    assert_eq!(*grid.cell(at(0, 0)), 4);
    assert_eq!(*grid.cell(at(-1, 0)), 3);
    assert_eq!(*grid.cell(at(-2, 0)), 2);
    assert_eq!(grid.cursor(), at(0, 0));
}

#[test]
fn changing_the_columns_cuts_and_fills_rows() {
    let mut grid: Grid<usize> = Grid::new(2, 3, 5);
    for column in 0..3 {
        grid.set_cell(at(0, column), column + 1);
    }
    grid.set_cursor(at(1, 2));
    grid.scroll_up(1);
    grid.resize(2, 2);
    assert_eq!(grid.columns(), 2);
    assert_eq!(grid.row(Line(-1)).len(), 2);
    assert_eq!(*grid.cell(at(-1, 0)), 1);
    assert_eq!(*grid.cell(at(-1, 1)), 2);
    assert_eq!(grid.cursor(), at(1, 1));
    grid.resize(2, 4);
    assert_eq!(grid.row(Line(-1)).len(), 4);
    assert_eq!(*grid.cell(at(-1, 1)), 2);
    assert_eq!(*grid.cell(at(-1, 2)), 0);
    assert_eq!(*grid.cell(at(-1, 3)), 0);
    assert_eq!(grid.cursor(), at(1, 1));
    assert_eq!(grid.history_size(), 1);
}

#[test]
fn points_step_through_the_grid() {
    let mut grid: Grid<usize> = Grid::new(2, 2, 5);
    grid.scroll_up(1);
    assert_eq!(grid.next_point(at(-1, 0)), Some(at(-1, 1)));
    assert_eq!(grid.next_point(at(-1, 1)), Some(at(0, 0)));
    assert_eq!(grid.next_point(at(1, 1)), None);
    assert_eq!(grid.prev_point(at(0, 0)), Some(at(-1, 1)));
    assert_eq!(grid.prev_point(at(-1, 0)), None);
    assert_eq!(grid.prev_point(at(1, 1)), Some(at(1, 0)));
}

#[test]
fn scroll_up_by_more_than_the_viewport_clears_it() {
    let mut grid: Grid<usize> = Grid::new(2, 1, 10);
    grid.set_cell(at(0, 0), 1);
    grid.set_cell(at(1, 0), 2);
    grid.scroll_up(5);
    assert_eq!(grid.history_size(), 2);
    assert_eq!(*grid.cell(at(-2, 0)), 1);
    assert_eq!(*grid.cell(at(-1, 0)), 2);
    assert_eq!(*grid.cell(at(0, 0)), 0);
    assert_eq!(*grid.cell(at(1, 0)), 0);
    grid.scroll_up(0);
    assert_eq!(grid.history_size(), 2);
}

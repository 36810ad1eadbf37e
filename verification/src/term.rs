//! The terminal: its grid, its mode and the colors that its program has set.

use vstd::prelude::*;

use crate::cell::{Cell, WIDE_CHAR, WRAPLINE};
use crate::color::{Rgb, COUNT};
use crate::grid::{Grid, GridView};
use crate::row::Blank;
use crate::index::{Column, Line, Point};
use crate::storage::MAX_CACHE_SIZE;

verus! {

/// The mathematical model of a [`Term`].
pub struct TermView {
    pub grid: GridView<Cell>,
    /// Whether the terminal is in vi mode.
    pub vi_mode: bool,
    /// The colors that the terminal's program has set, by palette slot.
    pub colors: Seq<Option<Rgb>>,
    /// Whether the cursor stands on the last column after a character was
    /// written there, so that the next character begins a new row.
    pub input_needs_wrap: bool,
}

impl TermView {
    /// What holds of every terminal: what holds of its grid, and a color
    /// or none for every slot of the palette.
    pub open spec fn wf(self) -> bool {
        self.grid.wf() && self.colors.len() == COUNT
    }

    /// Whether the row of `line` goes on in the next row.
    pub open spec fn wraps(self, line: int) -> bool {
        self.grid.row(line)@[self.grid.columns - 1].flags.has(WRAPLINE)
    }

    /// The cell at `p` after the grid `self.grid` was given `columns`
    /// columns: the cell that was there, or a blank cell in a new column;
    /// the mark that the row goes on in the next row has moved from the
    /// last column that was to the last column that is; a wide character
    /// whose spacer was cut off is cleared.
    pub open spec fn rewrapped_cell(self, columns: nat, p: Point) -> Cell {
        let base = if p.column.0 < self.grid.columns {
            self.grid.cell(p)
        } else {
            Cell::spec_blank()
        };
        if p.column.0 == columns - 1 {
            (if base.flags.has(WIDE_CHAR) {
                base.cleared_wide()
            } else {
                base
            }).with_wrap(self.wraps(p.line.0 as int))
        } else if p.column.0 == self.grid.columns - 1 {
            base.with_wrap(false)
        } else {
            base
        }
    }

    /// Whether `post` is this terminal with `columns` columns: every row is
    /// cut or filled with blank cells and keeps its mark of going on in the
    /// next row, and the cursor is held within the columns.
    pub open spec fn columns_changed_to(self, post: TermView, columns: nat) -> bool {
        if columns == self.grid.columns {
            post == self
        } else {
            &&& post.vi_mode == self.vi_mode
            &&& post.colors == self.colors
            &&& post.input_needs_wrap == self.input_needs_wrap
            &&& post.grid.columns == columns
            &&& post.grid.max_scroll_limit == self.grid.max_scroll_limit
            &&& post.grid.screen_lines() == self.grid.screen_lines()
            &&& post.grid.storage.len == self.grid.storage.len
            &&& post.grid.display_offset == self.grid.display_offset
            &&& post.grid.cursor == (Point {
                line: self.grid.cursor.line,
                column: Column(
                    if self.grid.cursor.column.0 < columns {
                        self.grid.cursor.column.0
                    } else {
                        (columns - 1) as usize
                    },
                ),
            })
            &&& forall|p: Point| #[trigger]
                post.grid.has_point(p) ==> post.grid.cell(p) == self.rewrapped_cell(columns, p)
        }
    }

    /// Whether `post` is this terminal with `lines` lines on the viewport
    /// and `columns` columns.
    pub open spec fn resized_to(self, post: TermView, lines: nat, columns: nat) -> bool {
        exists|mid: GridView<Cell>| #[trigger]
            self.grid.lines_resized_to(mid, lines) && (TermView {
                grid: mid,
                ..self
            }).columns_changed_to(post, columns)
    }

    /// A row goes on in the next row after the columns have changed if and
    /// only if it did before.
    pub proof fn law_resize_keeps_wraps(self, post: TermView, columns: nat, line: int)
        requires
            self.wf(),
            1 <= columns <= usize::MAX,
            self.columns_changed_to(post, columns),
            self.grid.has_line(line),
        ensures
            post.wraps(line) == self.wraps(line),
    {
        if columns != self.grid.columns {
            let last = Point { line: Line(line as i32), column: Column((columns - 1) as usize) };
            assert(post.grid.has_point(last));
            assert(post.grid.cell(last) == self.rewrapped_cell(columns, last));
            let base = if last.column.0 < self.grid.columns {
                self.grid.cell(last)
            } else {
                Cell::spec_blank()
            };
            let bits = base.flags.bits;
            assert((bits | 0x10u16) & 0x10u16 == 0x10u16) by (bit_vector);
            assert((bits & !0x10u16) & 0x10u16 != 0x10u16) by (bit_vector);
            assert(((bits & !0x20u16) | 0x10u16) & 0x10u16 == 0x10u16) by (bit_vector);
            assert(((bits & !0x20u16) & !0x10u16) & 0x10u16 != 0x10u16) by (bit_vector);
        }
    }

    /// Whether every wide character has its spacer to its right.
    pub open spec fn wide_spaced(self) -> bool {
        forall|p: Point| #[trigger]
            self.grid.has_point(p) && self.grid.cell(p).flags.has(WIDE_CHAR) ==> p.column.0 + 1
                < self.grid.columns && ({
                let right = self.grid.cell(
                    Point { line: p.line, column: Column((p.column.0 + 1) as usize) },
                );
                right.flags.has(crate::cell::WIDE_CHAR_SPACER) && right.c == ' '
            })
    }

    /// After the columns have changed, every wide character has its
    /// spacer if it had before.
    pub proof fn law_resize_keeps_spacing(self, post: TermView, columns: nat)
        requires
            self.wf(),
            1 <= columns <= usize::MAX,
            self.columns_changed_to(post, columns),
            self.wide_spaced(),
        ensures
            post.wide_spaced(),
    {
        if columns != self.grid.columns {
            assert forall|p: Point| #[trigger]
                post.grid.has_point(p) && post.grid.cell(p).flags.has(WIDE_CHAR) implies p.column.0
                + 1 < post.grid.columns && ({
                let right = post.grid.cell(
                    Point { line: p.line, column: Column((p.column.0 + 1) as usize) },
                );
                right.flags.has(crate::cell::WIDE_CHAR_SPACER) && right.c == ' '
            }) by {
                let r = Point { line: p.line, column: Column((p.column.0 + 1) as usize) };
                assert(post.grid.cell(p) == self.rewrapped_cell(columns, p));
                let bits = if p.column.0 < self.grid.columns {
                    self.grid.cell(p).flags.bits
                } else {
                    0u16
                };
                assert((bits | 0x10u16) & 0x20u16 == bits & 0x20u16) by (bit_vector);
                assert((bits & !0x10u16) & 0x20u16 == bits & 0x20u16) by (bit_vector);
                assert(((bits & !0x20u16) | 0x10u16) & 0x20u16 != 0x20u16) by (bit_vector);
                assert(((bits & !0x20u16) & !0x10u16) & 0x20u16 != 0x20u16) by (bit_vector);
                assert(0u16 & 0x20u16 != 0x20u16) by (bit_vector);
                assert(p.column.0 < self.grid.columns);
                assert(self.grid.has_point(p));
                assert(self.grid.cell(p).flags.has(WIDE_CHAR));
                assert(p.column.0 + 1 < columns);
                assert(self.grid.has_point(r));
                assert(post.grid.has_point(r));
                assert(post.grid.cell(r) == self.rewrapped_cell(columns, r));
                let rbits = self.grid.cell(r).flags.bits;
                assert((rbits | 0x10u16) & 0x40u16 == rbits & 0x40u16) by (bit_vector);
                assert((rbits & !0x10u16) & 0x40u16 == rbits & 0x40u16) by (bit_vector);
                assert(((rbits & !0x20u16) | 0x10u16) & 0x40u16 == rbits & 0x40u16) by (bit_vector);
                assert(((rbits & !0x20u16) & !0x10u16) & 0x40u16 == rbits & 0x40u16)
                    by (bit_vector);
            }
        }
    }

    /// After the number of lines has changed, every wide character has its
    /// spacer if it had before.
    pub proof fn law_lines_resize_keeps_spacing(self, mid: GridView<Cell>, lines: nat)
        requires
            self.wf(),
            mid.wf(),
            self.grid.lines_resized_to(mid, lines),
            self.wide_spaced(),
        ensures
            (TermView { grid: mid, ..self }).wide_spaced(),
    {
        let post = TermView { grid: mid, ..self };
        let delta = lines - self.grid.screen_lines();
        assert(0u16 & 0x20u16 != 0x20u16) by (bit_vector);
        assert forall|p: Point| #[trigger]
            post.grid.has_point(p) && post.grid.cell(p).flags.has(WIDE_CHAR) implies p.column.0 + 1
            < post.grid.columns && ({
            let right = post.grid.cell(
                Point { line: p.line, column: Column((p.column.0 + 1) as usize) },
            );
            right.flags.has(crate::cell::WIDE_CHAR_SPACER) && right.c == ' '
        }) by {
            if lines != self.grid.screen_lines() {
                let offset = mid.storage.offset_of(p.line.0 as int);
                if offset < self.grid.storage.len {
                    assert(mid.storage.ring[offset] == self.grid.storage.ring[offset]);
                    let before = Point { line: Line((p.line.0 - delta) as i32), column: p.column };
                    assert(self.grid.storage.offset_of(before.line.0 as int) == offset);
                    assert(self.grid.has_point(before));
                    assert(self.grid.cell(before) == post.grid.cell(p));
                    let r = Point { line: before.line, column: Column((p.column.0 + 1) as usize) };
                    assert(self.grid.has_point(r));
                } else {
                    assert(mid.storage.ring[offset].is_blank(self.grid.columns));
                    assert(post.grid.cell(p) == Cell::spec_blank());
                }
            }
        }
    }

    /// The first row of the wrapped line that holds `line`.
    pub open spec fn wrapped_line_start(self, line: int) -> int
        decreases line - self.grid.topmost_line(),
    {
        if line > self.grid.topmost_line() && self.wraps(line - 1) {
            self.wrapped_line_start(line - 1)
        } else {
            line
        }
    }

    /// The last row of the wrapped line that holds `line`.
    pub open spec fn wrapped_line_end(self, line: int) -> int
        decreases self.grid.bottommost_line() - line,
    {
        if line < self.grid.bottommost_line() && self.wraps(line) {
            self.wrapped_line_end(line + 1)
        } else {
            line
        }
    }
}

/// The size of the window, as the windowing system reports it: lines and
/// columns of the terminal, and width and height of a cell in pixels.
#[derive(Debug, Clone, Copy, PartialEq, Eq, Structural)]
pub struct WindowSize {
    pub num_lines: u16,
    pub num_cols: u16,
    pub cell_width: u16,
    pub cell_height: u16,
}

/// Fewest columns of a terminal.
pub const MIN_COLUMNS: usize = 2;

/// Fewest lines on the viewport of a terminal.
pub const MIN_SCREEN_LINES: usize = 1;

impl WindowSize {
    /// Lines of a terminal in a window of this size.
    pub open spec fn spec_screen_lines(self) -> usize {
        if self.num_lines as usize >= MIN_SCREEN_LINES {
            self.num_lines as usize
        } else {
            MIN_SCREEN_LINES
        }
    }

    /// Columns of a terminal in a window of this size.
    pub open spec fn spec_columns(self) -> usize {
        if self.num_cols as usize >= MIN_COLUMNS {
            self.num_cols as usize
        } else {
            MIN_COLUMNS
        }
    }
}

/// A terminal.
#[derive(Debug)]
pub struct Term {
    grid: Grid<Cell>,
    vi_mode: bool,
    colors: Vec<Option<Rgb>>,
    input_needs_wrap: bool,
}

impl View for Term {
    type V = TermView;

    closed spec fn view(&self) -> TermView {
        TermView {
            grid: self.grid@,
            vi_mode: self.vi_mode,
            colors: self.colors@,
            input_needs_wrap: self.input_needs_wrap,
        }
    }
}

impl Term {
    /// The invariant of the representation.
    pub closed spec fn wf(&self) -> bool {
        self.grid.wf() && self.colors@.len() == COUNT
    }

    /// The invariant of the representation gives what holds of every
    /// terminal.
    pub proof fn lemma_wf(&self)
        requires
            self.wf(),
        ensures
            self@.wf(),
    {
        self.grid.lemma_wf();
    }

    /// Whether a terminal can have `lines` lines on its viewport, `columns`
    /// columns and a scrollback of `max_scroll_limit` lines: it has a line
    /// and a column, and its lines can be counted.
    pub open spec fn spec_can_hold(lines: usize, columns: usize, max_scroll_limit: usize) -> bool {
        1 <= lines && 1 <= columns && max_scroll_limit + 3 * lines + 2 * MAX_CACHE_SIZE
            <= i32::MAX
    }

    /// Whether a terminal can have `lines` lines on its viewport, `columns`
    /// columns and a scrollback of `max_scroll_limit` lines.
    pub fn can_hold(lines: usize, columns: usize, max_scroll_limit: usize) -> (r: bool)
        ensures
            r == Self::spec_can_hold(lines, columns, max_scroll_limit),
    {
        1 <= lines && 1 <= columns && lines <= 0x2aaa_aaaa && max_scroll_limit <= 0x7fff_ffff
            && max_scroll_limit as u64 + 3 * (lines as u64) + 2 * (MAX_CACHE_SIZE as u64)
            <= i32::MAX as u64
    }

    /// Creates a terminal of blank cells, with an empty scrollback that can
    /// grow to `max_scroll_limit` lines, outside vi mode, with no color set.
    pub fn new(lines: usize, columns: usize, max_scroll_limit: usize) -> (term: Term)
        requires
            1 <= lines,
            1 <= columns,
            max_scroll_limit + 3 * lines + 2 * MAX_CACHE_SIZE <= i32::MAX,
        ensures
            term.wf(),
            term@.grid.screen_lines() == lines,
            term@.grid.columns == columns,
            term@.grid.max_scroll_limit == max_scroll_limit,
            term@.grid.history_size() == 0,
            term@.grid.display_offset == 0,
            !term@.vi_mode,
            !term@.input_needs_wrap,
            forall|i: int| 0 <= i < COUNT ==> (#[trigger] term@.colors[i]) is None,
    {
        let grid: Grid<Cell> = Grid::new(lines, columns, max_scroll_limit);
        let mut colors: Vec<Option<Rgb>> = Vec::with_capacity(COUNT);
        while colors.len() < COUNT
            invariant
                colors@.len() <= COUNT,
                forall|i: int| 0 <= i < colors@.len() ==> (#[trigger] colors@[i]) is None,
            decreases COUNT - colors@.len(),
        {
            colors.push(None);
        }
        proof {
            grid.lemma_wf();
        }
        Term { grid, vi_mode: false, colors, input_needs_wrap: false }
    }

    /// The grid.
    pub fn grid(&self) -> (grid: &Grid<Cell>)
        requires
            self.wf(),
        ensures
            grid.wf(),
            grid@ == self@.grid,
    {
        &self.grid
    }

    /// The grid, to change it.
    pub fn grid_mut(&mut self) -> (grid: &mut Grid<Cell>)
        requires
            old(self).wf(),
        ensures
            grid.wf(),
            grid@ == old(self)@.grid,
            final(grid).wf() ==> final(self).wf(),
            final(self)@ == (TermView { grid: final(grid)@, ..old(self)@ }),
    {
        &mut self.grid
    }

    /// Whether the next character begins a new row.
    pub fn input_needs_wrap(&self) -> (on: bool)
        ensures
            on == self@.input_needs_wrap,
    {
        self.input_needs_wrap
    }

    /// Sets whether the next character begins a new row.
    pub fn set_input_needs_wrap(&mut self, on: bool)
        requires
            old(self).wf(),
        ensures
            final(self).wf(),
            final(self)@ == (TermView { input_needs_wrap: on, ..old(self)@ }),
    {
        self.input_needs_wrap = on;
    }

    /// Whether the terminal is in vi mode.
    pub fn vi_mode(&self) -> (on: bool)
        ensures
            on == self@.vi_mode,
    {
        self.vi_mode
    }

    /// Enters or leaves vi mode.
    pub fn set_vi_mode(&mut self, on: bool)
        requires
            old(self).wf(),
        ensures
            final(self).wf(),
            final(self)@ == (TermView { vi_mode: on, ..old(self)@ }),
    {
        self.vi_mode = on;
    }

    /// The color that the terminal's program has set for slot `index`.
    pub fn color(&self, index: usize) -> (color: Option<Rgb>)
        requires
            self.wf(),
            index < COUNT,
        ensures
            color == self@.colors[index as int],
    {
        self.colors[index]
    }

    /// Sets or clears the color of slot `index`.
    pub fn set_color(&mut self, index: usize, color: Option<Rgb>)
        requires
            old(self).wf(),
            index < COUNT,
        ensures
            final(self).wf(),
            final(self)@ == (TermView {
                colors: old(self)@.colors.update(index as int, color),
                ..old(self)@
            }),
    {
        self.colors[index] = color;
    }

    /// The last line of the viewport.
    pub fn bottommost_line(&self) -> (line: Line)
        requires
            self.wf(),
        ensures
            line.0 == self@.grid.bottommost_line(),
    {
        self.grid.bottommost_line()
    }

    /// The oldest line.
    pub fn topmost_line(&self) -> (line: Line)
        requires
            self.wf(),
        ensures
            line.0 == self@.grid.topmost_line(),
    {
        self.grid.topmost_line()
    }

    /// The last column.
    pub fn last_column(&self) -> (column: Column)
        requires
            self.wf(),
        ensures
            column.0 == self@.grid.columns - 1,
    {
        proof {
            self.lemma_wf();
        }
        Column(self.grid.columns() - 1)
    }

    /// Whether the row of `line` goes on in the next row.
    pub fn wraps(&self, line: Line) -> (r: bool)
        requires
            self.wf(),
            self@.grid.has_line(line.0 as int),
        ensures
            r == self@.wraps(line.0 as int),
    {
        proof {
            self.lemma_wf();
        }
        let last: usize = self.grid.columns() - 1;
        self.grid.cell(Point { line, column: Column(last) }).flags.contains(WRAPLINE)
    }

    /// The first cell of the wrapped line that holds `point`.
    pub fn line_search_left(&self, point: Point) -> (start: Point)
        requires
            self.wf(),
            self@.grid.has_line(point.line.0 as int),
        ensures
            start.line.0 == self@.wrapped_line_start(point.line.0 as int),
            start.column.0 == 0,
            self@.grid.has_point(start),
            start.line.0 <= point.line.0,
    {
        proof {
            self.lemma_wf();
        }
        let top: i32 = self.grid.topmost_line().0;
        let mut line: i32 = point.line.0;
        while line > top && self.wraps(Line(line - 1))
            invariant
                self.wf(),
                top == self@.grid.topmost_line(),
                top <= line <= point.line.0,
                self@.grid.has_line(point.line.0 as int),
                self@.wrapped_line_start(point.line.0 as int) == self@.wrapped_line_start(
                    line as int,
                ),
            decreases line - top,
        {
            line -= 1;
        }
        Point { line: Line(line), column: Column(0) }
    }

    /// The last cell of the wrapped line that holds `point`.
    pub fn line_search_right(&self, point: Point) -> (end: Point)
        requires
            self.wf(),
            self@.grid.has_line(point.line.0 as int),
        ensures
            end.line.0 == self@.wrapped_line_end(point.line.0 as int),
            end.column.0 == self@.grid.columns - 1,
            self@.grid.has_point(end),
            end.line.0 >= point.line.0,
    {
        proof {
            self.lemma_wf();
        }
        let bottom: i32 = self.grid.bottommost_line().0;
        let mut line: i32 = point.line.0;
        while line < bottom && self.wraps(Line(line))
            invariant
                self.wf(),
                bottom == self@.grid.bottommost_line(),
                point.line.0 <= line <= bottom,
                self@.grid.has_line(point.line.0 as int),
                self@.wrapped_line_end(point.line.0 as int) == self@.wrapped_line_end(line as int),
            decreases bottom - line,
        {
            line += 1;
        }
        Point { line: Line(line), column: self.last_column() }
    }

    /// Moves the viewport, by as little as may be, so that it shows the line
    /// of `point`.
    pub fn scroll_to_point(&mut self, point: Point)
        requires
            old(self).wf(),
            old(self)@.grid.has_line(point.line.0 as int),
        ensures
            final(self).wf(),
            final(self)@ == (TermView {
                grid: GridView {
                    display_offset: old(self)@.grid.offset_showing(point.line.0 as int),
                    ..old(self)@.grid
                },
                ..old(self)@
            }),
            final(self)@.grid.shows_line(point.line.0 as int),
    {
        self.grid.scroll_to_point(point);
        proof {
            self.grid.lemma_wf();
        }
    }

    /// Gives every row `columns` cells and moves each row's mark of going
    /// on in the next row to its new last cell.
    fn resize_columns(&mut self, columns: usize)
        requires
            old(self).wf(),
            1 <= columns,
            columns != old(self)@.grid.columns,
        ensures
            final(self).wf(),
            old(self)@.columns_changed_to(final(self)@, columns as nat),
    {
        proof {
            self.lemma_wf();
        }
        let ghost pre = self@;
        let old_columns: usize = self.grid.columns();
        let top: i32 = self.grid.topmost_line().0;
        let bottom: i32 = self.grid.bottommost_line().0;
        let mut wrapped: Vec<bool> = Vec::new();
        let mut line: i32 = top;
        while line <= bottom
            invariant
                self.wf(),
                bottom < i32::MAX,
                self@ == pre,
                top == pre.grid.topmost_line(),
                bottom == pre.grid.bottommost_line(),
                top <= line <= bottom + 1,
                wrapped@.len() == line - top,
                forall|k: int| 0 <= k < line - top ==> #[trigger] wrapped@[k] == pre.wraps(top + k),
            decreases bottom + 1 - line,
        {
            wrapped.push(self.wraps(Line(line)));
            line += 1;
        }
        self.grid.resize_columns(columns);
        proof {
            self.grid.lemma_wf();
        }
        let ghost cut = self.grid@;
        proof {
            assert forall|p: Point| #[trigger] cut.has_point(p) implies cut.cell(p) == if p.column.0
                < pre.grid.columns {
                pre.grid.cell(p)
            } else {
                Cell::spec_blank()
            } by {
                let j = pre.grid.storage.offset_of(p.line.0 as int);
                assert(pre.grid.storage.ring[j].resized_to(cut.storage.ring[j], columns as nat));
                assert(pre.grid.storage.ring[j]@.len() == pre.grid.columns);
            }
        }
        let mut line: i32 = top;
        while line <= bottom
            invariant
                self.grid.wf(),
                self.colors@ == old(self).colors@,
                self.vi_mode == old(self).vi_mode,
                self.input_needs_wrap == old(self).input_needs_wrap,
                self.colors@.len() == COUNT,
                pre == old(self)@,
                pre.wf(),
                old_columns == pre.grid.columns,
                columns != old_columns,
                1 <= columns,
                top == pre.grid.topmost_line(),
                bottom == pre.grid.bottommost_line(),
                top <= line <= bottom + 1,
                wrapped@.len() == bottom + 1 - top,
                forall|k: int|
                    0 <= k < bottom + 1 - top ==> #[trigger] wrapped@[k] == pre.wraps(top + k),
                self.grid@.columns == columns,
                self.grid@.max_scroll_limit == cut.max_scroll_limit,
                self.grid@.display_offset == cut.display_offset,
                self.grid@.cursor == cut.cursor,
                self.grid@.storage.len == cut.storage.len,
                self.grid@.storage.visible_lines == cut.storage.visible_lines,
                pre.grid.resized_columns_to(cut, columns as nat),
                forall|p: Point| #[trigger]
                    cut.has_point(p) ==> cut.cell(p) == if p.column.0 < pre.grid.columns {
                        pre.grid.cell(p)
                    } else {
                        Cell::spec_blank()
                    },
                forall|p: Point| #[trigger]
                    cut.has_point(p) && p.line.0 < line ==> self.grid@.cell(p)
                        == pre.rewrapped_cell(columns as nat, p),
                forall|p: Point| #[trigger]
                    cut.has_point(p) && p.line.0 >= line ==> self.grid@.cell(p) == cut.cell(p),
            decreases bottom + 1 - line,
        {
            let ghost before = self.grid@;
            if old_columns < columns {
                let cell = self.grid.cell_mut(Point { line: Line(line), column: Column(old_columns - 1) });
                cell.set_wrap(false);
            }
            let ghost between = self.grid@;
            let on: bool = wrapped[(line - top) as usize];
            let cell = self.grid.cell_mut(Point { line: Line(line), column: Column(columns - 1) });
            if cell.flags.contains(WIDE_CHAR) {
                cell.c = ' ';
                cell.flags.remove(WIDE_CHAR);
                cell.extra = None;
            }
            cell.set_wrap(on);
            proof {
                assert forall|p: Point| #[trigger] cut.has_point(p) && p.line.0 < line + 1 implies self.grid@.cell(
                    p,
                ) == pre.rewrapped_cell(columns as nat, p) by {
                    let last = Point { line: Line(line), column: Column((columns - 1) as usize) };
                    let old_last = Point {
                        line: Line(line),
                        column: Column((old_columns - 1) as usize),
                    };
                    if p.line.0 < line {
                        assert(before.cell(p) == pre.rewrapped_cell(columns as nat, p));
                        assert(p != last && p != old_last);
                        assert(between.cell(p) == before.cell(p));
                    } else {
                        assert(before.cell(p) == cut.cell(p));
                        if p == last {
                        } else if p == old_last {
                        } else {
                            assert(between.cell(p) == before.cell(p));
                        }
                    }
                }
                assert forall|p: Point| #[trigger] cut.has_point(p) && p.line.0 >= line + 1 implies self.grid@.cell(
                    p,
                ) == cut.cell(p) by {
                    assert(between.cell(p) == before.cell(p));
                }
            }
            line += 1;
        }
        proof {
            let post = self@;
            assert forall|p: Point| #[trigger] post.grid.has_point(p) implies post.grid.cell(p)
                == pre.rewrapped_cell(columns as nat, p) by {
                assert(cut.has_point(p));
            }
        }
    }

    /// Gives the terminal `lines` lines on the viewport and `columns`
    /// columns. Lines are not broken anew; every row keeps its mark of
    /// going on in the next row.
    pub fn resize(&mut self, lines: usize, columns: usize)
        requires
            old(self).wf(),
            1 <= lines,
            1 <= columns,
            old(self)@.grid.max_scroll_limit + 3 * lines + 2 * MAX_CACHE_SIZE <= i32::MAX,
        ensures
            final(self).wf(),
            old(self)@.resized_to(final(self)@, lines as nat, columns as nat),
            old(self)@.wide_spaced() ==> final(self)@.wide_spaced(),
    {
        let old_columns: usize = self.grid.columns();
        proof {
            self.lemma_wf();
        }
        if lines > self.grid.screen_lines() {
            self.grid.grow_lines(lines);
        } else if lines < self.grid.screen_lines() {
            self.grid.shrink_lines(lines);
        }
        let ghost mid = self.grid@;
        proof {
            self.lemma_wf();
        }
        if columns != old_columns {
            self.resize_columns(columns);
        }
        assert(old(self)@.grid.lines_resized_to(mid, lines as nat) && (TermView {
            grid: mid,
            ..old(self)@
        }).columns_changed_to(self@, columns as nat));
        proof {
            if old(self)@.wide_spaced() {
                old(self)@.law_lines_resize_keeps_spacing(mid, lines as nat);
                (TermView { grid: mid, ..old(self)@ }).law_resize_keeps_spacing(
                    self@,
                    columns as nat,
                );
            }
        }
    }

    /// Takes the size that the window has come to have: the terminal gets
    /// its lines and columns, and no fewer than [`MIN_SCREEN_LINES`] and
    /// [`MIN_COLUMNS`].
    pub fn on_resize(&mut self, size: WindowSize)
        requires
            old(self).wf(),
            old(self)@.grid.max_scroll_limit + 3 * u16::MAX + 2 * MAX_CACHE_SIZE <= i32::MAX,
        ensures
            final(self).wf(),
            old(self)@.resized_to(
                final(self)@,
                size.spec_screen_lines() as nat,
                size.spec_columns() as nat,
            ),
            old(self)@.wide_spaced() ==> final(self)@.wide_spaced(),
    {
        let lines: usize = if size.num_lines as usize >= MIN_SCREEN_LINES {
            size.num_lines as usize
        } else {
            MIN_SCREEN_LINES
        };
        let columns: usize = if size.num_cols as usize >= MIN_COLUMNS {
            size.num_cols as usize
        } else {
            MIN_COLUMNS
        };
        self.resize(lines, columns);
    }
}

} // verus!

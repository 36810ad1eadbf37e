//! The grid: the visible screen and the scrollback above it.

use vstd::prelude::*;

use crate::index::{Column, Line, Point};
use crate::row::{Blank, Row};
use crate::storage::{Storage, StorageView, MAX_CACHE_SIZE};

verus! {

/// A change of the place in the scrollback that the viewport shows.
#[derive(Debug, Eq, PartialEq, Copy, Clone, Structural)]
pub enum Scroll {
    /// Towards the history by the given number of lines; away from it where
    /// the number is negative.
    Delta(i32),
    PageUp,
    PageDown,
    Top,
    Bottom,
}

/// The mathematical model of a [`Grid`].
pub struct GridView<T> {
    pub storage: StorageView<T>,
    pub columns: nat,
    pub display_offset: nat,
    pub max_scroll_limit: nat,
    pub cursor: Point,
}

impl<T> GridView<T> {
    /// Number of lines of the viewport.
    pub open spec fn screen_lines(self) -> nat {
        self.storage.visible_lines
    }

    /// Number of lines in the scrollback.
    pub open spec fn history_size(self) -> nat {
        (self.storage.len - self.storage.visible_lines) as nat
    }

    /// The oldest line.
    pub open spec fn topmost_line(self) -> int {
        -(self.history_size() as int)
    }

    /// The last line of the viewport.
    pub open spec fn bottommost_line(self) -> int {
        self.screen_lines() - 1
    }

    /// Whether `line` is a line of the viewport or of the scrollback.
    pub open spec fn has_line(self, line: int) -> bool {
        self.topmost_line() <= line <= self.bottommost_line()
    }

    /// Whether `point` names a cell.
    pub open spec fn has_point(self, point: Point) -> bool {
        self.has_line(point.line.0 as int) && point.column.0 < self.columns
    }

    /// The row of `line`.
    pub open spec fn row(self, line: int) -> Row<T> {
        self.storage.row(line)
    }

    /// The cell at `point`.
    pub open spec fn cell(self, point: Point) -> T {
        self.row(point.line.0 as int)@[point.column.0 as int]
    }

    /// What holds of every grid: the viewport has a line and a column, every
    /// row has `columns` cells, the scrollback is within its limit, the
    /// viewport shows a place within the scrollback, the cursor is on the
    /// viewport, and the lines can be counted in an `i32`.
    pub open spec fn wf(self) -> bool {
        &&& self.storage.wf()
        &&& 1 <= self.screen_lines() <= self.storage.len
        &&& 1 <= self.columns <= usize::MAX
        &&& self.history_size() <= self.max_scroll_limit
        &&& self.display_offset <= self.history_size()
        &&& self.storage.capacity() <= self.storage.len + self.screen_lines() + MAX_CACHE_SIZE
        &&& self.max_scroll_limit + 3 * self.screen_lines() + 2 * MAX_CACHE_SIZE <= i32::MAX
        &&& forall|j: int|
            0 <= j < self.storage.ring.len() ==> (#[trigger] self.storage.ring[j])@.len()
                == self.columns
        &&& 0 <= self.cursor.line.0 < self.screen_lines()
        &&& self.cursor.column.0 < self.columns
    }

    /// The cell after `point` in reading order.
    pub open spec fn next_point(self, point: Point) -> Point {
        if point.column.0 + 1 < self.columns {
            Point { line: point.line, column: Column((point.column.0 + 1) as usize) }
        } else {
            Point { line: Line((point.line.0 + 1) as i32), column: Column(0) }
        }
    }

    /// The cell before `point` in reading order.
    pub open spec fn prev_point(self, point: Point) -> Point {
        if point.column.0 > 0 {
            Point { line: point.line, column: Column((point.column.0 - 1) as usize) }
        } else {
            Point { line: Line((point.line.0 - 1) as i32), column: Column((self.columns - 1) as usize) }
        }
    }

    /// The last cell of the grid in reading order.
    pub open spec fn last_point(self) -> Point {
        Point { line: Line(self.bottommost_line() as i32), column: Column((self.columns - 1) as usize) }
    }

    /// The first cell of the grid in reading order.
    pub open spec fn first_point(self) -> Point {
        Point { line: Line(self.topmost_line() as i32), column: Column(0) }
    }

    /// Whether `post` is this grid with `target` lines on the viewport, where
    /// `target` is more than it has. The viewport grows at its top: it takes
    /// in lines of the scrollback as far as there are any, and blank lines
    /// above them. The cursor stays on its row, and the viewport is scrolled
    /// back by as much less as it has grown.
    pub open spec fn grown_lines_to(self, post: GridView<T>, target: nat) -> bool where T: Blank {
        let added = target - self.screen_lines();
        &&& post.columns == self.columns
        &&& post.max_scroll_limit == self.max_scroll_limit
        &&& post.screen_lines() == target
        &&& post.storage.len == if self.storage.len >= target {
            self.storage.len
        } else {
            target
        }
        &&& post.cursor == (Point {
            line: Line((self.cursor.line.0 + added) as i32),
            column: self.cursor.column,
        })
        &&& post.display_offset == if self.display_offset >= added {
            self.display_offset - added
        } else {
            0
        }
        &&& forall|j: int|
            0 <= j < self.storage.len ==> #[trigger] post.storage.ring[j] == self.storage.ring[j]
        &&& forall|j: int|
            self.storage.len <= j < post.storage.len ==> (#[trigger] post.storage.ring[j]).is_blank(
                self.columns,
            )
    }

    /// Whether `post` is this grid with `target` lines on the viewport, where
    /// `target` is less than it has. The viewport shrinks at its top: the
    /// lines that leave it join the scrollback, which loses its oldest lines
    /// beyond its limit. The cursor stays on its row, or on the first line
    /// where its row has left the viewport.
    pub open spec fn shrunk_lines_to(self, post: GridView<T>, target: nat) -> bool {
        let removed = (self.screen_lines() - target) as nat;
        let room = (self.max_scroll_limit - self.history_size()) as nat;
        let gained = if removed <= room {
            removed
        } else {
            room
        };
        &&& post.columns == self.columns
        &&& post.max_scroll_limit == self.max_scroll_limit
        &&& post.screen_lines() == target
        &&& post.storage.len == self.storage.len - (removed - gained)
        &&& post.display_offset == self.display_offset
        &&& post.cursor == (Point {
            line: Line(
                if self.cursor.line.0 >= removed {
                    (self.cursor.line.0 - removed) as i32
                } else {
                    0i32
                },
            ),
            column: self.cursor.column,
        })
        &&& forall|j: int|
            0 <= j < post.storage.len ==> #[trigger] post.storage.ring[j] == self.storage.ring[j]
    }

    /// Whether `post` is this grid with `columns` columns: every row is cut
    /// or filled with blank cells, and the cursor is held within the columns.
    pub open spec fn resized_columns_to(self, post: GridView<T>, columns: nat) -> bool where
        T: Blank,
     {
        &&& post.columns == columns
        &&& post.max_scroll_limit == self.max_scroll_limit
        &&& post.screen_lines() == self.screen_lines()
        &&& post.storage.len == self.storage.len
        &&& post.display_offset == self.display_offset
        &&& post.cursor == (Point {
            line: self.cursor.line,
            column: Column(
                if self.cursor.column.0 < columns {
                    self.cursor.column.0
                } else {
                    (columns - 1) as usize
                },
            ),
        })
        &&& forall|j: int|
            0 <= j < self.storage.len ==> (#[trigger] self.storage.ring[j]).resized_to(
                post.storage.ring[j],
                columns,
            )
    }

    /// Whether `post` is this grid with `lines` lines on the viewport.
    pub open spec fn lines_resized_to(self, post: GridView<T>, lines: nat) -> bool where T: Blank {
        if lines > self.screen_lines() {
            self.grown_lines_to(post, lines)
        } else if lines < self.screen_lines() {
            self.shrunk_lines_to(post, lines)
        } else {
            post == self
        }
    }

    /// Whether `post` is this grid with `columns` columns.
    pub open spec fn columns_changed_to(self, post: GridView<T>, columns: nat) -> bool where
        T: Blank,
     {
        if columns != self.columns {
            self.resized_columns_to(post, columns)
        } else {
            post == self
        }
    }

    /// The place that the viewport shows after `scroll`.
    pub open spec fn scrolled_display(self, scroll: Scroll) -> nat {
        let history = self.history_size() as int;
        let offset = self.display_offset as int;
        let lines = self.screen_lines() as int;
        let wanted = match scroll {
            Scroll::Delta(count) => offset + count,
            Scroll::PageUp => offset + lines,
            Scroll::PageDown => offset - lines,
            Scroll::Top => history,
            Scroll::Bottom => 0,
        };
        if wanted < 0 {
            0
        } else if wanted > history {
            history as nat
        } else {
            wanted as nat
        }
    }

    /// Whether the viewport shows `line`.
    pub open spec fn shows_line(self, line: int) -> bool {
        -(self.display_offset as int) <= line < self.screen_lines() - self.display_offset
    }

    /// The place that the viewport shows after it was moved, by as little as
    /// may be, to show `line`.
    pub open spec fn offset_showing(self, line: int) -> nat {
        if line < -(self.display_offset as int) {
            (-line) as nat
        } else if line >= self.screen_lines() - self.display_offset {
            (self.screen_lines() - 1 - line) as nat
        } else {
            self.display_offset
        }
    }

    /// Whether `post` is this grid scrolled up by `positions` lines: every
    /// line has moved `positions` lines up, the lines that came in at the
    /// bottom are blank, and the scrollback has grown as far as its limit
    /// allows, losing its oldest lines beyond it. A viewport that shows the
    /// history keeps showing the same lines as far as the limit allows.
    pub open spec fn scrolled_up_to(self, post: GridView<T>, positions: nat) -> bool where
        T: Blank,
     {
        let room = (self.max_scroll_limit - self.history_size()) as nat;
        let gained = if positions <= room {
            positions
        } else {
            room
        };
        &&& post.columns == self.columns
        &&& post.max_scroll_limit == self.max_scroll_limit
        &&& post.cursor == self.cursor
        &&& post.screen_lines() == self.screen_lines()
        &&& post.storage.len == self.storage.len + gained
        &&& post.display_offset == if self.display_offset == 0 {
            0
        } else if self.display_offset + positions <= self.max_scroll_limit {
            self.display_offset + positions
        } else {
            self.max_scroll_limit
        }
        &&& forall|j: int| 0 <= j < positions ==> (#[trigger] post.storage.ring[j]).is_blank(
            self.columns,
        )
        &&& forall|j: int|
            positions <= j < post.storage.len ==> #[trigger] post.storage.ring[j]
                == self.storage.ring[j - positions]
    }
}

/// The visible screen and the scrollback above it.
///
/// Line 0 is the first line of the viewport; the lines of the scrollback have
/// negative numbers.
#[derive(Debug)]
pub struct Grid<T> {
    raw: Storage<T>,
    columns: usize,
    lines: usize,
    display_offset: usize,
    max_scroll_limit: usize,
    cursor: Point,
}

impl<T> View for Grid<T> {
    type V = GridView<T>;

    closed spec fn view(&self) -> GridView<T> {
        GridView {
            storage: self.raw@,
            columns: self.columns as nat,
            display_offset: self.display_offset as nat,
            max_scroll_limit: self.max_scroll_limit as nat,
            cursor: self.cursor,
        }
    }
}

impl<T> Grid<T> {
    /// The invariant of the representation.
    pub closed spec fn wf(&self) -> bool {
        &&& self.raw.wf()
        &&& self.lines == self.raw@.visible_lines
        &&& self@.wf()
    }

    /// The invariant of the representation gives what holds of every grid.
    pub proof fn lemma_wf(&self)
        requires
            self.wf(),
        ensures
            self@.wf(),
    {
    }

    /// Creates a grid of blank cells with an empty scrollback that can grow
    /// to `max_scroll_limit` lines.
    pub fn new(lines: usize, columns: usize, max_scroll_limit: usize) -> (grid: Grid<T>) where
        T: Blank,

        requires
            1 <= lines,
            1 <= columns,
            max_scroll_limit + 3 * lines + 2 * MAX_CACHE_SIZE <= i32::MAX,
        ensures
            grid.wf(),
            grid@.screen_lines() == lines,
            grid@.columns == columns,
            grid@.max_scroll_limit == max_scroll_limit,
            grid@.history_size() == 0,
            grid@.display_offset == 0,
            grid@.cursor == (Point { line: Line(0), column: Column(0) }),
            forall|line: int| 0 <= line < lines ==> (#[trigger] grid@.row(line)).is_blank(columns as nat),
    {
        let raw: Storage<T> = Storage::with_capacity(lines, columns);
        let grid = Grid {
            raw,
            columns,
            lines,
            display_offset: 0,
            max_scroll_limit,
            cursor: Point { line: Line(0), column: Column(0) },
        };
        assert forall|line: int| 0 <= line < lines implies (#[trigger] grid@.row(line)).is_blank(
            columns as nat,
        ) by {
            assert(grid@.storage.ring[lines - 1 - line].is_blank(columns as nat));
        }
        grid
    }

    /// Number of columns.
    pub fn columns(&self) -> (n: usize)
        ensures
            n == self@.columns,
    {
        self.columns
    }

    /// Number of lines of the viewport.
    pub fn screen_lines(&self) -> (n: usize)
        requires
            self.wf(),
        ensures
            n == self@.screen_lines(),
    {
        self.lines
    }

    /// Number of lines, those of the scrollback included.
    pub fn total_lines(&self) -> (n: usize)
        ensures
            n == self@.storage.len,
    {
        self.raw.len()
    }

    /// Number of lines in the scrollback.
    pub fn history_size(&self) -> (n: usize)
        requires
            self.wf(),
        ensures
            n == self@.history_size(),
    {
        self.raw.len() - self.lines
    }

    /// How many lines the viewport is scrolled back from the bottom.
    pub fn display_offset(&self) -> (n: usize)
        ensures
            n == self@.display_offset,
    {
        self.display_offset
    }

    /// The cursor's position.
    pub fn cursor(&self) -> (p: Point)
        ensures
            p == self@.cursor,
    {
        self.cursor
    }

    /// The oldest line.
    pub fn topmost_line(&self) -> (line: Line)
        requires
            self.wf(),
        ensures
            line.0 == self@.topmost_line(),
    {
        let history: usize = self.history_size();
        Line(-(history as i32))
    }

    /// The last line of the viewport.
    pub fn bottommost_line(&self) -> (line: Line)
        requires
            self.wf(),
        ensures
            line.0 == self@.bottommost_line(),
    {
        Line(self.lines as i32 - 1)
    }

    /// Whether `point` names a cell of the grid.
    pub fn contains(&self, point: Point) -> (r: bool)
        requires
            self.wf(),
        ensures
            r == self@.has_point(point),
    {
        let top: Line = self.topmost_line();
        let bottom: Line = self.bottommost_line();
        top.0 <= point.line.0 && point.line.0 <= bottom.0 && point.column.0 < self.columns
    }

    /// The row of `line`.
    pub fn row(&self, line: Line) -> (row: &Row<T>)
        requires
            self.wf(),
            self@.has_line(line.0 as int),
        ensures
            *row == self@.row(line.0 as int),
            row@.len() == self@.columns,
    {
        assert(self@.storage.ring[self@.storage.offset_of(line.0 as int)]@.len() == self@.columns);
        self.raw.index(line)
    }

    /// The cell at `point`.
    pub fn cell(&self, point: Point) -> (cell: &T)
        requires
            self.wf(),
            self@.has_point(point),
        ensures
            *cell == self@.cell(point),
    {
        self.row(point.line).get(point.column.0)
    }

    /// Replaces the cell at `point`.
    pub fn set_cell(&mut self, point: Point, cell: T)
        requires
            old(self).wf(),
            old(self)@.has_point(point),
        ensures
            final(self).wf(),
            final(self)@.cell(point) == cell,
            final(self)@.columns == old(self)@.columns,
            final(self)@.display_offset == old(self)@.display_offset,
            final(self)@.max_scroll_limit == old(self)@.max_scroll_limit,
            final(self)@.cursor == old(self)@.cursor,
            final(self)@.storage.len == old(self)@.storage.len,
            final(self)@.storage.visible_lines == old(self)@.storage.visible_lines,
            final(self)@.storage.ring.len() == old(self)@.storage.ring.len(),
            forall|p: Point|
                old(self)@.has_point(p) && p != point ==> #[trigger] final(self)@.cell(p) == old(
                    self,
                )@.cell(p),
    {
        let ghost pre = self@;
        let ghost offset = pre.storage.offset_of(point.line.0 as int);
        assert(pre.storage.ring[offset]@.len() == pre.columns);
        let row = self.raw.index_mut(point.line);
        row.set(point.column.0, cell);
        proof {
            assert(self@.storage.ring =~= pre.storage.ring.update(offset, self@.storage.ring[offset]));
            assert forall|p: Point| pre.has_point(p) && p != point implies #[trigger] self@.cell(p)
                == pre.cell(p) by {
                let o = pre.storage.offset_of(p.line.0 as int);
                if o != offset {
                    assert(self@.storage.ring[o] == pre.storage.ring[o]);
                }
            }
        }
    }

    /// The cell at `point`, to change it.
    pub fn cell_mut(&mut self, point: Point) -> (cell: &mut T)
        requires
            old(self).wf(),
            old(self)@.has_point(point),
        ensures
            *cell == old(self)@.cell(point),
            final(self).wf(),
            final(self)@.cell(point) == *final(cell),
            final(self)@.columns == old(self)@.columns,
            final(self)@.display_offset == old(self)@.display_offset,
            final(self)@.max_scroll_limit == old(self)@.max_scroll_limit,
            final(self)@.cursor == old(self)@.cursor,
            final(self)@.storage.len == old(self)@.storage.len,
            final(self)@.storage.visible_lines == old(self)@.storage.visible_lines,
            final(self)@.storage.ring.len() == old(self)@.storage.ring.len(),
            forall|p: Point|
                old(self)@.has_point(p) && p != point ==> #[trigger] final(self)@.cell(p) == old(
                    self,
                )@.cell(p),
    {
        let ghost pre = self@;
        let ghost offset = pre.storage.offset_of(point.line.0 as int);
        proof {
            assert(pre.storage.ring[offset]@.len() == pre.columns);
            assert forall|row: Row<T>, p: Point|
                pre.has_point(p) && p != point && row@.len() == pre.columns && (forall|c: int|
                    0 <= c < pre.columns && c != point.column.0 ==> row@[c]
                        == pre.storage.ring[offset]@[c]) implies #[trigger] (GridView {
                storage: pre.storage.with_row(offset, row),
                ..pre
            }).cell(p) == pre.cell(p) by {
                let o = pre.storage.offset_of(p.line.0 as int);
                if o != offset {
                    assert(pre.storage.ring.update(offset, row)[o] == pre.storage.ring[o]);
                }
            }
        }
        let row = self.raw.index_mut(point.line);
        row.get_mut(point.column.0)
    }

    /// Moves the cursor to `point`.
    pub fn set_cursor(&mut self, point: Point)
        requires
            old(self).wf(),
            0 <= point.line.0 < old(self)@.screen_lines(),
            point.column.0 < old(self)@.columns,
        ensures
            final(self).wf(),
            final(self)@ == (GridView { cursor: point, ..old(self)@ }),
    {
        self.cursor = point;
    }

    /// Scrolls the whole viewport up by `count` lines, and by no more lines
    /// than it has: its first lines join the scrollback and blank lines
    /// come in at the bottom.
    #[verifier::rlimit(40)]
    pub fn scroll_up(&mut self, count: usize) where T: Blank
        requires
            old(self).wf(),
        ensures
            final(self).wf(),
            old(self)@.scrolled_up_to(
                final(self)@,
                if count <= old(self)@.screen_lines() {
                    count as nat
                } else {
                    old(self)@.screen_lines()
                },
            ),
    {
        let ghost pre = self@;
        let positions: usize = if count <= self.lines {
            count
        } else {
            self.lines
        };
        let room: usize = self.max_scroll_limit - self.history_size();
        if self.display_offset != 0 {
            let wanted: usize = self.display_offset + positions;
            self.display_offset = if wanted <= self.max_scroll_limit {
                wanted
            } else {
                self.max_scroll_limit
            };
        }
        let count: usize = if positions <= room {
            positions
        } else {
            room
        };
        if count != 0 {
            self.raw.initialize(count, self.columns);
        }
        let ghost mid = self.raw@;
        assert(forall|j: int| 0 <= j < pre.storage.ring.len() ==> mid.ring[j] == pre.storage.ring[j])
            by {
            if count != 0 && pre.storage.len + count > pre.storage.ring.len() {
                assert forall|j: int| 0 <= j < pre.storage.ring.len() implies mid.ring[j]
                    == pre.storage.ring[j] by {
                    assert(mid.ring.subrange(0, pre.storage.ring.len() as int)[j] == mid.ring[j]);
                }
            }
        }
        assert(forall|j: int| 0 <= j < mid.ring.len() ==> (#[trigger] mid.ring[j])@.len()
            == pre.columns);
        self.raw.rotate(-(positions as isize));
        let ghost turned = self.raw@;
        proof {
            assert forall|j: int| 0 <= j < turned.ring.len() implies (#[trigger] turned.ring[j])
                == mid.ring[if j < positions {
                j - positions + mid.ring.len()
            } else {
                j - positions
            }] by {
                mid.law_rotated_row(-(positions as int), j);
            }
        }
        let lines: usize = self.lines;
        let mut i: usize = lines - positions;
        while i < lines
            invariant
                lines - positions <= i <= lines,
                positions <= lines,
                lines == self.lines,
                self.columns == pre.columns,
                self.max_scroll_limit == pre.max_scroll_limit,
                self.cursor == pre.cursor,
                self.display_offset == if pre.display_offset == 0 {
                    0int
                } else if pre.display_offset + positions <= pre.max_scroll_limit {
                    pre.display_offset + positions
                } else {
                    pre.max_scroll_limit as int
                },
                self.raw.wf(),
                self.raw@.len == turned.len,
                self.raw@.visible_lines == turned.visible_lines,
                self.raw@.ring.len() == turned.ring.len(),
                turned.visible_lines == lines,
                turned.len >= lines,
                turned.ring.len() >= turned.len,
                lines <= i32::MAX,
                forall|j: int|
                    0 <= j < turned.ring.len() && !(lines - i <= j < positions)
                        ==> #[trigger] self.raw@.ring[j] == turned.ring[j],
                forall|j: int|
                    0 <= j < turned.ring.len() ==> (#[trigger] self.raw@.ring[j])@.len()
                        == pre.columns,
                forall|j: int|
                    lines - i <= j < positions ==> (#[trigger] self.raw@.ring[j]).is_blank(
                        pre.columns,
                    ),
            decreases lines - i,
        {
            let ghost before = self.raw@;
            let ghost offset = lines - 1 - i;
            assert(before.ring[offset]@.len() == pre.columns);
            let row = self.raw.index_mut(Line(i as i32));
            row.reset();
            proof {
                assert(self.raw@.ring == before.ring.update(offset, self.raw@.ring[offset]));
                assert(self.raw@.ring[offset].is_blank(pre.columns));
                assert forall|j: int| lines - (i + 1) <= j < positions implies (
                #[trigger] self.raw@.ring[j]).is_blank(pre.columns) by {
                    if j != offset {
                        assert(self.raw@.ring[j] == before.ring[j]);
                    }
                }
            }
            i += 1;
        }
        proof {
            assert forall|j: int| positions <= j < self@.storage.len implies (
            #[trigger] self@.storage.ring[j]) == pre.storage.ring[j - positions] by {
                assert(self.raw@.ring[j] == turned.ring[j]);
                assert(turned.ring[j] == mid.ring[j - positions]);
            }
        }
    }

    /// Gives the viewport `target` lines, which is more than it has.
    pub fn grow_lines(&mut self, target: usize) where T: Blank
        requires
            old(self).wf(),
            target > old(self)@.screen_lines(),
            old(self)@.max_scroll_limit + 3 * target + 2 * MAX_CACHE_SIZE <= i32::MAX,
        ensures
            final(self).wf(),
            old(self)@.grown_lines_to(final(self)@, target as nat),
    {
        let ghost pre = self@;
        let added: usize = target - self.lines;
        let history: usize = self.history_size();
        let old_len: usize = self.raw.len();
        assert(pre.storage.ring[pre.storage.offset_of(0)]@.len() == pre.columns);
        self.raw.grow_visible_lines(target);
        self.lines = target;
        let ghost mid = self.raw@;
        proof {
            assert forall|j: int| 0 <= j < pre.storage.ring.len() implies mid.ring[j]
                == pre.storage.ring[j] by {
                if pre.storage.len + added > pre.storage.ring.len() {
                    assert(mid.ring.subrange(0, pre.storage.ring.len() as int)[j] == mid.ring[j]);
                }
            }
            assert(forall|j: int| 0 <= j < mid.ring.len() ==> (#[trigger] mid.ring[j])@.len()
                == pre.columns);
        }
        let from_history: usize = if history <= added {
            history
        } else {
            added
        };
        self.raw.shrink_lines(from_history);
        let ghost cut = self.raw@;
        let new_len: usize = self.raw.len();
        proof {
            assert(new_len == old_len + added - from_history);
            assert(new_len == if old_len >= target {
                old_len
            } else {
                target
            });
            assert forall|j: int| 0 <= j < cut.ring.len() implies #[trigger] cut.ring[j]
                == mid.ring[j] by {}
        }
        // Rows that were kept for later and come into use are made blank.
        let mut k: usize = old_len;
        while k < new_len
            invariant
                old_len <= k <= new_len,
                old_len >= pre.storage.visible_lines,
                new_len == cut.len,
                new_len <= i32::MAX,
                target == cut.visible_lines,
                target <= i32::MAX,
                self.lines == target,
                self.columns == pre.columns,
                self.max_scroll_limit == pre.max_scroll_limit,
                self.cursor == pre.cursor,
                self.display_offset == pre.display_offset,
                self.raw.wf(),
                self.raw@.len == cut.len,
                self.raw@.visible_lines == cut.visible_lines,
                self.raw@.ring.len() == cut.ring.len(),
                cut.ring.len() >= cut.len,
                forall|j: int|
                    0 <= j < cut.ring.len() && !(old_len <= j < k) ==> #[trigger] self.raw@.ring[j]
                        == cut.ring[j],
                forall|j: int|
                    0 <= j < cut.ring.len() ==> (#[trigger] self.raw@.ring[j])@.len()
                        == pre.columns,
                forall|j: int| old_len <= j < k ==> (#[trigger] self.raw@.ring[j]).is_blank(
                    pre.columns,
                ),
            decreases new_len - k,
        {
            let ghost before = self.raw@;
            let line: Line = Line(target as i32 - 1 - k as i32);
            assert(before.offset_of(line.0 as int) == k);
            assert(before.ring[k as int]@.len() == pre.columns);
            let row = self.raw.index_mut(line);
            row.reset();
            proof {
                assert(self.raw@.ring == before.ring.update(k as int, self.raw@.ring[k as int]));
                assert(self.raw@.ring[k as int].is_blank(pre.columns));
                assert forall|j: int| old_len <= j < k + 1 implies (
                #[trigger] self.raw@.ring[j]).is_blank(pre.columns) by {
                    if j != k {
                        assert(self.raw@.ring[j] == before.ring[j]);
                    }
                }
                assert forall|j: int| 0 <= j < cut.ring.len() implies (
                #[trigger] self.raw@.ring[j])@.len() == pre.columns by {
                    if j != k {
                        assert(self.raw@.ring[j] == before.ring[j]);
                    }
                }
            }
            k += 1;
        }
        assert(self.cursor == pre.cursor);
        assert(0 <= pre.cursor.line.0 < pre.screen_lines());
        self.cursor = Point {
            line: Line(self.cursor.line.0 + added as i32),
            column: self.cursor.column,
        };
        self.display_offset = if self.display_offset >= added {
            self.display_offset - added
        } else {
            0
        };
    }

    /// Gives the viewport `target` lines, which is less than it has.
    pub fn shrink_lines(&mut self, target: usize) where T: Blank
        requires
            old(self).wf(),
            1 <= target < old(self)@.screen_lines(),
        ensures
            final(self).wf(),
            old(self)@.shrunk_lines_to(final(self)@, target as nat),
    {
        let ghost pre = self@;
        let removed: usize = self.lines - target;
        let room: usize = self.max_scroll_limit - self.history_size();
        let count: usize = if removed <= room {
            removed
        } else {
            room
        };
        self.raw.initialize(count, self.columns);
        let ghost mid = self.raw@;
        proof {
            assert forall|j: int| 0 <= j < pre.storage.ring.len() implies mid.ring[j]
                == pre.storage.ring[j] by {
                if pre.storage.len + count > pre.storage.ring.len() {
                    assert(mid.ring.subrange(0, pre.storage.ring.len() as int)[j] == mid.ring[j]);
                }
            }
            assert(forall|j: int| 0 <= j < mid.ring.len() ==> (#[trigger] mid.ring[j])@.len()
                == pre.columns);
        }
        self.raw.shrink_visible_lines(target);
        self.lines = target;
        self.cursor = Point {
            line: Line(
                if self.cursor.line.0 >= removed as i32 {
                    self.cursor.line.0 - removed as i32
                } else {
                    0
                },
            ),
            column: self.cursor.column,
        };
    }

    /// Gives every row `columns` cells, cutting it or filling it with blank
    /// cells. Rows kept for later are given up.
    pub fn resize_columns(&mut self, columns: usize) where T: Blank
        requires
            old(self).wf(),
            1 <= columns,
        ensures
            final(self).wf(),
            old(self)@.resized_columns_to(final(self)@, columns as nat),
    {
        let ghost pre = self@;
        let mut rows: Vec<Row<T>> = self.raw.take_all();
        let ghost taken = rows@;
        let n: usize = rows.len();
        let mut i: usize = 0;
        while i < n
            invariant
                i <= n,
                n == taken.len(),
                rows@.len() == n,
                forall|j: int| 0 <= j < i ==> (#[trigger] taken[j]).resized_to(rows@[j], columns as nat),
                forall|j: int| i <= j < n ==> #[trigger] rows@[j] == taken[j],
            decreases n - i,
        {
            rows[i].resize(columns);
            i += 1;
        }
        assert(taken.len() == pre.storage.len);
        assert forall|j: int| 0 <= j < n implies (#[trigger] rows@[j])@.len() == columns by {
            assert(taken[j].resized_to(rows@[j], columns as nat));
        }
        self.raw.replace_inner(rows);
        assert(self.raw@.ring == rows@);
        assert(self.raw@.visible_lines == pre.storage.visible_lines);
        self.columns = columns;
        self.cursor = Point {
            line: self.cursor.line,
            column: Column(
                if self.cursor.column.0 < columns {
                    self.cursor.column.0
                } else {
                    columns - 1
                },
            ),
        };
        proof {
            assert forall|j: int| 0 <= j < pre.storage.len implies (
            #[trigger] pre.storage.ring[j]).resized_to(self@.storage.ring[j], columns as nat) by {
                assert(taken[j] == pre.storage.ring[j]);
            }
        }
    }

    /// Gives the grid `lines` lines on the viewport and `columns` columns.
    /// Lines are not broken anew.
    pub fn resize(&mut self, lines: usize, columns: usize) where T: Blank
        requires
            old(self).wf(),
            1 <= lines,
            1 <= columns,
            old(self)@.max_scroll_limit + 3 * lines + 2 * MAX_CACHE_SIZE <= i32::MAX,
        ensures
            final(self).wf(),
            final(self)@.screen_lines() == lines,
            final(self)@.columns == columns,
            final(self)@.max_scroll_limit == old(self)@.max_scroll_limit,
            exists|mid: GridView<T>| #[trigger]
                old(self)@.lines_resized_to(mid, lines as nat) && mid.columns_changed_to(
                    final(self)@,
                    columns as nat,
                ),
    {
        if lines > self.lines {
            self.grow_lines(lines);
        } else if lines < self.lines {
            self.shrink_lines(lines);
        }
        let ghost mid = self@;
        if columns != self.columns {
            self.resize_columns(columns);
        }
        assert(old(self)@.lines_resized_to(mid, lines as nat) && mid.columns_changed_to(
            self@,
            columns as nat,
        ));
    }

    /// Moves the place in the scrollback that the viewport shows.
    pub fn scroll_display(&mut self, scroll: Scroll)
        requires
            old(self).wf(),
        ensures
            final(self).wf(),
            final(self)@ == (GridView {
                display_offset: old(self)@.scrolled_display(scroll),
                ..old(self)@
            }),
    {
        let history: i64 = self.history_size() as i64;
        let offset: i64 = self.display_offset as i64;
        let lines: i64 = self.lines as i64;
        let wanted: i64 = match scroll {
            Scroll::Delta(count) => offset + count as i64,
            Scroll::PageUp => offset + lines,
            Scroll::PageDown => offset - lines,
            Scroll::Top => history,
            Scroll::Bottom => 0,
        };
        self.display_offset = if wanted < 0 {
            0
        } else if wanted > history {
            history as usize
        } else {
            wanted as usize
        };
    }

    /// Moves the viewport, by as little as may be, so that it shows the line
    /// of `point`.
    pub fn scroll_to_point(&mut self, point: Point)
        requires
            old(self).wf(),
            old(self)@.has_line(point.line.0 as int),
        ensures
            final(self).wf(),
            final(self)@ == (GridView {
                display_offset: old(self)@.offset_showing(point.line.0 as int),
                ..old(self)@
            }),
            final(self)@.shows_line(point.line.0 as int),
    {
        let offset: i64 = self.display_offset as i64;
        let lines: i64 = self.lines as i64;
        let line: i64 = point.line.0 as i64;
        if line < -offset {
            self.display_offset = (-line) as usize;
        } else if line >= lines - offset {
            self.display_offset = (lines - 1 - line) as usize;
        }
    }

    /// The cell after `point` in reading order, if `point` is not the last.
    pub fn next_point(&self, point: Point) -> (next: Option<Point>)
        requires
            self.wf(),
            self@.has_point(point),
        ensures
            match next {
                Some(p) => point != self@.last_point() && p == self@.next_point(point)
                    && self@.has_point(p),
                None => point == self@.last_point(),
            },
    {
        if point.column.0 + 1 < self.columns {
            Some(Point { line: point.line, column: Column(point.column.0 + 1) })
        } else if point.line.0 < self.bottommost_line().0 {
            Some(Point { line: Line(point.line.0 + 1), column: Column(0) })
        } else {
            None
        }
    }

    /// The cell before `point` in reading order, if `point` is not the
    /// first.
    pub fn prev_point(&self, point: Point) -> (prev: Option<Point>)
        requires
            self.wf(),
            self@.has_point(point),
        ensures
            match prev {
                Some(p) => point != self@.first_point() && p == self@.prev_point(point)
                    && self@.has_point(p),
                None => point == self@.first_point(),
            },
    {
        if point.column.0 > 0 {
            Some(Point { line: point.line, column: Column(point.column.0 - 1) })
        } else if point.line.0 > self.topmost_line().0 {
            Some(Point { line: Line(point.line.0 - 1), column: Column(self.columns - 1) })
        } else {
            None
        }
    }
}

} // verus!

//! Writing characters into the terminal at the cursor.
//!
//! A character of two columns takes two cells: its own and, to the right
//! of it, a spacer without a glyph. Writing keeps it so.

use vstd::prelude::*;

use crate::cell::{
    Cell, CellExtra, Color, Flags, NamedColor, LEADING_WIDE_CHAR_SPACER, WIDE_CHAR,
    WIDE_CHAR_SPACER,
};
use crate::grid::GridView;
use crate::index::{Column, Line, Point};
use crate::term::{Term, TermView};
use crate::width::{char_width, unicode_width};

verus! {

/// Whether `cell` is the spacer to the right of a wide character: it has
/// the spacer's flag and no glyph.
pub open spec fn is_wide_spacer(cell: Cell) -> bool {
    cell.flags.has(WIDE_CHAR_SPACER) && cell.c == ' '
}

/// The cell to the left of `p`.
pub open spec fn left_of(p: Point) -> Point {
    Point { line: p.line, column: Column((p.column.0 - 1) as usize) }
}

/// The cell to the right of `p`.
pub open spec fn right_of(p: Point) -> Point {
    Point { line: p.line, column: Column((p.column.0 + 1) as usize) }
}

impl Cell {
    /// The cell that shows `c` with the flags `bits` in the default
    /// colors.
    pub open spec fn glyph(c: char, bits: u16) -> Cell {
        Cell {
            c,
            fg: Color::Named(NamedColor::Foreground),
            bg: Color::Named(NamedColor::Background),
            flags: Flags { bits },
            extra: None,
        }
    }

    /// The cell without its glyph and without the mark of a wide
    /// character.
    pub open spec fn cleared_wide(self) -> Cell {
        Cell { c: ' ', flags: Flags { bits: self.flags.bits & !WIDE_CHAR }, extra: None, ..self }
    }

    /// The cell without the flags `mask`.
    pub open spec fn without_flags(self, mask: u16) -> Cell {
        Cell { flags: Flags { bits: self.flags.bits & !mask }, ..self }
    }

    /// Whether `post` is this cell with the combining character `c` added.
    pub open spec fn with_zerowidth(self, post: Cell, c: char) -> bool {
        &&& post.c == self.c
        &&& post.fg == self.fg
        &&& post.bg == self.bg
        &&& post.flags == self.flags
        &&& post.spec_underline_color() == self.spec_underline_color()
        &&& post.spec_hyperlink() == self.spec_hyperlink()
        &&& post.spec_zerowidth() == Some(
            match self.spec_zerowidth() {
                Some(before) => before.push(c),
                None => seq![c],
            },
        )
    }
}

impl TermView {
    /// Whether `post` differs from this terminal in nothing but cells.
    pub open spec fn same_but_cells(self, post: TermView) -> bool {
        &&& post.vi_mode == self.vi_mode
        &&& post.colors == self.colors
        &&& post.input_needs_wrap == self.input_needs_wrap
        &&& post.grid.columns == self.grid.columns
        &&& post.grid.display_offset == self.grid.display_offset
        &&& post.grid.max_scroll_limit == self.grid.max_scroll_limit
        &&& post.grid.cursor == self.grid.cursor
        &&& post.grid.storage.len == self.grid.storage.len
        &&& post.grid.storage.visible_lines == self.grid.storage.visible_lines
    }

    /// The cell at `q` after the glyph `c` with the flags `bits` was
    /// written at the cursor: the glyph at the cursor; a wide character to
    /// the left of the cursor, whose spacer is overwritten, is cleared; the
    /// spacer of a wide character that is overwritten is a spacer no more.
    pub open spec fn written_cell(self, c: char, bits: u16, q: Point) -> Cell {
        let p = self.grid.cursor;
        if q == p {
            Cell::glyph(c, bits)
        } else if q.line == p.line && q.column.0 + 1 == p.column.0 && self.grid.cell(q).flags.has(
            WIDE_CHAR,
        ) {
            self.grid.cell(q).cleared_wide()
        } else if q.line == p.line && q.column.0 == p.column.0 + 1 && self.grid.cell(p).flags.has(
            WIDE_CHAR,
        ) {
            self.grid.cell(q).without_flags(WIDE_CHAR_SPACER)
        } else {
            self.grid.cell(q)
        }
    }

    /// Whether `post` is this terminal after the glyph `c` with the flags
    /// `bits` was written at the cursor.
    pub open spec fn written_to(self, post: TermView, c: char, bits: u16) -> bool {
        &&& self.same_but_cells(post)
        &&& forall|q: Point| #[trigger]
            self.grid.has_point(q) ==> post.grid.cell(q) == self.written_cell(c, bits, q)
    }

    /// The cell at `q` after the wide character `c` was written at the
    /// cursor and its spacer to the right of it.
    pub open spec fn wide_written_cell(self, c: char, q: Point) -> Cell {
        let p = self.grid.cursor;
        if q == p {
            Cell::glyph(c, WIDE_CHAR)
        } else if q == right_of(p) {
            Cell::glyph(' ', WIDE_CHAR_SPACER)
        } else if q.line == p.line && q.column.0 + 1 == p.column.0 && self.grid.cell(q).flags.has(
            WIDE_CHAR,
        ) {
            self.grid.cell(q).cleared_wide()
        } else if q.line == p.line && q.column.0 == p.column.0 + 2 && self.grid.cell(
            right_of(p),
        ).flags.has(WIDE_CHAR) {
            self.grid.cell(q).without_flags(WIDE_CHAR_SPACER)
        } else {
            self.grid.cell(q)
        }
    }

    /// Whether `post` is this terminal after the wide character `c` was
    /// written at the cursor.
    pub open spec fn wide_written_to(self, post: TermView, c: char) -> bool {
        &&& self.same_but_cells(post)
        &&& forall|q: Point| #[trigger]
            self.grid.has_point(q) ==> post.grid.cell(q) == self.wide_written_cell(c, q)
    }

    /// This terminal with the cursor at `cursor`.
    pub open spec fn with_cursor(self, cursor: Point) -> TermView {
        TermView { grid: GridView { cursor, ..self.grid }, ..self }
    }

    /// Whether `post` is this terminal after a line feed: the cursor has
    /// gone down a line, or, on the last line, the viewport has scrolled up
    /// by a line.
    pub open spec fn line_fed_to(self, post: TermView) -> bool {
        if self.grid.cursor.line.0 + 1 < self.grid.screen_lines() {
            post == self.with_cursor(
                Point {
                    line: Line((self.grid.cursor.line.0 + 1) as i32),
                    column: self.grid.cursor.column,
                },
            )
        } else {
            &&& post.vi_mode == self.vi_mode
            &&& post.colors == self.colors
            &&& post.input_needs_wrap == self.input_needs_wrap
            &&& self.grid.scrolled_up_to(post.grid, 1)
        }
    }

    /// This terminal after a carriage return: the cursor stands at the
    /// start of its line.
    pub open spec fn carriage_returned(self) -> TermView {
        TermView {
            grid: GridView {
                cursor: Point { line: self.grid.cursor.line, column: Column(0) },
                ..self.grid
            },
            input_needs_wrap: false,
            ..self
        }
    }

    /// Whether `post` is this terminal with the row of the cursor marked as
    /// going on in the next row.
    pub open spec fn marked_wrapped_to(self, post: TermView) -> bool {
        let last = Point {
            line: self.grid.cursor.line,
            column: Column((self.grid.columns - 1) as usize),
        };
        &&& self.same_but_cells(post)
        &&& forall|q: Point| #[trigger]
            self.grid.has_point(q) ==> post.grid.cell(q) == if q == last {
                self.grid.cell(q).with_wrap(true)
            } else {
                self.grid.cell(q)
            }
    }

    /// Whether `post` is this terminal after its row has been wrapped: the
    /// row of the cursor is marked as going on, and the cursor stands at
    /// the start of the next row, for which the viewport scrolls if it has
    /// to.
    pub open spec fn wrapped_to(self, post: TermView) -> bool {
        exists|marked: TermView, fed: TermView| #[trigger]
            self.wrap_steps(marked, fed) && post == fed.carriage_returned()
    }

    /// The steps of [`TermView::wrapped_to`].
    pub open spec fn wrap_steps(self, marked: TermView, fed: TermView) -> bool {
        marked.wf() && fed.wf() && self.marked_wrapped_to(marked) && marked.line_fed_to(fed)
    }

    /// Where a combining character goes: on the cell before the cursor, or
    /// on the cell of the cursor once that is written; on the wide
    /// character where that cell is its spacer.
    pub open spec fn zerowidth_target(self) -> Point {
        let p = self.grid.cursor;
        let column = if self.input_needs_wrap || p.column.0 == 0 {
            p.column.0
        } else {
            (p.column.0 - 1) as usize
        };
        let at = Point { line: p.line, column: Column(column) };
        if self.grid.cell(at).flags.has(WIDE_CHAR_SPACER) && column > 0 {
            left_of(at)
        } else {
            at
        }
    }

    /// Whether `post` is this terminal after the combining character `c`
    /// was added to the cell it goes on.
    pub open spec fn zerowidth_pushed_to(self, post: TermView, c: char) -> bool {
        &&& self.same_but_cells(post)
        &&& self.grid.cell(self.zerowidth_target()).with_zerowidth(
            post.grid.cell(self.zerowidth_target()),
            c,
        )
        &&& forall|q: Point| #[trigger]
            self.grid.has_point(q) && q != self.zerowidth_target() ==> post.grid.cell(q)
                == self.grid.cell(q)
    }

    /// Whether `post` is this terminal with room for a wide character at
    /// the cursor: where the cursor stands on the last column, that cell
    /// is a spacer that leads to the next row, and the row is wrapped.
    pub open spec fn room_made_to(self, post: TermView) -> bool {
        if self.grid.cursor.column.0 + 1 >= self.grid.columns {
            exists|led: TermView| #[trigger]
                self.written_to(led, ' ', LEADING_WIDE_CHAR_SPACER) && led.wf() && led.wrapped_to(
                    post,
                )
        } else {
            post == self
        }
    }

    /// The steps by which a character of `width` columns is written: the
    /// row is wrapped if the cursor has written its last column; room is
    /// made for a wide character; the glyph is written.
    pub open spec fn input_steps(
        self,
        wrapped: TermView,
        roomy: TermView,
        written: TermView,
        c: char,
        width: usize,
    ) -> bool {
        &&& wrapped.wf() && roomy.wf() && written.wf()
        &&& if self.input_needs_wrap {
            self.wrapped_to(wrapped)
        } else {
            wrapped == self
        }
        &&& if width >= 2 {
            wrapped.room_made_to(roomy) && roomy.grid.cursor.column.0 + 1 < roomy.grid.columns
                && roomy.wide_written_to(written, c)
        } else {
            roomy == wrapped && roomy.written_to(written, c, 0)
        }
    }

    /// Whether `post` is this terminal after the character `c` was typed.
    ///
    /// A control character changes nothing. A combining character goes on
    /// the cell before the cursor. Any other character is written at the
    /// cursor, in a new row if the row is full, and the cursor goes on
    /// behind it; a wide character takes two cells, and is left out where
    /// the terminal has one column only.
    pub open spec fn input_to(self, post: TermView, c: char) -> bool {
        match unicode_width(c) {
            None => post == self,
            Some(width) => if width == 0 {
                self.zerowidth_pushed_to(post, c)
            } else if width >= 2 && self.grid.columns < 2 {
                post == self
            } else {
                exists|wrapped: TermView, roomy: TermView, written: TermView| #[trigger]
                    self.input_steps(wrapped, roomy, written, c, width) && post == if width >= 2 {
                        written.with_cursor(right_of(written.grid.cursor)).advanced()
                    } else {
                        written.advanced()
                    }
            },
        }
    }

    /// Wrapping a row leaves every wide character with its spacer.
    pub proof fn law_wrap_keeps_spacing(self, post: TermView)
        requires
            self.wf(),
            self.wide_spaced(),
            self.wrapped_to(post),
        ensures
            post.wide_spaced(),
    {
        let (marked, fed) = choose|marked: TermView, fed: TermView| #[trigger]
            self.wrap_steps(marked, fed) && post == fed.carriage_returned();
        self.law_mark_keeps_spacing(marked);
        marked.law_line_feed_keeps_spacing(fed);
        assert forall|q: Point| #[trigger]
            post.grid.has_point(q) && post.grid.cell(q).flags.has(WIDE_CHAR) implies q.column.0 + 1
            < post.grid.columns && is_wide_spacer(post.grid.cell(right_of(q))) by {
            assert(fed.grid.has_point(q));
            assert(fed.grid.cell(q) == post.grid.cell(q));
            assert(fed.grid.cell(right_of(q)) == post.grid.cell(right_of(q)));
        }
    }

    /// Moving the cursor leaves every wide character with its spacer.
    pub proof fn law_cursor_keeps_spacing(self, post: TermView)
        requires
            self.wide_spaced(),
            post.grid == (GridView { cursor: post.grid.cursor, ..self.grid }),
        ensures
            post.wide_spaced(),
    {
        assert forall|q: Point| #[trigger]
            post.grid.has_point(q) && post.grid.cell(q).flags.has(WIDE_CHAR) implies q.column.0 + 1
            < post.grid.columns && is_wide_spacer(post.grid.cell(right_of(q))) by {
            assert(self.grid.has_point(q));
            assert(self.grid.cell(q) == post.grid.cell(q));
            assert(self.grid.cell(right_of(q)) == post.grid.cell(right_of(q)));
        }
    }

    /// Typing a character leaves every wide character with its spacer.
    pub proof fn law_input_keeps_spacing(self, post: TermView, c: char)
        requires
            self.wf(),
            self.wide_spaced(),
            self.input_to(post, c),
        ensures
            post.wide_spaced(),
    {
        match unicode_width(c) {
            None => {},
            Some(width) => {
                if width == 0 {
                    let target = self.zerowidth_target();
                    assert forall|q: Point| #[trigger]
                        post.grid.has_point(q) && post.grid.cell(q).flags.has(
                            WIDE_CHAR,
                        ) implies q.column.0 + 1 < post.grid.columns && is_wide_spacer(
                        post.grid.cell(right_of(q)),
                    ) by {
                        assert(self.grid.has_point(q));
                        assert(self.grid.cell(q).flags == post.grid.cell(q).flags);
                        assert(self.grid.has_point(right_of(q)));
                        assert(self.grid.cell(right_of(q)).flags == post.grid.cell(
                            right_of(q),
                        ).flags);
                        assert(self.grid.cell(right_of(q)).c == post.grid.cell(right_of(q)).c);
                    }
                } else if width >= 2 && self.grid.columns < 2 {
                } else {
                    let (wrapped, roomy, written) = choose|
                        wrapped: TermView,
                        roomy: TermView,
                        written: TermView,
                    | #[trigger]
                        self.input_steps(wrapped, roomy, written, c, width) && post == if width
                            >= 2 {
                            written.with_cursor(right_of(written.grid.cursor)).advanced()
                        } else {
                            written.advanced()
                        };
                    if self.input_needs_wrap {
                        self.law_wrap_keeps_spacing(wrapped);
                    }
                    lemma_flag_bits(0);
                    if width >= 2 {
                        if wrapped.grid.cursor.column.0 + 1 >= wrapped.grid.columns {
                            let led = choose|led: TermView| #[trigger]
                                wrapped.written_to(led, ' ', LEADING_WIDE_CHAR_SPACER) && led.wf()
                                    && led.wrapped_to(roomy);
                            wrapped.law_write_keeps_spacing(led, ' ', LEADING_WIDE_CHAR_SPACER);
                            led.law_wrap_keeps_spacing(roomy);
                        }
                        roomy.law_wide_write_keeps_spacing(written, c);
                        let moved = written.with_cursor(right_of(written.grid.cursor));
                        written.law_cursor_keeps_spacing(moved);
                        moved.law_cursor_keeps_spacing(post);
                    } else {
                        roomy.law_write_keeps_spacing(written, c, 0);
                        written.law_cursor_keeps_spacing(post);
                    }
                }
            },
        }
    }

    /// This terminal after the cursor has gone on behind a glyph: a column
    /// to the right, or, on the last column, nowhere, and the next
    /// character begins a new row.
    pub open spec fn advanced(self) -> TermView {
        if self.grid.cursor.column.0 + 1 < self.grid.columns {
            self.with_cursor(right_of(self.grid.cursor))
        } else {
            TermView { input_needs_wrap: true, ..self }
        }
    }
}

/// Clearing the mark of a wide character leaves a cell without it and
/// takes no spacer's flag; taking a spacer's flag leaves the mark of a
/// wide character as it is.
proof fn lemma_flag_bits(bits: u16)
    ensures
        (bits & !0x20u16) & 0x20u16 != 0x20u16,
        (bits & !0x20u16) & 0x40u16 == bits & 0x40u16,
        (bits & !0x40u16) & 0x20u16 == bits & 0x20u16,
        (bits | 0x10u16) & 0x20u16 == bits & 0x20u16,
        (bits | 0x10u16) & 0x40u16 == bits & 0x40u16,
        0x40u16 & 0x20u16 != 0x20u16,
        0x40u16 & 0x40u16 == 0x40u16,
        0x20u16 & 0x20u16 == 0x20u16,
        0u16 & 0x20u16 != 0x20u16,
        0x400u16 & 0x20u16 != 0x20u16,
{
    assert((bits & !0x20u16) & 0x20u16 != 0x20u16) by (bit_vector);
    assert((bits & !0x20u16) & 0x40u16 == bits & 0x40u16) by (bit_vector);
    assert((bits & !0x40u16) & 0x20u16 == bits & 0x20u16) by (bit_vector);
    assert((bits | 0x10u16) & 0x20u16 == bits & 0x20u16) by (bit_vector);
    assert((bits | 0x10u16) & 0x40u16 == bits & 0x40u16) by (bit_vector);
    assert(0x40u16 & 0x20u16 != 0x20u16) by (bit_vector);
    assert(0x40u16 & 0x40u16 == 0x40u16) by (bit_vector);
    assert(0x20u16 & 0x20u16 == 0x20u16) by (bit_vector);
    assert(0u16 & 0x20u16 != 0x20u16) by (bit_vector);
    assert(0x400u16 & 0x20u16 != 0x20u16) by (bit_vector);
}

impl TermView {
    /// Writing a glyph that is no wide character leaves every wide
    /// character with its spacer.
    pub proof fn law_write_keeps_spacing(self, post: TermView, c: char, bits: u16)
        requires
            self.wf(),
            self.wide_spaced(),
            self.written_to(post, c, bits),
            bits & WIDE_CHAR != WIDE_CHAR,
        ensures
            post.wide_spaced(),
    {
        let p = self.grid.cursor;
        assert forall|q: Point| #[trigger]
            post.grid.has_point(q) && post.grid.cell(q).flags.has(WIDE_CHAR) implies q.column.0 + 1
            < post.grid.columns && is_wide_spacer(post.grid.cell(right_of(q))) by {
            assert(self.grid.has_point(q));
            lemma_flag_bits(self.grid.cell(q).flags.bits);
            // The cell was a wide character before, and is none of the
            // cells that have changed their mark.
            assert(self.grid.cell(q).flags.has(WIDE_CHAR));
            assert(q != p);
            let r = right_of(q);
            assert(self.grid.has_point(r));
            lemma_flag_bits(self.grid.cell(r).flags.bits);
            assert(post.grid.cell(r) == self.written_cell(c, bits, r));
        }
    }

    /// Writing a wide character leaves every wide character with its
    /// spacer, the one that is written too.
    pub proof fn law_wide_write_keeps_spacing(self, post: TermView, c: char)
        requires
            self.wf(),
            self.wide_spaced(),
            self.wide_written_to(post, c),
            self.grid.cursor.column.0 + 1 < self.grid.columns,
        ensures
            post.wide_spaced(),
    {
        let p = self.grid.cursor;
        assert forall|q: Point| #[trigger]
            post.grid.has_point(q) && post.grid.cell(q).flags.has(WIDE_CHAR) implies q.column.0 + 1
            < post.grid.columns && is_wide_spacer(post.grid.cell(right_of(q))) by {
            assert(self.grid.has_point(q));
            lemma_flag_bits(self.grid.cell(q).flags.bits);
            let r = right_of(q);
            if q == p {
                assert(self.grid.has_point(r));
            } else {
                assert(q != right_of(p));
                assert(self.grid.cell(q).flags.has(WIDE_CHAR));
                assert(self.grid.has_point(r));
                lemma_flag_bits(self.grid.cell(r).flags.bits);
                assert(post.grid.cell(r) == self.wide_written_cell(c, r));
            }
        }
    }

    /// Marking a row as going on leaves every wide character with its
    /// spacer.
    pub proof fn law_mark_keeps_spacing(self, post: TermView)
        requires
            self.wf(),
            self.wide_spaced(),
            self.marked_wrapped_to(post),
        ensures
            post.wide_spaced(),
    {
        assert forall|q: Point| #[trigger]
            post.grid.has_point(q) && post.grid.cell(q).flags.has(WIDE_CHAR) implies q.column.0 + 1
            < post.grid.columns && is_wide_spacer(post.grid.cell(right_of(q))) by {
            assert(self.grid.has_point(q));
            lemma_flag_bits(self.grid.cell(q).flags.bits);
            assert(self.grid.cell(q).flags.has(WIDE_CHAR));
            let r = right_of(q);
            assert(self.grid.has_point(r));
            lemma_flag_bits(self.grid.cell(r).flags.bits);
        }
    }

    /// A line feed leaves every wide character with its spacer.
    pub proof fn law_line_feed_keeps_spacing(self, post: TermView)
        requires
            self.wf(),
            post.grid.storage.wf(),
            self.wide_spaced(),
            self.line_fed_to(post),
        ensures
            post.wide_spaced(),
    {
        if self.grid.cursor.line.0 + 1 >= self.grid.screen_lines() {
            assert forall|q: Point| #[trigger]
                post.grid.has_point(q) && post.grid.cell(q).flags.has(WIDE_CHAR) implies q.column.0
                + 1 < post.grid.columns && is_wide_spacer(post.grid.cell(right_of(q))) by {
                let offset = post.grid.storage.offset_of(q.line.0 as int);
                lemma_flag_bits(0);
                if offset == 0 {
                    assert(post.grid.storage.ring[0].is_blank(self.grid.columns));
                    assert(post.grid.cell(q) == Cell::spec_blank());
                } else {
                    assert(post.grid.storage.ring[offset] == self.grid.storage.ring[offset - 1]);
                    let before = Point { line: Line((q.line.0 + 1) as i32), column: q.column };
                    assert(self.grid.has_point(before));
                    assert(self.grid.cell(before) == post.grid.cell(q));
                    assert(self.grid.has_point(right_of(before)));
                    assert(self.grid.cell(right_of(before)) == post.grid.cell(right_of(q)));
                }
            }
        } else {
            assert forall|q: Point| #[trigger]
                post.grid.has_point(q) && post.grid.cell(q).flags.has(WIDE_CHAR) implies q.column.0
                + 1 < post.grid.columns && is_wide_spacer(post.grid.cell(right_of(q))) by {
                assert(self.grid.has_point(q));
                assert(self.grid.cell(q) == post.grid.cell(q));
                assert(self.grid.cell(right_of(q)) == post.grid.cell(right_of(q)));
            }
        }
    }
}

impl Term {
    /// Writes the glyph `c` with the flags `bits` at the cursor, in the
    /// default colors.
    pub fn write_at_cursor(&mut self, c: char, bits: u16)
        requires
            old(self).wf(),
        ensures
            final(self).wf(),
            old(self)@.written_to(final(self)@, c, bits),
    {
        proof {
            self.lemma_wf();
        }
        let ghost pre = self@;
        let p: Point = self.grid().cursor();
        let columns: usize = self.grid().columns();
        let was_wide: bool = self.grid().cell(p).flags.contains(WIDE_CHAR);
        if p.column.0 > 0 {
            let left: Point = Point { line: p.line, column: Column(p.column.0 - 1) };
            if self.grid().cell(left).flags.contains(WIDE_CHAR) {
                let cell = self.grid_mut().cell_mut(left);
                cell.c = ' ';
                cell.flags.remove(WIDE_CHAR);
                cell.extra = None;
            }
        }
        let ghost first = self@;
        if was_wide && p.column.0 + 1 < columns {
            let right: Point = Point { line: p.line, column: Column(p.column.0 + 1) };
            let cell = self.grid_mut().cell_mut(right);
            cell.flags.remove(WIDE_CHAR_SPACER);
        }
        let ghost second = self@;
        self.grid_mut().set_cell(
            p,
            Cell {
                c,
                fg: Color::Named(NamedColor::Foreground),
                bg: Color::Named(NamedColor::Background),
                flags: Flags::from_bits(bits),
                extra: None,
            },
        );
        proof {
            assert forall|q: Point| #[trigger] pre.grid.has_point(q) implies self@.grid.cell(q)
                == pre.written_cell(c, bits, q) by {
                assert(first.grid.has_point(q));
                assert(second.grid.has_point(q));
                if q != p {
                    assert(self@.grid.cell(q) == second.grid.cell(q));
                }
            }
        }
    }

    /// Writes the wide character `c` at the cursor and its spacer to the
    /// right of it.
    pub fn write_wide_at_cursor(&mut self, c: char)
        requires
            old(self).wf(),
            old(self)@.grid.cursor.column.0 + 1 < old(self)@.grid.columns,
        ensures
            final(self).wf(),
            old(self)@.wide_written_to(final(self)@, c),
    {
        proof {
            self.lemma_wf();
        }
        let ghost pre = self@;
        let p: Point = self.grid().cursor();
        let columns: usize = self.grid().columns();
        let right: Point = Point { line: p.line, column: Column(p.column.0 + 1) };
        let right_was_wide: bool = self.grid().cell(right).flags.contains(WIDE_CHAR);
        if p.column.0 > 0 {
            let left: Point = Point { line: p.line, column: Column(p.column.0 - 1) };
            if self.grid().cell(left).flags.contains(WIDE_CHAR) {
                let cell = self.grid_mut().cell_mut(left);
                cell.c = ' ';
                cell.flags.remove(WIDE_CHAR);
                cell.extra = None;
            }
        }
        let ghost first = self@;
        if right_was_wide && p.column.0 + 2 < columns {
            let beyond: Point = Point { line: p.line, column: Column(p.column.0 + 2) };
            let cell = self.grid_mut().cell_mut(beyond);
            cell.flags.remove(WIDE_CHAR_SPACER);
        }
        let ghost second = self@;
        self.grid_mut().set_cell(
            p,
            Cell {
                c,
                fg: Color::Named(NamedColor::Foreground),
                bg: Color::Named(NamedColor::Background),
                flags: Flags::from_bits(WIDE_CHAR),
                extra: None,
            },
        );
        let ghost third = self@;
        self.grid_mut().set_cell(
            right,
            Cell {
                c: ' ',
                fg: Color::Named(NamedColor::Foreground),
                bg: Color::Named(NamedColor::Background),
                flags: Flags::from_bits(WIDE_CHAR_SPACER),
                extra: None,
            },
        );
        proof {
            assert forall|q: Point| #[trigger] pre.grid.has_point(q) implies self@.grid.cell(q)
                == pre.wide_written_cell(c, q) by {
                assert(first.grid.has_point(q));
                assert(second.grid.has_point(q));
                assert(third.grid.has_point(q));
                if q != right {
                    assert(self@.grid.cell(q) == third.grid.cell(q));
                    if q != p {
                        assert(third.grid.cell(q) == second.grid.cell(q));
                    }
                }
            }
        }
    }

    /// Moves the cursor to `point` of the viewport.
    pub fn goto(&mut self, point: Point)
        requires
            old(self).wf(),
            0 <= point.line.0 < old(self)@.grid.screen_lines(),
            point.column.0 < old(self)@.grid.columns,
        ensures
            final(self).wf(),
            final(self)@ == (TermView { input_needs_wrap: false, ..old(self)@.with_cursor(point) }),
    {
        self.grid_mut().set_cursor(point);
        self.set_input_needs_wrap(false);
    }

    /// Moves the cursor to the start of its line.
    pub fn carriage_return(&mut self)
        requires
            old(self).wf(),
        ensures
            final(self).wf(),
            final(self)@ == old(self)@.carriage_returned(),
    {
        proof {
            self.lemma_wf();
        }
        let cursor: Point = self.grid().cursor();
        self.grid_mut().set_cursor(Point { line: cursor.line, column: Column(0) });
        self.set_input_needs_wrap(false);
    }

    /// Moves the cursor down a line; on the last line, scrolls the viewport
    /// up by a line.
    pub fn linefeed(&mut self)
        requires
            old(self).wf(),
        ensures
            final(self).wf(),
            old(self)@.line_fed_to(final(self)@),
    {
        proof {
            self.lemma_wf();
        }
        let cursor: Point = self.grid().cursor();
        let lines: usize = self.grid().screen_lines();
        if cursor.line.0 as i64 + 1 < lines as i64 {
            self.grid_mut().set_cursor(Point { line: Line(cursor.line.0 + 1), column: cursor.column });
        } else {
            self.grid_mut().scroll_up(1);
        }
    }

    /// Wraps the row of the cursor: marks it as going on in the next row
    /// and puts the cursor at the start of that row.
    pub fn wrapline(&mut self)
        requires
            old(self).wf(),
        ensures
            final(self).wf(),
            old(self)@.wrapped_to(final(self)@),
    {
        proof {
            self.lemma_wf();
        }
        let cursor: Point = self.grid().cursor();
        let columns: usize = self.grid().columns();
        let last: Point = Point { line: cursor.line, column: Column(columns - 1) };
        let cell = self.grid_mut().cell_mut(last);
        cell.set_wrap(true);
        let ghost marked = self@;
        proof {
            self.lemma_wf();
        }
        self.linefeed();
        let ghost fed = self@;
        proof {
            self.lemma_wf();
        }
        self.carriage_return();
        assert(old(self)@.wrap_steps(marked, fed));
    }

    /// Adds the combining character `c` to the cell it goes on.
    pub fn push_zerowidth(&mut self, c: char)
        requires
            old(self).wf(),
        ensures
            final(self).wf(),
            old(self)@.zerowidth_pushed_to(final(self)@, c),
    {
        proof {
            self.lemma_wf();
        }
        let p: Point = self.grid().cursor();
        let mut column: usize = if self.input_needs_wrap() || p.column.0 == 0 {
            p.column.0
        } else {
            p.column.0 - 1
        };
        if column > 0 && self.grid().cell(Point { line: p.line, column: Column(column) }).flags.contains(
            WIDE_CHAR_SPACER,
        ) {
            column -= 1;
        }
        let target: Point = Point { line: p.line, column: Column(column) };
        let cell = self.grid_mut().cell_mut(target);
        let mut extra: Option<CellExtra> = None;
        core::mem::swap(&mut extra, &mut cell.extra);
        match extra {
            Some(mut extra) => {
                extra.zerowidth.push(c);
                cell.extra = Some(extra);
            },
            None => {
                let mut zerowidth: Vec<char> = Vec::new();
                zerowidth.push(c);
                cell.extra = Some(CellExtra { zerowidth, underline_color: None, hyperlink: None });
            },
        }
    }

    /// Moves the cursor on behind a glyph.
    fn advance(&mut self)
        requires
            old(self).wf(),
        ensures
            final(self).wf(),
            final(self)@ == old(self)@.advanced(),
    {
        proof {
            self.lemma_wf();
        }
        let cursor: Point = self.grid().cursor();
        if cursor.column.0 + 1 < self.grid().columns() {
            self.grid_mut().set_cursor(Point { line: cursor.line, column: Column(cursor.column.0 + 1) });
        } else {
            self.set_input_needs_wrap(true);
        }
    }

    /// Types the character `c`: writes it at the cursor and moves the
    /// cursor on. Every wide character keeps its spacer.
    pub fn input(&mut self, c: char)
        requires
            old(self).wf(),
        ensures
            final(self).wf(),
            old(self)@.input_to(final(self)@, c),
            old(self)@.wide_spaced() ==> final(self)@.wide_spaced(),
    {
        proof {
            self.lemma_wf();
        }
        let width: usize = match char_width(c) {
            Some(width) => width,
            None => {
                return ;
            },
        };
        if width == 0 {
            self.push_zerowidth(c);
            proof {
                if old(self)@.wide_spaced() {
                    old(self)@.law_input_keeps_spacing(self@, c);
                }
            }
            return ;
        }
        if width >= 2 && self.grid().columns() < 2 {
            return ;
        }
        if self.input_needs_wrap() {
            self.wrapline();
        }
        let ghost wrapped = self@;
        proof {
            self.lemma_wf();
        }
        if width >= 2 {
            let cursor: Point = self.grid().cursor();
            if cursor.column.0 + 1 >= self.grid().columns() {
                self.write_at_cursor(' ', LEADING_WIDE_CHAR_SPACER);
                let ghost led = self@;
                proof {
                    self.lemma_wf();
                }
                self.wrapline();
                assert(wrapped.written_to(led, ' ', LEADING_WIDE_CHAR_SPACER) && led.wf()
                    && led.wrapped_to(self@));
            }
            let ghost roomy = self@;
            proof {
                self.lemma_wf();
            }
            self.write_wide_at_cursor(c);
            let ghost written = self@;
            proof {
                self.lemma_wf();
            }
            let cursor: Point = self.grid().cursor();
            self.grid_mut().set_cursor(Point { line: cursor.line, column: Column(cursor.column.0 + 1) });
            self.advance();
            assert(old(self)@.input_steps(wrapped, roomy, written, c, width));
        } else {
            self.write_at_cursor(c, 0);
            let ghost written = self@;
            proof {
                self.lemma_wf();
            }
            self.advance();
            assert(old(self)@.input_steps(wrapped, wrapped, written, c, width));
        }
        proof {
            if old(self)@.wide_spaced() {
                old(self)@.law_input_keeps_spacing(self@, c);
            }
        }
    }
}

} // verus!

//! Damage: the parts of the screen that have changed since the last frame.

use vstd::prelude::*;

use crate::content::ViewportPoint;
use crate::index::Point;

verus! {

/// A rectangle of pixels; `x` and `y` are its lower left corner.
#[derive(Debug, Clone, Copy, PartialEq, Eq, Structural)]
pub struct Rect {
    pub x: i32,
    pub y: i32,
    pub width: i32,
    pub height: i32,
}

/// The columns of one line that have changed, from `left` to `right`. A
/// line with `left` behind `right` has not changed.
#[derive(Debug, Clone, Copy, PartialEq, Eq, Structural)]
pub struct LineDamageBounds {
    pub line: usize,
    pub left: usize,
    pub right: usize,
}

/// Sizes of the window and of its cells, in pixels.
#[derive(Debug, Clone, Copy, PartialEq, Eq, Structural)]
pub struct SizeInfo {
    pub width: u32,
    pub height: u32,
    pub cell_width: u32,
    pub cell_height: u32,
    pub padding_x: u32,
    pub padding_y: u32,
}

/// The cells of a selection.
#[derive(Debug, Clone, Copy, PartialEq, Eq, Structural)]
pub struct SelectionRange {
    pub start: Point,
    pub end: Point,
    pub is_block: bool,
}

impl Rect {
    pub fn new(x: i32, y: i32, width: i32, height: i32) -> (r: Rect)
        ensures
            r == (Rect { x, y, width, height }),
    {
        Rect { x, y, width, height }
    }

    /// Whether the rectangle lies among the pixels that an `i32` counts: it
    /// starts at no negative place, has no negative size, and ends within
    /// the range.
    pub open spec fn is_valid(self) -> bool {
        &&& 0 <= self.x
        &&& 0 <= self.y
        &&& 0 <= self.width
        &&& 0 <= self.height
        &&& self.x + self.width <= i32::MAX
        &&& self.y + self.height <= i32::MAX
    }

    /// Whether the pixel at `(px, py)` is within the rectangle or on its
    /// edge.
    pub open spec fn covers(self, px: int, py: int) -> bool {
        self.x <= px <= self.x + self.width && self.y <= py <= self.y + self.height
    }

    /// Whether the rectangles overlap or touch.
    pub open spec fn overlaps(self, rhs: Rect) -> bool {
        !(self.x + self.width < rhs.x || rhs.x + rhs.width < self.x || self.y + self.height < rhs.y
            || rhs.y + rhs.height < self.y)
    }

    /// The smallest rectangle that holds both.
    pub open spec fn merged(self, rhs: Rect) -> Rect {
        let left = if self.x <= rhs.x {
            self.x
        } else {
            rhs.x
        };
        let right = if self.x + self.width >= rhs.x + rhs.width {
            self.x + self.width
        } else {
            rhs.x + rhs.width
        };
        let bottom = if self.y <= rhs.y {
            self.y
        } else {
            rhs.y
        };
        let top = if self.y + self.height >= rhs.y + rhs.height {
            self.y + self.height
        } else {
            rhs.y + rhs.height
        };
        Rect {
            x: left as i32,
            y: bottom as i32,
            width: (right - left) as i32,
            height: (top - bottom) as i32,
        }
    }

    /// A merged rectangle covers what either rectangle covers.
    pub proof fn law_merged_covers(self, rhs: Rect, px: int, py: int)
        requires
            self.is_valid(),
            rhs.is_valid(),
            self.covers(px, py) || rhs.covers(px, py),
        ensures
            self.merged(rhs).covers(px, py),
            self.merged(rhs).is_valid(),
    {
    }
}

/// Whether two rectangles overlap or touch.
pub fn rects_overlap(lhs: Rect, rhs: Rect) -> (r: bool)
    ensures
        r == lhs.overlaps(rhs),
{
    let lhs_right: i64 = lhs.x as i64 + lhs.width as i64;
    let rhs_right: i64 = rhs.x as i64 + rhs.width as i64;
    let lhs_top: i64 = lhs.y as i64 + lhs.height as i64;
    let rhs_top: i64 = rhs.y as i64 + rhs.height as i64;
    !(lhs_right < rhs.x as i64 || rhs_right < lhs.x as i64 || lhs_top < rhs.y as i64 || rhs_top
        < lhs.y as i64)
}

/// The smallest rectangle that holds both `lhs` and `rhs`.
pub fn merge_rects(lhs: Rect, rhs: Rect) -> (r: Rect)
    requires
        lhs.is_valid(),
        rhs.is_valid(),
    ensures
        r == lhs.merged(rhs),
        r.is_valid(),
{
    let left_x: i32 = if lhs.x <= rhs.x {
        lhs.x
    } else {
        rhs.x
    };
    let right_x: i32 = if lhs.x + lhs.width >= rhs.x + rhs.width {
        lhs.x + lhs.width
    } else {
        rhs.x + rhs.width
    };
    let y_top: i32 = if lhs.y + lhs.height >= rhs.y + rhs.height {
        lhs.y + lhs.height
    } else {
        rhs.y + rhs.height
    };
    let y_bottom: i32 = if lhs.y <= rhs.y {
        lhs.y
    } else {
        rhs.y
    };
    Rect { x: left_x, y: y_bottom, width: right_x - left_x, height: y_top - y_bottom }
}

impl LineDamageBounds {
    pub fn new(line: usize, left: usize, right: usize) -> (b: LineDamageBounds)
        ensures
            b == (LineDamageBounds { line, left, right }),
    {
        LineDamageBounds { line, left, right }
    }

    /// The bounds of a line of `num_cols` columns that has not changed.
    pub open spec fn spec_undamaged(line: usize, num_cols: usize) -> LineDamageBounds {
        LineDamageBounds { line, left: num_cols, right: 0 }
    }

    /// The bounds of a line of `num_cols` columns that has not changed.
    pub fn undamaged(line: usize, num_cols: usize) -> (b: LineDamageBounds)
        ensures
            b == Self::spec_undamaged(line, num_cols),
    {
        LineDamageBounds { line, left: num_cols, right: 0 }
    }

    pub open spec fn spec_is_damaged(self) -> bool {
        self.left <= self.right
    }

    /// Whether a column of the line has changed.
    pub fn is_damaged(&self) -> (r: bool)
        ensures
            r == self.spec_is_damaged(),
    {
        self.left <= self.right
    }

    /// The bounds that reach over these and over the columns from `left` to
    /// `right`.
    pub open spec fn expanded(self, left: usize, right: usize) -> LineDamageBounds {
        LineDamageBounds {
            line: self.line,
            left: if left < self.left {
                left
            } else {
                self.left
            },
            right: if right > self.right {
                right
            } else {
                self.right
            },
        }
    }

    /// Takes the columns from `left` to `right` into the bounds.
    pub fn expand(&mut self, left: usize, right: usize)
        ensures
            *final(self) == old(self).expanded(left, right),
    {
        if left < self.left {
            self.left = left;
        }
        if right > self.right {
            self.right = right;
        }
    }
}

impl SizeInfo {
    /// Whether the rectangle of the damaged line `damage` can be computed:
    /// the line is damaged, it lies within the window below and beside the
    /// padding, and the window's pixels are counted by an `i32`.
    pub open spec fn fits(self, damage: LineDamageBounds) -> bool {
        &&& damage.left <= damage.right
        &&& self.padding_y <= self.height
        &&& (damage.line + 1) * self.cell_height <= self.height - self.padding_y
        &&& self.padding_x + (damage.right + 1) * self.cell_width <= self.width
        &&& self.height <= i32::MAX
        &&& self.width <= i32::MAX
        &&& self.cell_height <= i32::MAX
    }

    /// The rectangle of the columns `damage` on their line. Lines are
    /// counted from the top, pixels from the bottom.
    pub open spec fn spec_rect_for_line(self, damage: LineDamageBounds) -> Rect {
        Rect {
            x: (self.padding_x + damage.left * self.cell_width) as i32,
            y: (self.height - self.padding_y - (damage.line + 1) * self.cell_height) as i32,
            width: ((damage.right - damage.left + 1) * self.cell_width) as i32,
            height: self.cell_height as i32,
        }
    }

    /// `rect` grown by a cell's width to either side and by half a cell's
    /// height downwards, within the window, so that it reaches over wide
    /// characters next to it.
    pub open spec fn spec_overdamage(self, rect: Rect) -> Rect {
        let x = if rect.x - self.cell_width >= 0 {
            rect.x - self.cell_width
        } else {
            0
        };
        let y = if rect.y - self.cell_height / 2 >= 0 {
            rect.y - self.cell_height / 2
        } else {
            0
        };
        Rect {
            x: x as i32,
            y: y as i32,
            width: (if self.width - x <= rect.width + 2 * self.cell_width {
                self.width - x
            } else {
                rect.width + 2 * self.cell_width
            }) as i32,
            height: (if self.height - y <= rect.height + self.cell_height {
                self.height - y
            } else {
                rect.height + self.cell_height
            }) as i32,
        }
    }

    /// The damage of the line `damage` as it is given out.
    pub open spec fn line_rect(self, damage: LineDamageBounds) -> Rect {
        self.spec_overdamage(self.spec_rect_for_line(damage))
    }

    /// Whether the rectangle of every line of `lines` can be computed.
    pub open spec fn fits_all(self, lines: Seq<LineDamageBounds>) -> bool {
        forall|i: int| 0 <= i < lines.len() ==> self.fits(#[trigger] lines[i])
    }

    /// The lines of `lines` that are damaged and whose rectangle can be
    /// computed.
    pub open spec fn damaged_lines(self, lines: Seq<LineDamageBounds>) -> Seq<LineDamageBounds>
        decreases lines.len(),
    {
        if lines.len() == 0 {
            Seq::empty()
        } else if self.fits(lines.last()) {
            self.damaged_lines(lines.drop_last()).push(lines.last())
        } else {
            self.damaged_lines(lines.drop_last())
        }
    }

    /// Whether the rectangle of the damaged line `damage` can be computed.
    pub fn line_fits(&self, damage: LineDamageBounds) -> (r: bool)
        ensures
            r == self.fits(damage),
    {
        if !(damage.left <= damage.right && self.padding_y <= self.height && self.height
            <= i32::MAX as u32 && self.width <= i32::MAX as u32 && self.cell_height
            <= i32::MAX as u32) {
            return false;
        }
        let line: u128 = damage.line as u128 + 1;
        let right: u128 = damage.right as u128 + 1;
        assert(line * (self.cell_height as u128) <= 0x1_0000_0000_0000_0000 * 0x1_0000_0000)
            by (nonlinear_arith)
            requires
                line <= 0x1_0000_0000_0000_0000,
                self.cell_height < 0x1_0000_0000,
        ;
        assert(right * (self.cell_width as u128) <= 0x1_0000_0000_0000_0000 * 0x1_0000_0000)
            by (nonlinear_arith)
            requires
                right <= 0x1_0000_0000_0000_0000,
                self.cell_width < 0x1_0000_0000,
        ;
        let below: u128 = line * (self.cell_height as u128);
        let beside: u128 = self.padding_x as u128 + right * (self.cell_width as u128);
        below <= (self.height - self.padding_y) as u128 && beside <= self.width as u128
    }

    /// The rectangle of the columns `damage` on their line.
    pub fn rect_for_line(&self, damage: LineDamageBounds) -> (r: Rect)
        requires
            self.fits(damage),
        ensures
            r == self.spec_rect_for_line(damage),
            r.is_valid(),
            r.x + r.width <= self.padding_x + (damage.right + 1) * self.cell_width,
    {
        let cell_width: u64 = self.cell_width as u64;
        let cell_height: u64 = self.cell_height as u64;
        proof {
            let span = (damage.right + 1) * self.cell_width;
            assert(damage.left * self.cell_width <= span) by (nonlinear_arith)
                requires
                    damage.left <= damage.right,
                    span == (damage.right + 1) * self.cell_width,
            ;
            assert((damage.right - damage.left + 1) * self.cell_width + damage.left
                * self.cell_width == span) by (nonlinear_arith)
                requires
                    damage.left <= damage.right,
                    span == (damage.right + 1) * self.cell_width,
            ;
            assert(damage.right + 1 <= i32::MAX || self.cell_width == 0) by (nonlinear_arith)
                requires
                    (damage.right + 1) * self.cell_width <= i32::MAX,
            ;
            assert(damage.line + 1 <= i32::MAX || self.cell_height == 0) by (nonlinear_arith)
                requires
                    (damage.line + 1) * self.cell_height <= i32::MAX,
            ;
            assert((damage.line + 1) * self.cell_height >= self.cell_height) by (nonlinear_arith);
        }
        if cell_width == 0 {
            assert(damage.left * self.cell_width == 0) by (nonlinear_arith)
                requires
                    self.cell_width == 0,
            ;
            assert((damage.right - damage.left + 1) * self.cell_width == 0) by (nonlinear_arith)
                requires
                    self.cell_width == 0,
            ;
        }
        if cell_height == 0 {
            assert((damage.line + 1) * self.cell_height == 0) by (nonlinear_arith)
                requires
                    self.cell_height == 0,
            ;
        }
        let x: u64 = if cell_width == 0 {
            self.padding_x as u64
        } else {
            self.padding_x as u64 + damage.left as u64 * cell_width
        };
        let below: u64 = if cell_height == 0 {
            0
        } else {
            (damage.line as u64 + 1) * cell_height
        };
        let y: u64 = self.height as u64 - self.padding_y as u64 - below;
        let width: u64 = if cell_width == 0 {
            0
        } else {
            (damage.right as u64 - damage.left as u64 + 1) * cell_width
        };
        Rect { x: x as i32, y: y as i32, width: width as i32, height: self.cell_height as i32 }
    }

    /// `rect` grown by a cell's width to either side and by half a cell's
    /// height downwards, within the window.
    pub fn overdamage(&self, rect: Rect) -> (r: Rect)
        requires
            rect.is_valid(),
            self.width <= i32::MAX,
            self.height <= i32::MAX,
            self.cell_width <= i32::MAX,
            self.cell_height <= i32::MAX,
            rect.x - self.cell_width <= self.width,
            rect.y - self.cell_height / 2 <= self.height,
        ensures
            r == self.spec_overdamage(rect),
            r.is_valid(),
    {
        let cell_width: i64 = self.cell_width as i64;
        let cell_height: i64 = self.cell_height as i64;
        let x: i64 = if rect.x as i64 - cell_width >= 0 {
            rect.x as i64 - cell_width
        } else {
            0
        };
        let y: i64 = if rect.y as i64 - cell_height / 2 >= 0 {
            rect.y as i64 - cell_height / 2
        } else {
            0
        };
        let width: i64 = if self.width as i64 - x <= rect.width as i64 + 2 * cell_width {
            self.width as i64 - x
        } else {
            rect.width as i64 + 2 * cell_width
        };
        let height: i64 = if self.height as i64 - y <= rect.height as i64 + cell_height {
            self.height as i64 - y
        } else {
            rect.height as i64 + cell_height
        };
        Rect { x: x as i32, y: y as i32, width: width as i32, height: height as i32 }
    }
}

/// Damage of one frame.
#[derive(Debug)]
pub struct FrameDamage {
    /// Whether the whole frame is drawn anew.
    full: bool,
    /// The damage of each line.
    lines: Vec<LineDamageBounds>,
    /// Rectangles that are damaged besides the lines.
    rects: Vec<Rect>,
}

/// What a [`FrameDamage`] holds.
pub struct FrameDamageView {
    pub full: bool,
    pub lines: Seq<LineDamageBounds>,
    pub rects: Seq<Rect>,
}

impl FrameDamageView {
    /// The damage after the cursor has written from `from` to `to`: on one
    /// line, the columns between the two; else, or where the line is none
    /// of the frame's, the whole frame.
    pub open spec fn written(self, from: ViewportPoint, to: ViewportPoint) -> FrameDamageView {
        if from.line == to.line && from.line < self.lines.len() {
            let (left, right) = if from.column.0 <= to.column.0 {
                (from.column.0, to.column.0)
            } else {
                (to.column.0, from.column.0)
            };
            FrameDamageView {
                lines: self.lines.update(
                    from.line as int,
                    self.lines[from.line as int].expanded(left, right),
                ),
                ..self
            }
        } else {
            FrameDamageView { full: true, ..self }
        }
    }

    /// The damage of a frame of `num_lines` lines of `num_cols` columns of
    /// which nothing has changed.
    pub open spec fn clean(num_lines: nat, num_cols: usize) -> FrameDamageView {
        FrameDamageView {
            full: false,
            lines: Seq::new(
                num_lines,
                |i: int| LineDamageBounds::spec_undamaged(i as usize, num_cols),
            ),
            rects: Seq::empty(),
        }
    }
}

impl View for FrameDamage {
    type V = FrameDamageView;

    closed spec fn view(&self) -> FrameDamageView {
        FrameDamageView { full: self.full, lines: self.lines@, rects: self.rects@ }
    }
}

impl FrameDamage {
    /// A frame without lines and without damage.
    pub fn empty() -> (frame: FrameDamage)
        ensures
            frame@ == FrameDamageView::clean(0, 0),
    {
        let frame = FrameDamage { full: false, lines: Vec::new(), rects: Vec::new() };
        assert(frame@.lines =~= FrameDamageView::clean(0, 0).lines);
        frame
    }

    /// Marks the whole frame as damaged.
    pub fn mark_fully_damaged(&mut self)
        ensures
            final(self)@ == (FrameDamageView { full: true, ..old(self)@ }),
    {
        self.full = true;
    }

    /// Whether the whole frame is drawn anew.
    pub fn is_fully_damaged(&self) -> (r: bool)
        ensures
            r == self@.full,
    {
        self.full
    }

    /// The damage of each line.
    pub fn lines(&self) -> (lines: &Vec<LineDamageBounds>)
        ensures
            lines@ == self@.lines,
    {
        &self.lines
    }

    /// The rectangles that are damaged besides the lines.
    pub fn rects(&self) -> (rects: &Vec<Rect>)
        ensures
            rects@ == self@.rects,
    {
        &self.rects
    }

    /// Takes the columns from `left` to `right` of line `line` into the
    /// damage. The line's bounds only grow.
    pub fn damage_line(&mut self, line: usize, left: usize, right: usize)
        requires
            line < old(self)@.lines.len(),
        ensures
            final(self)@ == (FrameDamageView {
                lines: old(self)@.lines.update(
                    line as int,
                    old(self)@.lines[line as int].expanded(left, right),
                ),
                ..old(self)@
            }),
    {
        let mut bounds: LineDamageBounds = self.lines[line];
        bounds.expand(left, right);
        self.lines[line] = bounds;
    }

    /// Takes what the cursor has written on its way from `from` to `to`
    /// into the damage.
    pub fn damage_written(&mut self, from: ViewportPoint, to: ViewportPoint)
        ensures
            final(self)@ == old(self)@.written(from, to),
    {
        if from.line == to.line && from.line < self.lines.len() {
            if from.column.0 <= to.column.0 {
                self.damage_line(from.line, from.column.0, to.column.0);
            } else {
                self.damage_line(from.line, to.column.0, from.column.0);
            }
        } else {
            self.mark_fully_damaged();
        }
    }

    /// Adds a damaged rectangle.
    pub fn add_rect(&mut self, rect: Rect)
        ensures
            final(self)@ == (FrameDamageView {
                rects: old(self)@.rects.push(rect),
                ..old(self)@
            }),
    {
        self.rects.push(rect);
    }

    /// Clears the damage: the frame has `num_lines` lines of `num_cols`
    /// columns, none of which has changed.
    pub fn reset(&mut self, num_lines: usize, num_cols: usize)
        ensures
            final(self)@ == FrameDamageView::clean(num_lines as nat, num_cols),
    {
        self.full = false;
        self.rects.clear();
        self.lines.clear();
        let mut line: usize = 0;
        while line < num_lines
            invariant
                line <= num_lines,
                !self.full,
                self.rects@.len() == 0,
                self.lines@.len() == line,
                forall|i: int|
                    0 <= i < line ==> #[trigger] self.lines@[i] == LineDamageBounds::spec_undamaged(
                        i as usize,
                        num_cols,
                    ),
            decreases num_lines - line,
        {
            self.lines.push(LineDamageBounds::undamaged(line, num_cols));
            line += 1;
        }
        assert(self.lines@ =~= FrameDamageView::clean(num_lines as nat, num_cols).lines);
        assert(self.rects@ =~= Seq::<Rect>::empty());
    }
}

/// The damage of the frame that is drawn and of the one before it.
#[derive(Debug)]
pub struct DamageTracker {
    /// Where the vi mode cursor was drawn last.
    pub old_vi_cursor: Option<ViewportPoint>,
    /// Where the selection was drawn last.
    pub old_selection: Option<SelectionRange>,
    /// Whether the damage is shown on screen.
    pub debug: bool,
    current: FrameDamage,
    previous: FrameDamage,
    screen_lines: usize,
    columns: usize,
}

/// The mathematical model of a [`DamageTracker`].
pub struct DamageTrackerView {
    pub old_vi_cursor: Option<ViewportPoint>,
    pub old_selection: Option<SelectionRange>,
    pub debug: bool,
    pub frame: FrameDamageView,
    pub previous: FrameDamageView,
    pub screen_lines: usize,
    pub columns: usize,
}

impl View for DamageTracker {
    type V = DamageTrackerView;

    closed spec fn view(&self) -> DamageTrackerView {
        DamageTrackerView {
            old_vi_cursor: self.old_vi_cursor,
            old_selection: self.old_selection,
            debug: self.debug,
            frame: self.current@,
            previous: self.previous@,
            screen_lines: self.screen_lines,
            columns: self.columns,
        }
    }
}

impl DamageTracker {
    /// A tracker for a screen of `screen_lines` lines of `columns` columns,
    /// whose first frame is drawn in full.
    pub fn new(screen_lines: usize, columns: usize) -> (tracker: DamageTracker)
        ensures
            tracker@.screen_lines == screen_lines,
            tracker@.columns == columns,
            tracker@.frame == (FrameDamageView {
                full: true,
                ..FrameDamageView::clean(screen_lines as nat, columns)
            }),
            tracker@.previous == FrameDamageView::clean(screen_lines as nat, columns),
            tracker@.old_vi_cursor is None,
            tracker@.old_selection is None,
            !tracker@.debug,
    {
        let mut tracker = DamageTracker {
            columns,
            screen_lines,
            debug: false,
            old_vi_cursor: None,
            old_selection: None,
            current: FrameDamage::empty(),
            previous: FrameDamage::empty(),
        };
        tracker.resize(screen_lines, columns);
        tracker
    }

    /// The damage of the frame that is drawn.
    pub fn frame(&mut self) -> (frame: &mut FrameDamage)
        ensures
            frame@ == old(self)@.frame,
            final(self)@ == (DamageTrackerView { frame: final(frame)@, ..old(self)@ }),
    {
        &mut self.current
    }

    /// The damage of the frame that is drawn, to read it.
    pub fn current(&self) -> (frame: &FrameDamage)
        ensures
            frame@ == self@.frame,
    {
        &self.current
    }

    /// Goes on to the next frame: the damage of the frame before the last
    /// becomes the damage of the frame that is drawn, and the damage of the
    /// last frame is cleared. Damage has to be read before.
    pub fn swap_damage(&mut self)
        ensures
            final(self)@ == (DamageTrackerView {
                frame: old(self)@.previous,
                previous: FrameDamageView::clean(
                    old(self)@.screen_lines as nat,
                    old(self)@.columns,
                ),
                ..old(self)@
            }),
    {
        self.current.reset(self.screen_lines, self.columns);
        core::mem::swap(&mut self.current, &mut self.previous);
    }

    /// Takes a new size of the screen: the damage of both frames is
    /// cleared, and the frame that is drawn is drawn in full.
    pub fn resize(&mut self, screen_lines: usize, columns: usize)
        ensures
            final(self)@ == (DamageTrackerView {
                frame: FrameDamageView {
                    full: true,
                    ..FrameDamageView::clean(screen_lines as nat, columns)
                },
                previous: FrameDamageView::clean(screen_lines as nat, columns),
                screen_lines,
                columns,
                ..old(self)@
            }),
    {
        self.screen_lines = screen_lines;
        self.columns = columns;
        self.current.reset(screen_lines, columns);
        self.previous.reset(screen_lines, columns);
        self.current.mark_fully_damaged();
    }
}

/// Gives the damaged rectangles for the damaged lines of a frame, merging
/// the rectangles of lines that overlap or touch.
#[derive(Debug)]
pub struct RenderDamageIterator {
    damaged_lines: Vec<LineDamageBounds>,
    /// Index of the next line.
    position: usize,
    size_info: SizeInfo,
}

/// The mathematical model of a [`RenderDamageIterator`].
pub struct RenderDamageView {
    /// The damaged lines that are left.
    pub lines: Seq<LineDamageBounds>,
    pub size_info: SizeInfo,
}

impl RenderDamageView {
    /// Number of lines, from the first line left on, whose rectangles are
    /// merged into one.
    pub open spec fn run_len(self, from: int, current: Rect) -> int
        decreases self.lines.len() - from,
    {
        if from >= self.lines.len() || from < 0 {
            from
        } else {
            let next = self.size_info.line_rect(self.lines[from]);
            if current.overlaps(next) {
                self.run_len(from + 1, current.merged(next))
            } else {
                from
            }
        }
    }

    /// The rectangle that the lines from `from` on are merged into, where
    /// `current` is what the lines before have been merged to.
    pub open spec fn run_rect(self, from: int, current: Rect) -> Rect
        decreases self.lines.len() - from,
    {
        if from >= self.lines.len() || from < 0 {
            current
        } else {
            let next = self.size_info.line_rect(self.lines[from]);
            if current.overlaps(next) {
                self.run_rect(from + 1, current.merged(next))
            } else {
                current
            }
        }
    }

    /// The next rectangle, and the iterator after it.
    pub open spec fn next(self) -> (Option<Rect>, RenderDamageView) {
        if self.lines.len() == 0 {
            (None, self)
        } else {
            let first = self.size_info.line_rect(self.lines[0]);
            (
                Some(self.run_rect(1, first)),
                RenderDamageView {
                    lines: self.lines.subrange(self.run_len(1, first), self.lines.len() as int),
                    size_info: self.size_info,
                },
            )
        }
    }
}

impl View for RenderDamageIterator {
    type V = RenderDamageView;

    closed spec fn view(&self) -> RenderDamageView {
        RenderDamageView {
            lines: if self.position <= self.damaged_lines@.len() {
                self.damaged_lines@.subrange(self.position as int, self.damaged_lines@.len() as int)
            } else {
                Seq::empty()
            },
            size_info: self.size_info,
        }
    }
}

impl RenderDamageIterator {
    /// The invariant of the representation.
    pub closed spec fn wf(&self) -> bool {
        self.position <= self.damaged_lines@.len() && self.size_info.fits_all(self.damaged_lines@)
    }

    /// The iterator over the damaged lines `damaged_lines` of a window of
    /// the sizes `size_info`.
    pub fn new(damaged_lines: Vec<LineDamageBounds>, size_info: SizeInfo) -> (iter:
        RenderDamageIterator)
        requires
            size_info.fits_all(damaged_lines@),
        ensures
            iter.wf(),
            iter@ == (RenderDamageView { lines: damaged_lines@, size_info }),
    {
        let iter = RenderDamageIterator { damaged_lines, position: 0, size_info };
        assert(iter@.lines =~= damaged_lines@);
        iter
    }

    /// The iterator over the lines of `frame` that are damaged and lie
    /// within a window of the sizes `size_info`.
    pub fn for_frame(frame: &FrameDamage, size_info: SizeInfo) -> (iter: RenderDamageIterator)
        ensures
            iter.wf(),
            iter@ == (RenderDamageView {
                lines: size_info.damaged_lines(frame@.lines),
                size_info,
            }),
    {
        let mut damaged: Vec<LineDamageBounds> = Vec::new();
        let mut i: usize = 0;
        assert(frame.lines@.take(0) =~= Seq::<LineDamageBounds>::empty());
        while i < frame.lines.len()
            invariant
                i <= frame.lines@.len(),
                damaged@ == size_info.damaged_lines(frame.lines@.take(i as int)),
                size_info.fits_all(damaged@),
            decreases frame.lines@.len() - i,
        {
            let line: LineDamageBounds = frame.lines[i];
            assert(frame.lines@.take(i + 1).drop_last() =~= frame.lines@.take(i as int));
            assert(frame.lines@.take(i + 1).last() == line);
            if size_info.line_fits(line) {
                damaged.push(line);
            }
            i += 1;
        }
        assert(frame.lines@.take(frame.lines@.len() as int) =~= frame.lines@);
        RenderDamageIterator::new(damaged, size_info)
    }

    /// The damage of the line `damage` as it is given out.
    fn line_rect(&self, damage: LineDamageBounds) -> (r: Rect)
        requires
            self.size_info.fits(damage),
        ensures
            r == self.size_info.line_rect(damage),
            r.is_valid(),
    {
        proof {
            assert(self.size_info.cell_width <= (damage.right + 1) * self.size_info.cell_width)
                by (nonlinear_arith);
        }
        let rect = self.size_info.rect_for_line(damage);
        self.size_info.overdamage(rect)
    }

    /// The next damaged rectangle, if there is one.
    pub fn next(&mut self) -> (rect: Option<Rect>)
        requires
            old(self).wf(),
        ensures
            final(self).wf(),
            (rect, final(self)@) == old(self)@.next(),
    {
        if self.position >= self.damaged_lines.len() {
            return None;
        }
        let ghost pre = self@;
        let ghost start = self.position;
        let n: usize = self.damaged_lines.len();
        let mut total: Rect = self.line_rect(self.damaged_lines[self.position]);
        self.position += 1;
        assert(pre.lines[0] == self.damaged_lines@[start as int]);
        while self.position < n
            invariant
                start < self.position <= n,
                n == self.damaged_lines@.len(),
                self.damaged_lines@ == old(self).damaged_lines@,
                self.size_info == old(self).size_info,
                self.size_info.fits_all(self.damaged_lines@),
                pre.size_info == self.size_info,
                pre == old(self)@,
                pre.lines == self.damaged_lines@.subrange(start as int, n as int),
                total.is_valid(),
                pre.run_len(1, pre.size_info.line_rect(pre.lines[0])) == pre.run_len(
                    self.position - start,
                    total,
                ),
                pre.run_rect(1, pre.size_info.line_rect(pre.lines[0])) == pre.run_rect(
                    self.position - start,
                    total,
                ),
            decreases n - self.position,
        {
            let next_rect: Rect = self.line_rect(self.damaged_lines[self.position]);
            assert(pre.lines[self.position - start] == self.damaged_lines@[self.position as int]);
            if !rects_overlap(total, next_rect) {
                assert(self@.lines =~= pre.lines.subrange(
                    self.position - start,
                    pre.lines.len() as int,
                ));
                assert(pre.run_len(self.position - start, total) == self.position - start);
                assert(pre.run_rect(self.position - start, total) == total);
                return Some(total);
            }
            total = merge_rects(total, next_rect);
            self.position += 1;
        }
        assert(self@.lines =~= pre.lines.subrange(self.position - start, pre.lines.len() as int));
        Some(total)
    }

    /// All damaged rectangles that are left.
    pub fn collect(self) -> (rects: Vec<Rect>)
        requires
            self.wf(),
        ensures
            rects@ == self@.all(),
    {
        let mut iter = self;
        let mut rects: Vec<Rect> = Vec::new();
        loop
            invariant
                iter.wf(),
                self@.all() == rects@ + iter@.all(),
            decreases iter@.lines.len(),
        {
            let ghost before = rects@;
            let ghost state = iter@;
            proof {
                if state.lines.len() > 0 {
                    state.lemma_run_len(1, state.size_info.line_rect(state.lines[0]));
                }
            }
            match iter.next() {
                Some(rect) => {
                    rects.push(rect);
                    assert(before + (seq![rect] + iter@.all()) =~= rects@ + iter@.all());
                },
                None => {
                    assert(rects@ + state.all() =~= rects@);
                    return rects;
                },
            }
        }
    }
}

impl RenderDamageView {
    /// A run of merged lines ends behind the place where it began, within
    /// the lines.
    pub proof fn lemma_run_len(self, from: int, current: Rect)
        requires
            0 <= from <= self.lines.len(),
        ensures
            from <= self.run_len(from, current) <= self.lines.len(),
        decreases self.lines.len() - from,
    {
        if from < self.lines.len() {
            let next = self.size_info.line_rect(self.lines[from]);
            if current.overlaps(next) {
                self.lemma_run_len(from + 1, current.merged(next));
            }
        }
    }

    /// All rectangles that the iterator gives.
    pub open spec fn all(self) -> Seq<Rect>
        decreases self.lines.len(),
    {
        if self.lines.len() == 0 {
            Seq::empty()
        } else {
            let first = self.size_info.line_rect(self.lines[0]);
            let run = self.run_len(1, first);
            if 1 <= run <= self.lines.len() {
                seq![self.run_rect(1, first)] + (RenderDamageView {
                    lines: self.lines.subrange(run, self.lines.len() as int),
                    size_info: self.size_info,
                }).all()
            } else {
                seq![self.run_rect(1, first)]
            }
        }
    }
}

} // verus!

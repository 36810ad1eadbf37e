//! What is drawn of the terminal: the cells of the viewport that show
//! something, with their colors resolved, and the cursor.

use vstd::prelude::*;

use crate::cell::{
    Cell, Color, Flags, Hyperlink, NamedColor, ALL_UNDERLINES, BOLD, DIM, DIM_BOLD, INVERSE,
    STRIKEOUT, WIDE_CHAR, WIDE_CHAR_SPACER,
};
use crate::color::{CellRgb, List, Rgb, COUNT};
use crate::config::UiConfig;
use crate::hint::link_view;
use crate::index::{Column, Line, Point};
use crate::term::{Term, TermView};

verus! {

/// Flags that draw a line through or under a cell.
pub const LINE_FLAGS: u16 = 0x7a08;

/// The shape of the cursor.
#[derive(Debug, Clone, Copy, PartialEq, Eq, Structural)]
pub enum CursorShape {
    Block,
    Underline,
    Beam,
    HollowBlock,
    Hidden,
}

/// How much of the window's background shows through a cell's background.
#[derive(Debug, Clone, Copy, PartialEq, Eq, Structural)]
pub enum BgAlpha {
    /// The cell's background is not drawn.
    Transparent,
    /// The cell's background is drawn with the window's opacity.
    WindowOpacity,
    /// The cell's background is drawn in full.
    Opaque,
}

/// A cell position on the viewport; line 0 is its first line.
#[derive(Debug, Clone, Copy, PartialEq, Eq, Structural)]
pub struct ViewportPoint {
    pub line: usize,
    pub column: Column,
}

/// What few cells have: combining characters, a hyperlink.
#[derive(Debug)]
pub struct RenderableCellExtra {
    pub zerowidth: Option<Vec<char>>,
    pub hyperlink: Option<Hyperlink>,
}

/// A cell as it is drawn.
#[derive(Debug)]
pub struct RenderableCell {
    pub character: char,
    pub point: ViewportPoint,
    pub fg: Rgb,
    pub bg: Rgb,
    pub bg_alpha: BgAlpha,
    pub underline: Rgb,
    pub flags: Flags,
    pub extra: Option<RenderableCellExtra>,
}

/// What a [`RenderableCellExtra`] holds.
pub struct RenderableCellExtraView {
    pub zerowidth: Option<Seq<char>>,
    pub hyperlink: Option<(Seq<char>, Seq<char>)>,
}

/// What a [`RenderableCell`] holds.
pub struct RenderableCellView {
    pub character: char,
    pub point: ViewportPoint,
    pub fg: Rgb,
    pub bg: Rgb,
    pub bg_alpha: BgAlpha,
    pub underline: Rgb,
    pub flags: Flags,
    pub extra: Option<RenderableCellExtraView>,
}

impl View for RenderableCell {
    type V = RenderableCellView;

    open spec fn view(&self) -> RenderableCellView {
        RenderableCellView {
            character: self.character,
            point: self.point,
            fg: self.fg,
            bg: self.bg,
            bg_alpha: self.bg_alpha,
            underline: self.underline,
            flags: self.flags,
            extra: match self.extra {
                Some(extra) => Some(
                    RenderableCellExtraView {
                        zerowidth: match extra.zerowidth {
                            Some(chars) => Some(chars@),
                            None => None,
                        },
                        hyperlink: link_view(extra.hyperlink),
                    },
                ),
                None => None,
            },
        }
    }
}

/// The cursor as it is drawn.
#[derive(Debug, Eq, PartialEq, Copy, Clone, Structural)]
pub struct RenderableCursor {
    pub shape: CursorShape,
    pub cursor_color: Rgb,
    pub text_color: Rgb,
    pub is_wide: bool,
    pub point: ViewportPoint,
}

/// The colors that resolve a cell's colors: the configured palette, the
/// colors that the terminal's program has set in its place, and the
/// configuration.
pub struct Palette {
    pub list: Seq<Rgb>,
    pub overrides: Seq<Option<Rgb>>,
    pub config: UiConfig,
}

impl Palette {
    /// The color of slot `index`: the one that the terminal's program has
    /// set, else the configured one.
    pub open spec fn color(self, index: int) -> Rgb {
        match self.overrides[index] {
            Some(rgb) => rgb,
            None => self.list[index],
        }
    }

    /// The slot that a named foreground color is taken from, by the cell's
    /// flags: with both dim and bold set and no bright foreground
    /// configured, the default foreground is dimmed; bold text takes the
    /// bright variant where the configuration says so; dim text takes the
    /// dim variant.
    pub open spec fn named_fg_slot(self, ansi: NamedColor, flags: Flags) -> NamedColor {
        let weight = flags.bits() & DIM_BOLD;
        let bright = self.config.draw_bold_text_with_bright_colors;
        if weight == DIM_BOLD && ansi == NamedColor::Foreground
            && self.config.colors.primary.bright_foreground is None {
            NamedColor::DimForeground
        } else if bright && weight == BOLD {
            ansi.bright()
        } else if weight == DIM || (!bright && weight == DIM_BOLD) {
            ansi.dimmed()
        } else {
            ansi
        }
    }

    /// The slot that an indexed foreground color is taken from, by the
    /// cell's flags: the first eight colors and the eight bright ones are
    /// pairs, and the first eight have dim variants.
    pub open spec fn indexed_fg_slot(self, idx: u8, flags: Flags) -> int {
        let weight = flags.bits() & DIM_BOLD;
        let bright = self.config.draw_bold_text_with_bright_colors;
        if bright && weight == BOLD && idx <= 7 {
            idx + 8
        } else if !bright && weight == DIM && 8 <= idx <= 15 {
            idx - 8
        } else if !bright && weight == DIM && idx <= 7 {
            NamedColor::DimBlack.slot() + idx
        } else {
            idx as int
        }
    }

    /// The RGB value of the foreground color `fg` on a cell with `flags`.
    pub open spec fn fg_rgb(self, fg: Color, flags: Flags) -> Rgb {
        match fg {
            Color::Spec(rgb) => if flags.has(DIM) {
                rgb.dimmed()
            } else {
                rgb
            },
            Color::Named(ansi) => self.color(self.named_fg_slot(ansi, flags).slot() as int),
            Color::Indexed(idx) => self.color(self.indexed_fg_slot(idx, flags)),
        }
    }

    /// The RGB value of the background color `bg`.
    pub open spec fn bg_rgb(self, bg: Color) -> Rgb {
        match bg {
            Color::Spec(rgb) => rgb,
            Color::Named(ansi) => self.color(ansi.slot() as int),
            Color::Indexed(idx) => self.color(idx as int),
        }
    }

    /// How the background `bg` is drawn, decided by the color that the cell
    /// names, not by its RGB value: the default background is not drawn.
    pub open spec fn bg_alpha(self, bg: Color) -> BgAlpha {
        if bg == Color::Named(NamedColor::Background) {
            BgAlpha::Transparent
        } else if self.config.colors.transparent_background_colors {
            BgAlpha::WindowOpacity
        } else {
            BgAlpha::Opaque
        }
    }

    /// The cell `cell` as it is drawn at `point` of the viewport. An
    /// inverse cell has foreground and background exchanged and is drawn in
    /// full.
    pub open spec fn renderable(self, cell: Cell, point: ViewportPoint) -> RenderableCellView {
        let inverse = cell.flags.has(INVERSE);
        let fg = self.fg_rgb(cell.fg, cell.flags);
        let bg = self.bg_rgb(cell.bg);
        let shown_fg = if inverse {
            bg
        } else {
            fg
        };
        RenderableCellView {
            character: cell.c,
            point,
            fg: shown_fg,
            bg: if inverse {
                fg
            } else {
                bg
            },
            bg_alpha: if inverse {
                BgAlpha::Opaque
            } else {
                self.bg_alpha(cell.bg)
            },
            underline: match cell.spec_underline_color() {
                Some(color) => self.fg_rgb(color, cell.flags),
                None => shown_fg,
            },
            flags: cell.flags,
            extra: match cell.extra {
                Some(extra) => Some(
                    RenderableCellExtraView {
                        zerowidth: Some(extra.zerowidth@),
                        hyperlink: link_view(extra.hyperlink),
                    },
                ),
                None => None,
            },
        }
    }

    /// Whether nothing is drawn for `cell`: a space without background,
    /// lines or anything else.
    pub open spec fn is_empty(self, cell: RenderableCellView) -> bool {
        &&& (cell.bg_alpha == BgAlpha::Transparent || (cell.bg_alpha == BgAlpha::WindowOpacity
            && self.config.window_opacity_is_zero))
        &&& cell.character == ' '
        &&& cell.extra is None
        &&& !cell.flags.has_any(LINE_FLAGS)
    }

    /// The colors in which a cursor on the cell `cell` is drawn where they
    /// have contrast enough: the color of the cursor, then the color of the
    /// text under it. The color that the terminal's program has set for the
    /// cursor comes before the configured one; a color that is not fixed is
    /// taken from the cell.
    pub open spec fn cursor_pair(self, vi_mode: bool, cell: RenderableCellView) -> (Rgb, Rgb) {
        let colors = if vi_mode {
            self.config.colors.vi_mode_cursor
        } else {
            self.config.colors.cursor
        };
        let cursor_color = match self.overrides[NamedColor::Cursor.slot() as int] {
            Some(rgb) => CellRgb::Rgb(rgb),
            None => colors.background,
        };
        (cursor_color.spec_color(cell.fg, cell.bg), colors.foreground.spec_color(cell.fg, cell.bg))
    }

    /// The cursor on the cell `cell`.
    ///
    /// Where the colors of [`Palette::cursor_pair`] have too little
    /// contrast, which `low_contrast` says, the cursor takes the primary
    /// foreground and its text the primary background.
    pub open spec fn cursor(
        self,
        vi_mode: bool,
        cell: RenderableCellView,
        low_contrast: bool,
        shape: CursorShape,
    ) -> RenderableCursor {
        let pair = self.cursor_pair(vi_mode, cell);
        RenderableCursor {
            shape,
            cursor_color: if low_contrast {
                self.config.colors.primary.foreground
            } else {
                pair.0
            },
            text_color: if low_contrast {
                self.config.colors.primary.background
            } else {
                pair.1
            },
            is_wide: cell.flags.has(WIDE_CHAR),
            point: cell.point,
        }
    }

    /// Where the colors of the cursor have too little contrast, the cursor
    /// is drawn in the primary foreground and its text in the primary
    /// background, whatever the cell's colors and the configured colors of
    /// the cursor are; with contrast enough, in its own colors.
    pub proof fn law_low_contrast_cursor(
        self,
        vi_mode: bool,
        cell: RenderableCellView,
        shape: CursorShape,
    )
        ensures
            self.cursor(vi_mode, cell, false, shape).cursor_color == self.cursor_pair(
                vi_mode,
                cell,
            ).0,
            self.cursor(vi_mode, cell, false, shape).text_color == self.cursor_pair(
                vi_mode,
                cell,
            ).1,
            self.cursor(vi_mode, cell, true, shape).cursor_color
                == self.config.colors.primary.foreground,
            self.cursor(vi_mode, cell, true, shape).text_color
                == self.config.colors.primary.background,
            Self::under_cursor(cell, self.cursor(vi_mode, cell, true, CursorShape::Block)).fg
                == self.config.colors.primary.background,
            Self::under_cursor(cell, self.cursor(vi_mode, cell, true, CursorShape::Block)).bg
                == self.config.colors.primary.foreground,
    {
    }

    /// The cell `cell` under a cursor: a block cursor gives the cell its
    /// colors and draws the background in full.
    pub open spec fn under_cursor(cell: RenderableCellView, cursor: RenderableCursor)
        -> RenderableCellView {
        if cursor.shape == CursorShape::Block {
            RenderableCellView {
                fg: cursor.text_color,
                bg: cursor.cursor_color,
                bg_alpha: BgAlpha::Opaque,
                ..cell
            }
        } else {
            cell
        }
    }
}

impl RenderableCursor {
    pub open spec fn spec_color(self) -> Rgb {
        self.cursor_color
    }

    pub open spec fn spec_text_color(self) -> Rgb {
        self.text_color
    }

    pub open spec fn spec_shape(self) -> CursorShape {
        self.shape
    }

    pub open spec fn spec_is_wide(self) -> bool {
        self.is_wide
    }

    pub open spec fn spec_point(self) -> ViewportPoint {
        self.point
    }

    /// A cursor of shape `shape` at `point`, black on black.
    pub fn new(shape: CursorShape, point: ViewportPoint) -> (cursor: RenderableCursor)
        ensures
            cursor.spec_shape() == shape,
            cursor.spec_point() == point,
            cursor.spec_color() == (Rgb { r: 0, g: 0, b: 0 }),
            cursor.spec_text_color() == (Rgb { r: 0, g: 0, b: 0 }),
            !cursor.spec_is_wide(),
    {
        RenderableCursor {
            shape,
            cursor_color: Rgb { r: 0, g: 0, b: 0 },
            text_color: Rgb { r: 0, g: 0, b: 0 },
            is_wide: false,
            point,
        }
    }

    /// The color of the cursor.
    pub fn color(&self) -> (rgb: Rgb)
        ensures
            rgb == self.spec_color(),
    {
        self.cursor_color
    }

    /// The color of the text under the cursor.
    pub fn text_color(&self) -> (rgb: Rgb)
        ensures
            rgb == self.spec_text_color(),
    {
        self.text_color
    }

    pub fn shape(&self) -> (shape: CursorShape)
        ensures
            shape == self.spec_shape(),
    {
        self.shape
    }

    /// Whether the cursor is on a wide character.
    pub fn is_wide(&self) -> (r: bool)
        ensures
            r == self.spec_is_wide(),
    {
        self.is_wide
    }

    pub fn point(&self) -> (p: ViewportPoint)
        ensures
            p == self.spec_point(),
    {
        self.point
    }
}

/// The place on the viewport of the cell at `point`, where the viewport
/// shows it.
pub open spec fn spec_point_to_viewport(display_offset: nat, point: Point) -> Option<
    ViewportPoint,
> {
    if point.line.0 + display_offset >= 0 && point.line.0 + display_offset <= usize::MAX {
        Some(
            ViewportPoint {
                line: (point.line.0 + display_offset) as usize,
                column: point.column,
            },
        )
    } else {
        None
    }
}

/// The place on the viewport of the cell at `point`, unless the cell is
/// above the viewport.
pub fn point_to_viewport(display_offset: usize, point: Point) -> (p: Option<ViewportPoint>)
    ensures
        p == spec_point_to_viewport(display_offset as nat, point),
{
    let line: i128 = point.line.0 as i128 + display_offset as i128;
    if line >= 0 && line <= usize::MAX as i128 {
        Some(ViewportPoint { line: line as usize, column: point.column })
    } else {
        None
    }
}

/// The place in the grid of the cell at `point` of the viewport.
pub open spec fn spec_viewport_to_point(display_offset: nat, point: ViewportPoint) -> Point {
    Point { line: Line((point.line - display_offset) as i32), column: point.column }
}

/// State of the drawing of a terminal's viewport.
///
/// The cells come in reading order. A cell that shows nothing is left out,
/// unless the cursor is on it, and so is a cell that only fills the room of
/// a wide character.
pub struct RenderableContent<'a> {
    term: &'a Term,
    config: &'a UiConfig,
    colors: &'a List,
    cursor: RenderableCursor,
    cursor_shape: CursorShape,
    cursor_point: ViewportPoint,
    low_contrast: bool,
    /// The next cell of the grid, until the viewport's last cell is passed.
    position: Option<Point>,
}

/// The mathematical model of a [`RenderableContent`].
pub struct RenderableContentView {
    pub term: TermView,
    pub palette: Palette,
    pub cursor: RenderableCursor,
    pub cursor_shape: CursorShape,
    pub cursor_point: ViewportPoint,
    pub low_contrast: bool,
    pub position: Option<Point>,
}

impl RenderableContentView {
    /// The last cell that the viewport shows.
    pub open spec fn last_point(self) -> Point {
        Point {
            line: Line(self.term.viewport_end() as i32),
            column: Column((self.term.grid.columns - 1) as usize),
        }
    }

    /// What holds while the viewport is drawn: the palette has a color for
    /// every slot, and the next cell is a cell of the viewport.
    pub open spec fn wf(self) -> bool {
        &&& self.term.wf()
        &&& self.palette.list.len() == COUNT
        &&& self.palette.overrides == self.term.colors
        &&& self.position matches Some(p) ==> self.term.grid.has_point(p)
            && self.term.viewport_start() <= p.line.0 && !self.last_point().spec_precedes(p)
    }

    /// The cell at `p` as it is drawn.
    pub open spec fn cell_at(self, p: Point) -> RenderableCellView {
        self.palette.renderable(
            self.term.grid.cell(p),
            ViewportPoint {
                line: (p.line.0 + self.term.grid.display_offset) as usize,
                column: p.column,
            },
        )
    }

    /// The state after the cell at `p` was passed.
    pub open spec fn passed(self, p: Point, cursor: RenderableCursor) -> RenderableContentView {
        RenderableContentView {
            position: if p == self.last_point() {
                None
            } else {
                Some(self.term.grid.next_point(p))
            },
            cursor,
            ..self
        }
    }

    /// Lines of the viewport from the next cell on.
    pub open spec fn lines_left(self) -> int {
        match self.position {
            Some(p) => self.last_point().line.0 - p.line.0 + 1,
            None => 0,
        }
    }

    /// Cells from the next cell on to the end of its line.
    pub open spec fn columns_left(self) -> int {
        match self.position {
            Some(p) => self.term.grid.columns - p.column.0,
            None => 0,
        }
    }

    /// The next cell that is drawn, and the state after it.
    pub open spec fn next(self) -> (Option<RenderableCellView>, RenderableContentView)
        decreases self.lines_left(), self.columns_left(),
        when self.wf()
    {
        match self.position {
            None => (None, self),
            Some(p) => {
                let cell = self.cell_at(p);
                if cell.point == self.cursor_point {
                    let cursor = self.palette.cursor(
                        self.term.vi_mode,
                        cell,
                        self.low_contrast,
                        self.cursor_shape,
                    );
                    (Some(Palette::under_cursor(cell, cursor)), self.passed(p, cursor))
                } else if !self.palette.is_empty(cell) && !cell.flags.has(WIDE_CHAR_SPACER) {
                    (Some(cell), self.passed(p, self.cursor))
                } else {
                    self.passed(p, self.cursor).next()
                }
            },
        }
    }
}

impl<'a> View for RenderableContent<'a> {
    type V = RenderableContentView;

    closed spec fn view(&self) -> RenderableContentView {
        RenderableContentView {
            term: self.term@,
            palette: Palette { list: self.colors@, overrides: self.term@.colors, config: *self.config },
            cursor: self.cursor,
            cursor_shape: self.cursor_shape,
            cursor_point: self.cursor_point,
            low_contrast: self.low_contrast,
            position: self.position,
        }
    }
}

impl<'a> RenderableContent<'a> {
    /// The invariant of the representation.
    pub closed spec fn wf(&self) -> bool {
        self.term.wf() && self.colors.wf() && self@.wf()
    }

    /// The drawing of the viewport of `term`, from its first cell on.
    ///
    /// `cursor_point` is the cursor's place on the viewport.
    /// `low_contrast` says whether the colors of the cursor, which
    /// [`RenderableContent::cursor_colors`] gives, have too little contrast
    /// for the cursor to be drawn in them.
    pub fn new(
        term: &'a Term,
        config: &'a UiConfig,
        colors: &'a List,
        cursor_shape: CursorShape,
        cursor_point: ViewportPoint,
        low_contrast: bool,
    ) -> (content: RenderableContent<'a>)
        requires
            term.wf(),
            colors.wf(),
        ensures
            content.wf(),
            content@.term == term@,
            content@.palette == (Palette { list: colors@, overrides: term@.colors, config: *config }),
            content@.cursor_shape == cursor_shape,
            content@.cursor_point == cursor_point,
            content@.low_contrast == low_contrast,
            content@.position == Some(
                Point { line: Line(term@.viewport_start() as i32), column: Column(0) },
            ),
            content@.cursor.spec_shape() == cursor_shape,
            content@.cursor.spec_point() == cursor_point,
    {
        proof {
            term.lemma_wf();
            colors.lemma_len();
        }
        let offset: i32 = term.grid().display_offset() as i32;
        RenderableContent {
            term,
            config,
            colors,
            cursor: RenderableCursor::new(cursor_shape, cursor_point),
            cursor_shape,
            cursor_point,
            low_contrast,
            position: Some(Point { line: Line(-offset), column: Column(0) }),
        }
    }

    /// The color of slot `color`: the one that the terminal's program has
    /// set, else the configured one.
    pub fn color(&self, color: usize) -> (rgb: Rgb)
        requires
            self.wf(),
            color < COUNT,
        ensures
            rgb == self@.palette.color(color as int),
    {
        match self.term.color(color) {
            Some(rgb) => rgb,
            None => self.colors.get(color),
        }
    }

    /// The cursor as it was drawn last.
    pub fn cursor(&self) -> (cursor: RenderableCursor)
        ensures
            cursor == self@.cursor,
    {
        self.cursor
    }

    /// The RGB value of the foreground color `fg` on a cell with `flags`.
    pub fn compute_fg_rgb(&self, fg: Color, flags: Flags) -> (rgb: Rgb)
        requires
            self.wf(),
        ensures
            rgb == self@.palette.fg_rgb(fg, flags),
    {
        let weight: u16 = flags.masked(DIM_BOLD);
        let bright: bool = self.config.draw_bold_text_with_bright_colors();
        match fg {
            Color::Spec(rgb) => {
                if flags.contains(DIM) {
                    rgb.dim()
                } else {
                    rgb
                }
            },
            Color::Named(ansi) => {
                let slot: NamedColor = if weight == DIM_BOLD && matches!(ansi, NamedColor::Foreground)
                    && self.config.colors.primary.bright_foreground.is_none() {
                    NamedColor::DimForeground
                } else if bright && weight == BOLD {
                    ansi.to_bright()
                } else if weight == DIM || (!bright && weight == DIM_BOLD) {
                    ansi.to_dim()
                } else {
                    ansi
                };
                self.color(slot.index())
            },
            Color::Indexed(idx) => {
                let slot: usize = if bright && weight == BOLD && idx <= 7 {
                    idx as usize + 8
                } else if !bright && weight == DIM && 8 <= idx && idx <= 15 {
                    idx as usize - 8
                } else if !bright && weight == DIM && idx <= 7 {
                    NamedColor::DimBlack.index() + idx as usize
                } else {
                    idx as usize
                };
                self.color(slot)
            },
        }
    }

    /// The RGB value of the background color `bg`.
    pub fn compute_bg_rgb(&self, bg: Color) -> (rgb: Rgb)
        requires
            self.wf(),
        ensures
            rgb == self@.palette.bg_rgb(bg),
    {
        match bg {
            Color::Spec(rgb) => rgb,
            Color::Named(ansi) => self.color(ansi.index()),
            Color::Indexed(idx) => self.color(idx as usize),
        }
    }

    /// How the background `bg` is drawn.
    pub fn compute_bg_alpha(config: &UiConfig, bg: Color) -> (alpha: BgAlpha)
        ensures
            alpha == (Palette { list: Seq::empty(), overrides: Seq::empty(), config: *config }).bg_alpha(
                bg,
            ),
    {
        let default_background: bool = match bg {
            Color::Named(NamedColor::Background) => true,
            _ => false,
        };
        if default_background {
            BgAlpha::Transparent
        } else if config.colors.transparent_background_colors {
            BgAlpha::WindowOpacity
        } else {
            BgAlpha::Opaque
        }
    }

    /// The cell `cell` as it is drawn at `point` of the viewport.
    pub fn renderable_cell(&self, cell: &Cell, point: ViewportPoint) -> (drawn: RenderableCell)
        requires
            self.wf(),
        ensures
            drawn@ == self@.palette.renderable(*cell, point),
    {
        let inverse: bool = cell.flags.contains(INVERSE);
        let fg: Rgb = self.compute_fg_rgb(cell.fg, cell.flags);
        let bg: Rgb = self.compute_bg_rgb(cell.bg);
        let shown_fg: Rgb = if inverse {
            bg
        } else {
            fg
        };
        let shown_bg: Rgb = if inverse {
            fg
        } else {
            bg
        };
        let bg_alpha: BgAlpha = if inverse {
            BgAlpha::Opaque
        } else {
            Self::compute_bg_alpha(self.config, cell.bg)
        };
        let underline: Rgb = match cell.underline_color() {
            Some(color) => self.compute_fg_rgb(color, cell.flags),
            None => shown_fg,
        };
        let extra: Option<RenderableCellExtra> = match &cell.extra {
            Some(extra) => {
                let mut zerowidth: Vec<char> = Vec::new();
                let mut i: usize = 0;
                while i < extra.zerowidth.len()
                    invariant
                        i <= extra.zerowidth@.len(),
                        zerowidth@ == extra.zerowidth@.take(i as int),
                    decreases extra.zerowidth@.len() - i,
                {
                    zerowidth.push(extra.zerowidth[i]);
                    i += 1;
                    assert(extra.zerowidth@.take(i as int) =~= extra.zerowidth@.take(i - 1).push(
                        extra.zerowidth@[i - 1],
                    ));
                }
                assert(extra.zerowidth@.take(extra.zerowidth@.len() as int) =~= extra.zerowidth@);
                Some(
                    RenderableCellExtra {
                        zerowidth: Some(zerowidth),
                        hyperlink: match &extra.hyperlink {
                            Some(link) => Some(link.duplicate()),
                            None => None,
                        },
                    },
                )
            },
            None => None,
        };
        RenderableCell {
            character: cell.c,
            point,
            fg: shown_fg,
            bg: shown_bg,
            bg_alpha,
            underline,
            flags: cell.flags,
            extra,
        }
    }

    /// Whether nothing is drawn for `cell`.
    pub fn is_empty(&self, cell: &RenderableCell) -> (r: bool)
        ensures
            r == self@.palette.is_empty(cell@),
    {
        let background_hidden: bool = match cell.bg_alpha {
            BgAlpha::Transparent => true,
            BgAlpha::WindowOpacity => self.config.window_opacity_is_zero,
            BgAlpha::Opaque => false,
        };
        background_hidden && cell.character == ' ' && cell.extra.is_none() && !cell.flags.intersects(
            LINE_FLAGS,
        )
    }

    /// The cursor on the cell `cell`.
    pub fn renderable_cursor(&self, cell: &RenderableCell) -> (cursor: RenderableCursor)
        requires
            self.wf(),
        ensures
            cursor == self@.palette.cursor(
                self@.term.vi_mode,
                cell@,
                self@.low_contrast,
                self@.cursor_shape,
            ),
            cursor.spec_point() == cell@.point,
            cursor.spec_shape() == self@.cursor_shape,
    {
        let colors = if self.term.vi_mode() {
            self.config.colors.vi_mode_cursor
        } else {
            self.config.colors.cursor
        };
        let cursor_color: CellRgb = match self.term.color(NamedColor::Cursor.index()) {
            Some(rgb) => CellRgb::Rgb(rgb),
            None => colors.background,
        };
        let text_color: CellRgb = colors.foreground;
        let fallback: bool = self.low_contrast;
        RenderableCursor {
            shape: self.cursor_shape,
            cursor_color: if fallback {
                self.config.colors.primary.foreground
            } else {
                cursor_color.color(cell.fg, cell.bg)
            },
            text_color: if fallback {
                self.config.colors.primary.background
            } else {
                text_color.color(cell.fg, cell.bg)
            },
            is_wide: cell.flags.contains(WIDE_CHAR),
            point: cell.point,
        }
    }

    /// The colors in which the cursor at `point` of the viewport is drawn
    /// where they have contrast enough: the color of the cursor, then the
    /// color of the text under it. Their contrast decides whether the
    /// cursor is drawn in them.
    pub fn cursor_colors(
        term: &Term,
        config: &UiConfig,
        colors: &List,
        point: ViewportPoint,
    ) -> (pair: (Rgb, Rgb))
        requires
            term.wf(),
            colors.wf(),
            term@.grid.has_point(spec_viewport_to_point(term@.grid.display_offset, point)),
            point.line < term@.grid.screen_lines(),
        ensures
            pair == ({
                let palette = Palette { list: colors@, overrides: term@.colors, config: *config };
                palette.cursor_pair(
                    term@.vi_mode,
                    palette.renderable(
                        term@.grid.cell(spec_viewport_to_point(term@.grid.display_offset, point)),
                        point,
                    ),
                )
            }),
    {
        proof {
            term.lemma_wf();
        }
        let content = RenderableContent::new(term, config, colors, CursorShape::Block, point, false);
        let offset: i32 = term.grid().display_offset() as i32;
        let at: Point = Point { line: Line(point.line as i32 - offset), column: point.column };
        let drawn: RenderableCell = content.renderable_cell(term.grid().cell(at), point);
        let cursor: RenderableCursor = content.renderable_cursor(&drawn);
        (cursor.cursor_color, cursor.text_color)
    }

    /// The next cell that is drawn, if there is one left on the viewport.
    pub fn next(&mut self) -> (cell: Option<RenderableCell>)
        requires
            old(self).wf(),
        ensures
            final(self).wf(),
            match cell {
                Some(c) => old(self)@.next() == (Some(c@), final(self)@),
                None => old(self)@.next() == (None::<RenderableCellView>, final(self)@),
            },
    {
        proof {
            self.term.lemma_wf();
        }
        let offset: i32 = self.term.grid().display_offset() as i32;
        let columns: usize = self.term.grid().columns();
        let last: Point = Point {
            line: Line(self.term.bottommost_line().0 - offset),
            column: Column(columns - 1),
        };
        loop
            invariant
                self.wf(),
                self.term.wf(),
                self@.term.wf(),
                offset == self@.term.grid.display_offset,
                columns == self@.term.grid.columns,
                last == self@.last_point(),
                old(self)@.next() == self@.next(),
            decreases self@.lines_left(), self@.columns_left(),
        {
            let p: Point = match self.position {
                Some(p) => p,
                None => {
                    return None;
                },
            };
            let point = ViewportPoint { line: (p.line.0 + offset) as usize, column: p.column };
            let mut cell: RenderableCell = self.renderable_cell(self.term.grid().cell(p), point);
            let at_cursor: bool = cell.point.line == self.cursor_point.line && cell.point.column.0
                == self.cursor_point.column.0;
            let mut cursor: RenderableCursor = self.cursor;
            if at_cursor {
                cursor = self.renderable_cursor(&cell);
            }
            let shown: bool = at_cursor || (!self.is_empty(&cell) && !cell.flags.contains(
                WIDE_CHAR_SPACER,
            ));
            let ghost before = self@;
            self.cursor = cursor;
            self.position = if p.line.0 == last.line.0 && p.column.0 == last.column.0 {
                None
            } else {
                self.term.grid().next_point(p)
            };
            assert(self@ == before.passed(p, cursor));
            if at_cursor {
                match cursor.shape {
                    CursorShape::Block => {
                        cell.fg = cursor.text_color;
                        cell.bg = cursor.cursor_color;
                        cell.bg_alpha = BgAlpha::Opaque;
                    },
                    _ => {},
                }
            }
            if shown {
                return Some(cell);
            }
        }
    }
}

} // verus!

//! The cell: one character of the grid with its colors and attributes.

use vstd::prelude::*;

use crate::color::Rgb;
use crate::row::Blank;

verus! {

/// Attributes of a cell, one bit each.
#[derive(Debug, Eq, PartialEq, Copy, Clone, Hash, Structural)]
pub struct Flags {
    pub bits: u16,
}

/// Foreground and background are exchanged.
pub const INVERSE: u16 = 0x0001;

/// Bold text.
pub const BOLD: u16 = 0x0002;

/// Italic text.
pub const ITALIC: u16 = 0x0004;

/// Bold and italic text.
pub const BOLD_ITALIC: u16 = 0x0006;

/// A line under the text.
pub const UNDERLINE: u16 = 0x0008;

/// On the last cell of a row: the row goes on in the next row.
pub const WRAPLINE: u16 = 0x0010;

/// A character of two columns.
pub const WIDE_CHAR: u16 = 0x0020;

/// The cell to the right of a character of two columns.
pub const WIDE_CHAR_SPACER: u16 = 0x0040;

/// Dim text.
pub const DIM: u16 = 0x0080;

/// Dim and bold text.
pub const DIM_BOLD: u16 = 0x0082;

/// Text that is not shown.
pub const HIDDEN: u16 = 0x0100;

/// A line through the text.
pub const STRIKEOUT: u16 = 0x0200;

/// On the last cell of a row: a character of two columns follows in the next row.
pub const LEADING_WIDE_CHAR_SPACER: u16 = 0x0400;

/// Two lines under the text.
pub const DOUBLE_UNDERLINE: u16 = 0x0800;

/// A curly line under the text.
pub const UNDERCURL: u16 = 0x1000;

/// A dotted line under the text.
pub const DOTTED_UNDERLINE: u16 = 0x2000;

/// A dashed line under the text.
pub const DASHED_UNDERLINE: u16 = 0x4000;

/// Every kind of line under the text.
pub const ALL_UNDERLINES: u16 = 0x7808;

impl Flags {
    /// The bits that are set.
    pub open spec fn bits(self) -> u16 {
        self.bits
    }

    /// Whether all bits of `mask` are set.
    pub open spec fn has(self, mask: u16) -> bool {
        self.bits() & mask == mask
    }

    /// Whether a bit of `mask` is set.
    pub open spec fn has_any(self, mask: u16) -> bool {
        self.bits() & mask != 0
    }

    /// No attribute.
    pub fn empty() -> (f: Flags)
        ensures
            f.bits() == 0,
    {
        Flags { bits: 0 }
    }

    /// The attributes whose bits are `bits`.
    pub fn from_bits(bits: u16) -> (f: Flags)
        ensures
            f.bits() == bits,
    {
        Flags { bits }
    }

    /// The bits that are set.
    pub fn to_bits(self) -> (bits: u16)
        ensures
            bits == self.bits(),
    {
        self.bits
    }

    /// Whether all bits of `mask` are set.
    pub fn contains(self, mask: u16) -> (r: bool)
        ensures
            r == self.has(mask),
    {
        self.bits & mask == mask
    }

    /// Whether a bit of `mask` is set.
    pub fn intersects(self, mask: u16) -> (r: bool)
        ensures
            r == self.has_any(mask),
    {
        self.bits & mask != 0
    }

    /// The bits of `mask` that are set.
    pub fn masked(self, mask: u16) -> (bits: u16)
        ensures
            bits == self.bits() & mask,
    {
        self.bits & mask
    }

    /// Sets the bits of `mask`.
    pub fn insert(&mut self, mask: u16)
        ensures
            final(self).bits() == old(self).bits() | mask,
    {
        self.bits = self.bits | mask;
    }

    /// Clears the bits of `mask`.
    pub fn remove(&mut self, mask: u16)
        ensures
            final(self).bits() == old(self).bits() & !mask,
    {
        self.bits = self.bits & !mask;
    }
}

/// The colors that have a name in the palette.
#[derive(Debug, Eq, PartialEq, Copy, Clone, Hash, Structural)]
pub enum NamedColor {
    Black,
    Red,
    Green,
    Yellow,
    Blue,
    Magenta,
    Cyan,
    White,
    BrightBlack,
    BrightRed,
    BrightGreen,
    BrightYellow,
    BrightBlue,
    BrightMagenta,
    BrightCyan,
    BrightWhite,
    Foreground,
    Background,
    Cursor,
    DimBlack,
    DimRed,
    DimGreen,
    DimYellow,
    DimBlue,
    DimMagenta,
    DimCyan,
    DimWhite,
    BrightForeground,
    DimForeground,
}

impl NamedColor {
    /// The palette slot of the color.
    pub open spec fn slot(self) -> usize {
        match self {
            NamedColor::Black => 0,
            NamedColor::Red => 1,
            NamedColor::Green => 2,
            NamedColor::Yellow => 3,
            NamedColor::Blue => 4,
            NamedColor::Magenta => 5,
            NamedColor::Cyan => 6,
            NamedColor::White => 7,
            NamedColor::BrightBlack => 8,
            NamedColor::BrightRed => 9,
            NamedColor::BrightGreen => 10,
            NamedColor::BrightYellow => 11,
            NamedColor::BrightBlue => 12,
            NamedColor::BrightMagenta => 13,
            NamedColor::BrightCyan => 14,
            NamedColor::BrightWhite => 15,
            NamedColor::Foreground => 256,
            NamedColor::Background => 257,
            NamedColor::Cursor => 258,
            NamedColor::DimBlack => 259,
            NamedColor::DimRed => 260,
            NamedColor::DimGreen => 261,
            NamedColor::DimYellow => 262,
            NamedColor::DimBlue => 263,
            NamedColor::DimMagenta => 264,
            NamedColor::DimCyan => 265,
            NamedColor::DimWhite => 266,
            NamedColor::BrightForeground => 267,
            NamedColor::DimForeground => 268,
        }
    }

    /// The bright variant: of a normal color its bright one, of a dim color
    /// the normal one, of any other the color itself.
    pub open spec fn bright(self) -> NamedColor {
        match self {
            NamedColor::Foreground => NamedColor::BrightForeground,
            NamedColor::Black => NamedColor::BrightBlack,
            NamedColor::Red => NamedColor::BrightRed,
            NamedColor::Green => NamedColor::BrightGreen,
            NamedColor::Yellow => NamedColor::BrightYellow,
            NamedColor::Blue => NamedColor::BrightBlue,
            NamedColor::Magenta => NamedColor::BrightMagenta,
            NamedColor::Cyan => NamedColor::BrightCyan,
            NamedColor::White => NamedColor::BrightWhite,
            NamedColor::DimForeground => NamedColor::Foreground,
            NamedColor::DimBlack => NamedColor::Black,
            NamedColor::DimRed => NamedColor::Red,
            NamedColor::DimGreen => NamedColor::Green,
            NamedColor::DimYellow => NamedColor::Yellow,
            NamedColor::DimBlue => NamedColor::Blue,
            NamedColor::DimMagenta => NamedColor::Magenta,
            NamedColor::DimCyan => NamedColor::Cyan,
            NamedColor::DimWhite => NamedColor::White,
            other => other,
        }
    }

    /// The dim variant: of a normal color its dim one, of a bright color the
    /// normal one, of any other the color itself.
    pub open spec fn dimmed(self) -> NamedColor {
        match self {
            NamedColor::Black => NamedColor::DimBlack,
            NamedColor::Red => NamedColor::DimRed,
            NamedColor::Green => NamedColor::DimGreen,
            NamedColor::Yellow => NamedColor::DimYellow,
            NamedColor::Blue => NamedColor::DimBlue,
            NamedColor::Magenta => NamedColor::DimMagenta,
            NamedColor::Cyan => NamedColor::DimCyan,
            NamedColor::White => NamedColor::DimWhite,
            NamedColor::Foreground => NamedColor::DimForeground,
            NamedColor::BrightBlack => NamedColor::Black,
            NamedColor::BrightRed => NamedColor::Red,
            NamedColor::BrightGreen => NamedColor::Green,
            NamedColor::BrightYellow => NamedColor::Yellow,
            NamedColor::BrightBlue => NamedColor::Blue,
            NamedColor::BrightMagenta => NamedColor::Magenta,
            NamedColor::BrightCyan => NamedColor::Cyan,
            NamedColor::BrightWhite => NamedColor::White,
            NamedColor::BrightForeground => NamedColor::Foreground,
            other => other,
        }
    }

    /// The palette slot of the color.
    pub fn index(self) -> (i: usize)
        ensures
            i == self.slot(),
            i < crate::color::COUNT,
    {
        match self {
            NamedColor::Black => 0,
            NamedColor::Red => 1,
            NamedColor::Green => 2,
            NamedColor::Yellow => 3,
            NamedColor::Blue => 4,
            NamedColor::Magenta => 5,
            NamedColor::Cyan => 6,
            NamedColor::White => 7,
            NamedColor::BrightBlack => 8,
            NamedColor::BrightRed => 9,
            NamedColor::BrightGreen => 10,
            NamedColor::BrightYellow => 11,
            NamedColor::BrightBlue => 12,
            NamedColor::BrightMagenta => 13,
            NamedColor::BrightCyan => 14,
            NamedColor::BrightWhite => 15,
            NamedColor::Foreground => 256,
            NamedColor::Background => 257,
            NamedColor::Cursor => 258,
            NamedColor::DimBlack => 259,
            NamedColor::DimRed => 260,
            NamedColor::DimGreen => 261,
            NamedColor::DimYellow => 262,
            NamedColor::DimBlue => 263,
            NamedColor::DimMagenta => 264,
            NamedColor::DimCyan => 265,
            NamedColor::DimWhite => 266,
            NamedColor::BrightForeground => 267,
            NamedColor::DimForeground => 268,
        }
    }

    /// The bright variant of the color.
    pub fn to_bright(self) -> (c: NamedColor)
        ensures
            c == self.bright(),
    {
        match self {
            NamedColor::Foreground => NamedColor::BrightForeground,
            NamedColor::Black => NamedColor::BrightBlack,
            NamedColor::Red => NamedColor::BrightRed,
            NamedColor::Green => NamedColor::BrightGreen,
            NamedColor::Yellow => NamedColor::BrightYellow,
            NamedColor::Blue => NamedColor::BrightBlue,
            NamedColor::Magenta => NamedColor::BrightMagenta,
            NamedColor::Cyan => NamedColor::BrightCyan,
            NamedColor::White => NamedColor::BrightWhite,
            NamedColor::DimForeground => NamedColor::Foreground,
            NamedColor::DimBlack => NamedColor::Black,
            NamedColor::DimRed => NamedColor::Red,
            NamedColor::DimGreen => NamedColor::Green,
            NamedColor::DimYellow => NamedColor::Yellow,
            NamedColor::DimBlue => NamedColor::Blue,
            NamedColor::DimMagenta => NamedColor::Magenta,
            NamedColor::DimCyan => NamedColor::Cyan,
            NamedColor::DimWhite => NamedColor::White,
            other => other,
        }
    }

    /// The dim variant of the color.
    pub fn to_dim(self) -> (c: NamedColor)
        ensures
            c == self.dimmed(),
    {
        match self {
            NamedColor::Black => NamedColor::DimBlack,
            NamedColor::Red => NamedColor::DimRed,
            NamedColor::Green => NamedColor::DimGreen,
            NamedColor::Yellow => NamedColor::DimYellow,
            NamedColor::Blue => NamedColor::DimBlue,
            NamedColor::Magenta => NamedColor::DimMagenta,
            NamedColor::Cyan => NamedColor::DimCyan,
            NamedColor::White => NamedColor::DimWhite,
            NamedColor::Foreground => NamedColor::DimForeground,
            NamedColor::BrightBlack => NamedColor::Black,
            NamedColor::BrightRed => NamedColor::Red,
            NamedColor::BrightGreen => NamedColor::Green,
            NamedColor::BrightYellow => NamedColor::Yellow,
            NamedColor::BrightBlue => NamedColor::Blue,
            NamedColor::BrightMagenta => NamedColor::Magenta,
            NamedColor::BrightCyan => NamedColor::Cyan,
            NamedColor::BrightWhite => NamedColor::White,
            NamedColor::BrightForeground => NamedColor::Foreground,
            other => other,
        }
    }
}

/// The color of a cell as the terminal's program chose it.
#[derive(Debug, Eq, PartialEq, Copy, Clone, Hash, Structural)]
pub enum Color {
    /// A color by its name.
    Named(NamedColor),
    /// A color by its value.
    Spec(Rgb),
    /// One of the 256 indexed colors.
    Indexed(u8),
}

/// A hyperlink that text of the grid carries: an identity and a target.
#[derive(Debug, Clone)]
pub struct Hyperlink {
    pub id: String,
    pub uri: String,
}

impl Hyperlink {
    pub fn new(id: String, uri: String) -> (link: Hyperlink)
        ensures
            link.id == id,
            link.uri == uri,
    {
        Hyperlink { id, uri }
    }

    /// Whether two hyperlinks have the same identity and target.
    pub open spec fn same(self, other: Hyperlink) -> bool {
        self.id@ == other.id@ && self.uri@ == other.uri@
    }

    /// Whether two hyperlinks have the same identity and target.
    pub fn is_same(&self, other: &Hyperlink) -> (r: bool)
        ensures
            r == self.same(*other),
    {
        self.id == other.id && self.uri == other.uri
    }

    /// A copy of the hyperlink.
    pub fn duplicate(&self) -> (link: Hyperlink)
        ensures
            link == *self,
    {
        Hyperlink { id: self.id.clone(), uri: self.uri.clone() }
    }
}

/// What few cells have: combining characters, an underline color, a
/// hyperlink.
#[derive(Debug, Clone)]
pub struct CellExtra {
    pub zerowidth: Vec<char>,
    pub underline_color: Option<Color>,
    pub hyperlink: Option<Hyperlink>,
}

/// One cell of the grid.
#[derive(Debug, Clone)]
pub struct Cell {
    pub c: char,
    pub fg: Color,
    pub bg: Color,
    pub flags: Flags,
    pub extra: Option<CellExtra>,
}

impl Cell {
    /// The blank cell: a space in the default colors, without attributes.
    pub open spec fn spec_blank() -> Cell {
        Cell {
            c: ' ',
            fg: Color::Named(NamedColor::Foreground),
            bg: Color::Named(NamedColor::Background),
            flags: Flags { bits: 0 },
            extra: None,
        }
    }

    pub open spec fn spec_hyperlink(self) -> Option<Hyperlink> {
        match self.extra {
            Some(extra) => extra.hyperlink,
            None => None,
        }
    }

    pub open spec fn spec_zerowidth(self) -> Option<Seq<char>> {
        match self.extra {
            Some(extra) => Some(extra.zerowidth@),
            None => None,
        }
    }

    pub open spec fn spec_underline_color(self) -> Option<Color> {
        match self.extra {
            Some(extra) => extra.underline_color,
            None => None,
        }
    }

    /// The hyperlink that the cell carries.
    pub fn hyperlink(&self) -> (link: Option<&Hyperlink>)
        ensures
            match link {
                Some(l) => self.spec_hyperlink() == Some(*l),
                None => self.spec_hyperlink() is None,
            },
    {
        match &self.extra {
            Some(extra) => extra.hyperlink.as_ref(),
            None => None,
        }
    }

    /// The color of the underline, where it differs from the foreground.
    pub fn underline_color(&self) -> (color: Option<Color>)
        ensures
            color == self.spec_underline_color(),
    {
        match &self.extra {
            Some(extra) => extra.underline_color,
            None => None,
        }
    }

    /// The combining characters of the cell, where it has the room for them.
    pub fn zerowidth(&self) -> (chars: Option<&Vec<char>>)
        ensures
            match chars {
                Some(v) => self.spec_zerowidth() == Some(v@),
                None => self.spec_zerowidth() is None,
            },
    {
        match &self.extra {
            Some(extra) => Some(&extra.zerowidth),
            None => None,
        }
    }

    /// The cell with the mark that its row goes on in the next row set or
    /// cleared.
    pub open spec fn with_wrap(self, on: bool) -> Cell {
        Cell {
            flags: Flags {
                bits: if on {
                    self.flags.bits | WRAPLINE
                } else {
                    self.flags.bits & !WRAPLINE
                },
            },
            ..self
        }
    }

    /// Sets or clears the mark that the cell's row goes on in the next row.
    pub fn set_wrap(&mut self, on: bool)
        ensures
            *final(self) == old(self).with_wrap(on),
    {
        if on {
            self.flags.insert(WRAPLINE);
        } else {
            self.flags.remove(WRAPLINE);
        }
    }

    /// A cell that shows `c` in the default colors.
    pub fn with_char(c: char) -> (cell: Cell)
        ensures
            cell == (Cell { c, ..Cell::spec_blank() }),
    {
        Cell {
            c,
            fg: Color::Named(NamedColor::Foreground),
            bg: Color::Named(NamedColor::Background),
            flags: Flags::empty(),
            extra: None,
        }
    }
}

impl Blank for Cell {
    open spec fn blank_spec() -> Cell {
        Cell::spec_blank()
    }

    fn blank() -> (r: Cell) {
        Cell {
            c: ' ',
            fg: Color::Named(NamedColor::Foreground),
            bg: Color::Named(NamedColor::Background),
            flags: Flags::empty(),
            extra: None,
        }
    }
}

} // verus!

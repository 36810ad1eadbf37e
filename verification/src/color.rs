//! Colors: RGB values, the colors a cell can name, and the palette that
//! resolves them.

use vstd::prelude::*;
use vstd::string::StringSliceAdditionalSpecFns;

verus! {

/// Number of palette slots: the 256 indexed colors and the named slots for
/// foreground, background, cursor and the dim and bright variants.
pub const COUNT: usize = 269;

/// Percentage of its brightness that a dimmed color keeps.
pub const DIM_PERCENT: u8 = 66;

/// An RGB color.
#[derive(Debug, Eq, PartialEq, Copy, Clone, Default, Hash, Structural)]
pub struct Rgb {
    pub r: u8,
    pub g: u8,
    pub b: u8,
}

/// The value of the hexadecimal digit `d`, for `0-9`, `a-f` and `A-F`.
pub open spec fn hex_digit_spec(d: u8) -> Option<u8> {
    if 0x30 <= d <= 0x39 {
        Some((d - 0x30) as u8)
    } else if 0x61 <= d <= 0x66 {
        Some((d - 0x61 + 10) as u8)
    } else if 0x41 <= d <= 0x46 {
        Some((d - 0x41 + 10) as u8)
    } else {
        None
    }
}

/// The number that the hexadecimal digits `digits` write, most significant
/// first, if every one of them is a digit.
pub open spec fn hex_value(digits: Seq<u8>) -> Option<nat>
    decreases digits.len(),
{
    if digits.len() == 0 {
        Some(0nat)
    } else {
        match (hex_value(digits.drop_last()), hex_digit_spec(digits.last())) {
            (Some(high), Some(low)) => Some(high * 16 + low as nat),
            _ => None,
        }
    }
}

/// The digits of a color written as `#rrggbb` or `0xrrggbb`: what follows
/// the prefix, with an optional `+` sign taken off. `None` where the text has
/// neither form or nothing follows the sign.
pub open spec fn hex_color_digits(s: Seq<u8>) -> Option<Seq<u8>> {
    let body = if s.len() == 8 && s[0] == 0x30 && s[1] == 0x78 {
        Some(s.subrange(2, 8))
    } else if s.len() == 7 && s[0] == 0x23 {
        Some(s.subrange(1, 7))
    } else {
        None
    };
    match body {
        Some(b) => if b[0] == 0x2b {
            Some(b.subrange(1, 6))
        } else {
            Some(b)
        },
        None => None,
    }
}

/// The color that the bytes `s` write in hexadecimal notation.
pub open spec fn parse_hex_color(s: Seq<u8>) -> Option<Rgb> {
    match hex_color_digits(s) {
        Some(digits) => match hex_value(digits) {
            Some(v) => Some(
                Rgb {
                    r: ((v / 0x1_0000) % 0x100) as u8,
                    g: ((v / 0x100) % 0x100) as u8,
                    b: (v % 0x100) as u8,
                },
            ),
            None => None,
        },
        None => None,
    }
}

/// The channel value `v` dimmed: [`DIM_PERCENT`] percent of it, rounded down.
pub open spec fn dim_channel(v: u8) -> u8 {
    (v as int * DIM_PERCENT as int / 100) as u8
}

/// The lower-case hexadecimal digit of `v`, for `v < 16`.
pub open spec fn hex_char(v: u8) -> char {
    if v < 10 {
        ((0x30 + v) as u8) as char
    } else {
        ((0x61 + v - 10) as u8) as char
    }
}

/// Sixteen to the power `n`.
pub open spec fn sixteen_to(n: nat) -> nat
    decreases n,
{
    if n == 0 {
        1
    } else {
        16 * sixteen_to((n - 1) as nat)
    }
}

proof fn lemma_hex_value_bound(digits: Seq<u8>)
    ensures
        hex_value(digits) matches Some(v) ==> v < sixteen_to(digits.len()),
    decreases digits.len(),
{
    if digits.len() > 0 {
        lemma_hex_value_bound(digits.drop_last());
    }
}

fn hex_digit(d: u8) -> (v: Option<u8>)
    ensures
        v == hex_digit_spec(d),
{
    if 0x30 <= d && d <= 0x39 {
        Some(d - 0x30)
    } else if 0x61 <= d && d <= 0x66 {
        Some(d - 0x61 + 10)
    } else if 0x41 <= d && d <= 0x46 {
        Some(d - 0x41 + 10)
    } else {
        None
    }
}

fn hex_char_of(v: u8) -> (c: char)
    requires
        v < 16,
    ensures
        c == hex_char(v),
{
    if v < 10 {
        (0x30 + v) as char
    } else {
        (0x61 + v - 10) as char
    }
}

impl Rgb {
    pub fn new(r: u8, g: u8, b: u8) -> (rgb: Rgb)
        ensures
            rgb == (Rgb { r, g, b }),
    {
        Rgb { r, g, b }
    }

    pub fn as_tuple(self) -> (t: (u8, u8, u8))
        ensures
            t == (self.r, self.g, self.b),
    {
        (self.r, self.g, self.b)
    }

    pub open spec fn dimmed(self) -> Rgb {
        Rgb { r: dim_channel(self.r), g: dim_channel(self.g), b: dim_channel(self.b) }
    }

    /// The color dimmed: each channel keeps [`DIM_PERCENT`] percent.
    pub fn dim(self) -> (rgb: Rgb)
        ensures
            rgb == self.dimmed(),
    {
        Rgb {
            r: ((self.r as u32) * (DIM_PERCENT as u32) / 100) as u8,
            g: ((self.g as u32) * (DIM_PERCENT as u32) / 100) as u8,
            b: ((self.b as u32) * (DIM_PERCENT as u32) / 100) as u8,
        }
    }

    pub open spec fn spec_add(self, rhs: Rgb) -> Rgb {
        Rgb {
            r: if self.r + rhs.r > 255 {
                255u8
            } else {
                (self.r + rhs.r) as u8
            },
            g: if self.g + rhs.g > 255 {
                255u8
            } else {
                (self.g + rhs.g) as u8
            },
            b: if self.b + rhs.b > 255 {
                255u8
            } else {
                (self.b + rhs.b) as u8
            },
        }
    }

    /// The channel-wise sum, each channel held at 255.
    pub fn add(self, rhs: Rgb) -> (rgb: Rgb)
        ensures
            rgb == self.spec_add(rhs),
    {
        Rgb {
            r: self.r.saturating_add(rhs.r),
            g: self.g.saturating_add(rhs.g),
            b: self.b.saturating_add(rhs.b),
        }
    }

    /// Reads a color written as `#rrggbb` or `0xrrggbb`.
    pub fn from_str(s: &str) -> (parsed: Result<Rgb, ()>)
        ensures
            match parse_hex_color(s.spec_bytes()) {
                Some(rgb) => parsed == Ok::<Rgb, ()>(rgb),
                None => parsed is Err,
            },
    {
        Self::from_hex_bytes(s.as_bytes())
    }

    /// Reads a color from the bytes of `#rrggbb` or `0xrrggbb`.
    ///
    /// The digits may be upper or lower case, and a `+` may stand in the
    /// place of the first digit.
    pub fn from_hex_bytes(s: &[u8]) -> (parsed: Result<Rgb, ()>)
        ensures
            match parse_hex_color(s@) {
                Some(rgb) => parsed == Ok::<Rgb, ()>(rgb),
                None => parsed is Err,
            },
    {
        let len: usize = s.len();
        let mut from: usize = if len == 8 && s[0] == 0x30 && s[1] == 0x78 {
            2
        } else if len == 7 && s[0] == 0x23 {
            1
        } else {
            return Err(());
        };
        if s[from] == 0x2b {
            from += 1;
        }
        let ghost digits = s@.subrange(from as int, len as int);
        assert(hex_color_digits(s@) == Some(digits)) by {
            if len == 8 {
                assert(s@.subrange(2, 8).subrange(1, 6) =~= s@.subrange(3, 8));
            } else {
                assert(s@.subrange(1, 7).subrange(1, 6) =~= s@.subrange(2, 7));
            }
        }
        let mut color: u32 = 0;
        let mut i: usize = from;
        while i < len
            invariant
                from <= i <= len,
                len == s@.len(),
                len - from <= 6,
                digits == s@.subrange(from as int, len as int),
                hex_color_digits(s@) == Some(digits),
                hex_value(digits.take(i - from)) == Some(color as nat),
            decreases len - i,
        {
            let ghost seen = digits.take(i - from);
            proof {
                lemma_hex_value_bound(seen);
                reveal_with_fuel(sixteen_to, 7);
                assert(seen.len() <= 5);
                assert(sixteen_to(seen.len()) <= 0x10_0000);
                assert(digits.take(i - from + 1).drop_last() =~= seen);
                assert(digits.take(i - from + 1).last() == s@[i as int]);
            }
            match hex_digit(s[i]) {
                Some(v) => {
                    color = color * 16 + v as u32;
                },
                None => {
                    proof {
                        assert(hex_digit_spec(digits.take(i - from + 1).last()) is None);
                        assert(hex_value(digits.take(i - from + 1)) is None);
                        lemma_hex_value_none(digits, i - from + 1);
                    }
                    return Err(());
                },
            }
            i += 1;
        }
        assert(digits.take(len - from) =~= digits);
        let b: u8 = (color % 0x100) as u8;
        let g: u8 = ((color / 0x100) % 0x100) as u8;
        let r: u8 = ((color / 0x1_0000) % 0x100) as u8;
        Ok(Rgb { r, g, b })
    }

    /// The color in the notation `#rrggbb`, with lower-case digits.
    pub open spec fn hex_notation(self) -> Seq<char> {
        seq![
            '#',
            hex_char(self.r / 16),
            hex_char(self.r % 16),
            hex_char(self.g / 16),
            hex_char(self.g % 16),
            hex_char(self.b / 16),
            hex_char(self.b % 16),
        ]
    }

    /// Writes the color as `#rrggbb`.
    pub fn to_hex_string(self) -> (s: String)
        ensures
            s@ == self.hex_notation(),
    {
        let mut v: Vec<char> = Vec::new();
        v.push('#');
        v.push(hex_char_of(self.r / 16));
        v.push(hex_char_of(self.r % 16));
        v.push(hex_char_of(self.g / 16));
        v.push(hex_char_of(self.g % 16));
        v.push(hex_char_of(self.b / 16));
        v.push(hex_char_of(self.b % 16));
        assert(v@ =~= self.hex_notation());
        crate::text::string_of(&v)
    }
}

/// A text is no number once one of its prefixes is none.
proof fn lemma_hex_value_none(digits: Seq<u8>, k: int)
    requires
        0 <= k <= digits.len(),
        hex_value(digits.take(k)) is None,
    ensures
        hex_value(digits) is None,
    decreases digits.len() - k,
{
    if k < digits.len() {
        assert(digits.take(k + 1).drop_last() =~= digits.take(k));
        lemma_hex_value_none(digits, k + 1);
    } else {
        assert(digits.take(k) =~= digits);
    }
}

/// A color given as such, or as the foreground or background color of the
/// cell it is used on.
#[derive(Debug, Eq, PartialEq, Copy, Clone, Structural)]
pub enum CellRgb {
    CellForeground,
    CellBackground,
    Rgb(Rgb),
}

impl CellRgb {
    pub open spec fn spec_color(self, foreground: Rgb, background: Rgb) -> Rgb {
        match self {
            CellRgb::CellForeground => foreground,
            CellRgb::CellBackground => background,
            CellRgb::Rgb(rgb) => rgb,
        }
    }

    /// The color on a cell with the given foreground and background.
    pub fn color(self, foreground: Rgb, background: Rgb) -> (rgb: Rgb)
        ensures
            rgb == self.spec_color(foreground, background),
    {
        match self {
            CellRgb::CellForeground => foreground,
            CellRgb::CellBackground => background,
            CellRgb::Rgb(rgb) => rgb,
        }
    }

    pub open spec fn spec_is_rgb(self) -> bool {
        self is Rgb
    }

    /// Whether the color is given as such.
    pub fn is_rgb(self) -> (r: bool)
        ensures
            r == self.spec_is_rgb(),
    {
        match self {
            CellRgb::Rgb(_) => true,
            _ => false,
        }
    }
}

/// The palette: one color for each of the [`COUNT`] slots.
#[derive(Debug)]
pub struct List {
    colors: Vec<Rgb>,
}

impl View for List {
    type V = Seq<Rgb>;

    closed spec fn view(&self) -> Seq<Rgb> {
        self.colors@
    }
}

impl List {
    /// Every palette has [`COUNT`] slots.
    pub closed spec fn wf(&self) -> bool {
        self.colors@.len() == COUNT
    }

    /// A palette has a color for every slot.
    pub proof fn lemma_len(&self)
        requires
            self.wf(),
        ensures
            self@.len() == COUNT,
    {
    }

    /// A palette with `fill` in every slot.
    pub fn filled(fill: Rgb) -> (list: List)
        ensures
            list.wf(),
            list@ == Seq::new(COUNT as nat, |i: int| fill),
    {
        let mut colors: Vec<Rgb> = Vec::with_capacity(COUNT);
        while colors.len() < COUNT
            invariant
                colors@.len() <= COUNT,
                colors@ =~= Seq::new(colors@.len(), |i: int| fill),
            decreases COUNT - colors@.len(),
        {
            colors.push(fill);
        }
        List { colors }
    }

    /// The color of slot `index`.
    pub fn get(&self, index: usize) -> (rgb: Rgb)
        requires
            self.wf(),
            index < COUNT,
        ensures
            rgb == self@[index as int],
    {
        self.colors[index]
    }

    /// Sets the color of slot `index`.
    pub fn set(&mut self, index: usize, rgb: Rgb)
        requires
            old(self).wf(),
            index < COUNT,
        ensures
            final(self).wf(),
            final(self)@ == old(self)@.update(index as int, rgb),
    {
        self.colors[index] = rgb;
    }

    /// The palette of a terminal with the foreground `foreground`, the
    /// background `background` and, if there is one, the bright foreground
    /// `bright_foreground`: each slot has the color that
    /// [`default_color`] gives.
    pub fn with_defaults(foreground: Rgb, background: Rgb, bright_foreground: Option<Rgb>) -> (list:
        List)
        ensures
            list.wf(),
            forall|slot: int|
                0 <= slot < COUNT ==> #[trigger] list@[slot] == default_color(
                    slot,
                    foreground,
                    background,
                    bright_foreground,
                ),
    {
        let mut colors: Vec<Rgb> = Vec::with_capacity(COUNT);
        let mut slot: usize = 0;
        while slot < COUNT
            invariant
                slot <= COUNT,
                colors@.len() == slot,
                forall|k: int|
                    0 <= k < slot ==> #[trigger] colors@[k] == default_color(
                        k,
                        foreground,
                        background,
                        bright_foreground,
                    ),
            decreases COUNT - slot,
        {
            let color: Rgb = if slot < 16 {
                ansi_color(slot as u8)
            } else if slot < 232 {
                let at: usize = slot - 16;
                Rgb {
                    r: cube_level((at / 36) as u8),
                    g: cube_level(((at / 6) % 6) as u8),
                    b: cube_level((at % 6) as u8),
                }
            } else if slot < 256 {
                let level: u8 = ((slot - 232) * 10 + 8) as u8;
                Rgb { r: level, g: level, b: level }
            } else if slot == 257 {
                background
            } else if 259 <= slot && slot <= 266 {
                ansi_color((slot - 259) as u8).dim()
            } else if slot == 267 {
                match bright_foreground {
                    Some(bright) => bright,
                    None => foreground,
                }
            } else if slot == 268 {
                foreground.dim()
            } else {
                foreground
            };
            colors.push(color);
            slot += 1;
        }
        List { colors }
    }
}

/// The level of a channel in the color cube of the indexed colors, for the
/// step `step` of six.
pub open spec fn spec_cube_level(step: int) -> u8 {
    if step == 0 {
        0
    } else {
        (step * 40 + 55) as u8
    }
}

/// The default color of the ANSI color `index`: the eight normal colors,
/// then the eight bright ones.
pub open spec fn spec_ansi_color(index: int) -> Rgb {
    if index == 0 {
        Rgb { r: 0x18, g: 0x18, b: 0x18 }
    } else if index == 1 {
        Rgb { r: 0xac, g: 0x42, b: 0x42 }
    } else if index == 2 {
        Rgb { r: 0x90, g: 0xa9, b: 0x59 }
    } else if index == 3 {
        Rgb { r: 0xf4, g: 0xbf, b: 0x75 }
    } else if index == 4 {
        Rgb { r: 0x6a, g: 0x9f, b: 0xb5 }
    } else if index == 5 {
        Rgb { r: 0xaa, g: 0x75, b: 0x9f }
    } else if index == 6 {
        Rgb { r: 0x75, g: 0xb5, b: 0xaa }
    } else if index == 7 {
        Rgb { r: 0xd8, g: 0xd8, b: 0xd8 }
    } else if index == 8 {
        Rgb { r: 0x6b, g: 0x6b, b: 0x6b }
    } else if index == 9 {
        Rgb { r: 0xc5, g: 0x55, b: 0x55 }
    } else if index == 10 {
        Rgb { r: 0xaa, g: 0xc4, b: 0x74 }
    } else if index == 11 {
        Rgb { r: 0xfe, g: 0xca, b: 0x88 }
    } else if index == 12 {
        Rgb { r: 0x82, g: 0xb8, b: 0xc8 }
    } else if index == 13 {
        Rgb { r: 0xc2, g: 0x8c, b: 0xb8 }
    } else if index == 14 {
        Rgb { r: 0x93, g: 0xd3, b: 0xc3 }
    } else {
        Rgb { r: 0xf8, g: 0xf8, b: 0xf8 }
    }
}

/// The color of the slot `slot` of the default palette: the sixteen ANSI
/// colors; the cube of six levels a channel; the ramp of twenty-four greys;
/// then foreground, background and cursor, the dim ANSI colors, the bright
/// foreground and the dim foreground.
pub open spec fn default_color(
    slot: int,
    foreground: Rgb,
    background: Rgb,
    bright_foreground: Option<Rgb>,
) -> Rgb {
    if slot < 16 {
        spec_ansi_color(slot)
    } else if slot < 232 {
        Rgb {
            r: spec_cube_level((slot - 16) / 36),
            g: spec_cube_level(((slot - 16) / 6) % 6),
            b: spec_cube_level((slot - 16) % 6),
        }
    } else if slot < 256 {
        Rgb {
            r: ((slot - 232) * 10 + 8) as u8,
            g: ((slot - 232) * 10 + 8) as u8,
            b: ((slot - 232) * 10 + 8) as u8,
        }
    } else if slot == 257 {
        background
    } else if 259 <= slot <= 266 {
        spec_ansi_color(slot - 259).dimmed()
    } else if slot == 267 {
        match bright_foreground {
            Some(bright) => bright,
            None => foreground,
        }
    } else if slot == 268 {
        foreground.dimmed()
    } else {
        foreground
    }
}

/// The level of a channel in the color cube, for the step `step` of six.
fn cube_level(step: u8) -> (level: u8)
    requires
        step < 6,
    ensures
        level == spec_cube_level(step as int),
{
    if step == 0 {
        0
    } else {
        step * 40 + 55
    }
}

/// The default color of the ANSI color `index`.
fn ansi_color(index: u8) -> (rgb: Rgb)
    ensures
        rgb == spec_ansi_color(index as int),
{
    if index == 0 {
        Rgb { r: 0x18, g: 0x18, b: 0x18 }
    } else if index == 1 {
        Rgb { r: 0xac, g: 0x42, b: 0x42 }
    } else if index == 2 {
        Rgb { r: 0x90, g: 0xa9, b: 0x59 }
    } else if index == 3 {
        Rgb { r: 0xf4, g: 0xbf, b: 0x75 }
    } else if index == 4 {
        Rgb { r: 0x6a, g: 0x9f, b: 0xb5 }
    } else if index == 5 {
        Rgb { r: 0xaa, g: 0x75, b: 0x9f }
    } else if index == 6 {
        Rgb { r: 0x75, g: 0xb5, b: 0xaa }
    } else if index == 7 {
        Rgb { r: 0xd8, g: 0xd8, b: 0xd8 }
    } else if index == 8 {
        Rgb { r: 0x6b, g: 0x6b, b: 0x6b }
    } else if index == 9 {
        Rgb { r: 0xc5, g: 0x55, b: 0x55 }
    } else if index == 10 {
        Rgb { r: 0xaa, g: 0xc4, b: 0x74 }
    } else if index == 11 {
        Rgb { r: 0xfe, g: 0xca, b: 0x88 }
    } else if index == 12 {
        Rgb { r: 0x82, g: 0xb8, b: 0xc8 }
    } else if index == 13 {
        Rgb { r: 0xc2, g: 0x8c, b: 0xb8 }
    } else if index == 14 {
        Rgb { r: 0x93, g: 0xd3, b: 0xc3 }
    } else {
        Rgb { r: 0xf8, g: 0xf8, b: 0xf8 }
    }
}

} // verus!

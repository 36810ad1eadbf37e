//! The kinds of rectangles that are drawn besides the text.

use vstd::prelude::*;

verus! {

/// Number of kinds of rectangles.
pub const NUM_KINDS: usize = 4;

/// How a rectangle is drawn.
#[derive(Copy, Clone, Debug, PartialEq, Eq, Structural)]
pub enum RectKind {
    Normal,
    Undercurl,
    DottedUnderline,
    DashedUnderline,
}

impl RectKind {
    /// The number of the kind, by which the shaders know it.
    pub open spec fn spec_index(self) -> usize {
        match self {
            RectKind::Normal => 0,
            RectKind::Undercurl => 1,
            RectKind::DottedUnderline => 2,
            RectKind::DashedUnderline => 3,
        }
    }

    /// The line that is put before the text of the shader that draws the
    /// kind.
    pub open spec fn spec_shader_header(self) -> Option<Seq<char>> {
        match self {
            RectKind::Undercurl => Some("#define DRAW_UNDERCURL\n"@),
            RectKind::DottedUnderline => Some("#define DRAW_DOTTED\n"@),
            RectKind::DashedUnderline => Some("#define DRAW_DASHED\n"@),
            RectKind::Normal => None,
        }
    }

    /// The kind that is drawn in place of this one where its shader cannot
    /// be built: plain lines stand for dotted ones.
    pub open spec fn spec_fallback(self) -> Option<RectKind> {
        match self {
            RectKind::DottedUnderline => Some(RectKind::Normal),
            _ => None,
        }
    }

    /// The number of the kind.
    pub fn index(self) -> (i: usize)
        ensures
            i == self.spec_index(),
            i < NUM_KINDS,
    {
        match self {
            RectKind::Normal => 0,
            RectKind::Undercurl => 1,
            RectKind::DottedUnderline => 2,
            RectKind::DashedUnderline => 3,
        }
    }

    /// The kind with the number `index`.
    pub fn from_index(index: usize) -> (kind: Option<RectKind>)
        ensures
            match kind {
                Some(k) => k.spec_index() == index,
                None => index >= NUM_KINDS,
            },
    {
        if index == 0 {
            Some(RectKind::Normal)
        } else if index == 1 {
            Some(RectKind::Undercurl)
        } else if index == 2 {
            Some(RectKind::DottedUnderline)
        } else if index == 3 {
            Some(RectKind::DashedUnderline)
        } else {
            None
        }
    }

    /// The line that is put before the text of the shader that draws the
    /// kind.
    pub fn shader_header(self) -> (header: Option<&'static str>)
        ensures
            match header {
                Some(h) => self.spec_shader_header() == Some(h@),
                None => self.spec_shader_header() is None,
            },
    {
        match self {
            RectKind::Undercurl => Some("#define DRAW_UNDERCURL\n"),
            RectKind::DottedUnderline => Some("#define DRAW_DOTTED\n"),
            RectKind::DashedUnderline => Some("#define DRAW_DASHED\n"),
            RectKind::Normal => None,
        }
    }

    /// The kind that is drawn in place of this one where its shader cannot
    /// be built.
    pub fn fallback(self) -> (kind: Option<RectKind>)
        ensures
            kind == self.spec_fallback(),
    {
        match self {
            RectKind::DottedUnderline => Some(RectKind::Normal),
            _ => None,
        }
    }

    /// The kinds in the order in which they are drawn: plain rectangles
    /// last, so that they lie above the lines.
    pub fn draw_order() -> (order: Vec<RectKind>)
        ensures
            order@ == seq![
                RectKind::DashedUnderline,
                RectKind::DottedUnderline,
                RectKind::Undercurl,
                RectKind::Normal,
            ],
    {
        let mut order: Vec<RectKind> = Vec::new();
        order.push(RectKind::DashedUnderline);
        order.push(RectKind::DottedUnderline);
        order.push(RectKind::Undercurl);
        order.push(RectKind::Normal);
        order
    }
}

} // verus!

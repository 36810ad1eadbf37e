//! Shortening of a text to a number of columns.

use vstd::prelude::*;

use crate::text::{chars_of, string_of};
use crate::width::{char_width, unicode_width};

verus! {

/// What a [`StrShortener`] does next.
#[derive(Debug, Clone, Copy, PartialEq, Eq, Structural)]
pub enum TextAction {
    /// Give the space that follows a wide character.
    Spacer,
    /// Nothing is left to give.
    Terminate,
    /// Give the character that stands for what was cut off.
    Shortener,
    /// Give a character of the text.
    Char,
}

/// The side at which a text is cut.
#[derive(Debug, Clone, Copy, PartialEq, Eq, Structural)]
pub enum ShortenDirection {
    /// The start of the text is cut off.
    Left,
    /// The end of the text is cut off.
    Right,
}

/// The mathematical model of a [`StrShortener`].
pub struct StrShortenerView {
    /// The characters of the text that are still to come.
    pub rest: Seq<char>,
    /// Columns of the characters that were given within the width.
    pub accumulated_len: nat,
    pub max_width: nat,
    pub direction: ShortenDirection,
    /// The character that stands for what was cut off, until it is given.
    pub shortener: Option<char>,
    pub text_action: TextAction,
}

/// Columns that the shortening counts for `c`: its width, and one column
/// for a character without a width.
pub open spec fn shown_width(c: char) -> nat {
    match unicode_width(c) {
        Some(w) => w as nat,
        None => 1,
    }
}

/// How a text is cut at its start: the number of characters kept at its
/// end, whether a character stands for what was cut off, and whether the
/// text begins with that character.
pub struct LeftCut {
    pub kept: nat,
    pub shortener: Option<char>,
    pub starts_with_shortener: bool,
}

/// The cut of `text` at its start, found by going back from its end:
/// `taken` characters of `columns` columns are kept so far.
pub open spec fn left_cut_from(
    text: Seq<char>,
    max_width: nat,
    shortener: Option<char>,
    taken: nat,
    columns: nat,
) -> LeftCut
    decreases text.len() - taken,
{
    if taken >= text.len() {
        LeftCut {
            kept: taken,
            shortener,
            starts_with_shortener: columns >= max_width && shortener is Some,
        }
    } else {
        let width = shown_width(text[text.len() - 1 - taken]);
        let total = columns + width;
        if total > max_width {
            LeftCut { kept: taken, shortener, starts_with_shortener: shortener is Some }
        } else if total == max_width && shortener is Some && taken + 1 < text.len() {
            LeftCut { kept: taken, shortener, starts_with_shortener: true }
        } else if total == max_width {
            left_cut_from(text, max_width, None, taken + 1, total)
        } else {
            left_cut_from(text, max_width, shortener, taken + 1, total)
        }
    }
}

impl StrShortenerView {
    /// What holds of every shortener: until it has given its last
    /// character, the columns given are within the width.
    pub open spec fn wf(self) -> bool {
        self.text_action != TextAction::Terminate ==> self.accumulated_len <= self.max_width
    }

    /// The shortener for `text`, to be shown in `max_width` columns.
    pub open spec fn initial(
        text: Seq<char>,
        max_width: nat,
        direction: ShortenDirection,
        shortener: Option<char>,
    ) -> StrShortenerView {
        let shortener = if text.len() == 0 {
            None
        } else {
            shortener
        };
        match direction {
            ShortenDirection::Right => StrShortenerView {
                rest: text,
                accumulated_len: 0,
                max_width,
                direction,
                shortener,
                text_action: TextAction::Char,
            },
            ShortenDirection::Left => {
                let cut = left_cut_from(text, max_width, shortener, 0, 0);
                StrShortenerView {
                    rest: text.subrange(text.len() - cut.kept, text.len() as int),
                    accumulated_len: 0,
                    max_width,
                    direction,
                    shortener: cut.shortener,
                    text_action: if cut.starts_with_shortener {
                        TextAction::Shortener
                    } else {
                        TextAction::Char
                    },
                }
            },
        }
    }

    /// The character that is given next, and the shortener after it.
    pub open spec fn step(self) -> (Option<char>, StrShortenerView) {
        match self.text_action {
            TextAction::Spacer => (
                Some(' '),
                StrShortenerView { text_action: TextAction::Char, ..self },
            ),
            TextAction::Terminate => (None, self),
            TextAction::Shortener => (
                self.shortener,
                StrShortenerView {
                    text_action: if self.direction == ShortenDirection::Left {
                        TextAction::Char
                    } else {
                        TextAction::Terminate
                    },
                    shortener: None,
                    ..self
                },
            ),
            TextAction::Char => if self.rest.len() == 0 {
                (None, self)
            } else {
                let ch = self.rest[0];
                let width = shown_width(ch);
                let total = self.accumulated_len + width;
                let rest = self.rest.drop_first();
                if total > self.max_width {
                    (
                        self.shortener,
                        StrShortenerView { rest, text_action: TextAction::Terminate, ..self },
                    )
                } else if total == self.max_width && self.shortener is Some {
                    (
                        if rest.len() > 0 {
                            self.shortener
                        } else {
                            Some(ch)
                        },
                        StrShortenerView {
                            rest,
                            accumulated_len: total,
                            text_action: TextAction::Terminate,
                            ..self
                        },
                    )
                } else {
                    (
                        Some(ch),
                        StrShortenerView {
                            rest,
                            accumulated_len: total,
                            text_action: if width == 2 {
                                TextAction::Spacer
                            } else {
                                TextAction::Char
                            },
                            ..self
                        },
                    )
                }
            },
        }
    }

    /// One while a spacer or the shortener is due before the next
    /// character of the text, else zero.
    pub open spec fn pending(self) -> nat {
        match self.text_action {
            TextAction::Spacer => 1,
            TextAction::Shortener => 1,
            _ => 0,
        }
    }

    /// All characters that the shortener gives, until it gives none.
    pub open spec fn collected(self) -> Seq<char>
        decreases self.rest.len(), self.pending(),
    {
        match self.step() {
            (Some(c), next) => seq![c] + next.collected(),
            (None, _) => Seq::empty(),
        }
    }
}

/// Gives the characters of a text shortened to a number of columns.
#[derive(Debug)]
pub struct StrShortener {
    chars: Vec<char>,
    /// Index in `chars` of the character that comes next.
    pos: usize,
    accumulated_len: usize,
    max_width: usize,
    direction: ShortenDirection,
    shortener: Option<char>,
    text_action: TextAction,
}

impl View for StrShortener {
    type V = StrShortenerView;

    closed spec fn view(&self) -> StrShortenerView {
        StrShortenerView {
            rest: if self.pos <= self.chars@.len() {
                self.chars@.subrange(self.pos as int, self.chars@.len() as int)
            } else {
                Seq::empty()
            },
            accumulated_len: self.accumulated_len as nat,
            max_width: self.max_width as nat,
            direction: self.direction,
            shortener: self.shortener,
            text_action: self.text_action,
        }
    }
}

/// Columns that the shortening counts for `c`.
fn width_of(c: char) -> (w: usize)
    ensures
        w == shown_width(c),
        w <= 3,
{
    match char_width(c) {
        Some(w) => w,
        None => 1,
    }
}

impl StrShortener {
    /// The invariant of the representation.
    pub closed spec fn wf(&self) -> bool {
        self.pos <= self.chars@.len() && self@.wf()
    }

    /// The shortener for `text`, to be shown in `max_width` columns.
    pub fn new(
        text: &str,
        max_width: usize,
        direction: ShortenDirection,
        shortener: Option<char>,
    ) -> (s: StrShortener)
        ensures
            s.wf(),
            s@ == StrShortenerView::initial(text@, max_width as nat, direction, shortener),
    {
        let chars: Vec<char> = chars_of(text);
        let n: usize = chars.len();
        let mut shortener: Option<char> = if n == 0 {
            None
        } else {
            shortener
        };
        match direction {
            ShortenDirection::Right => {
                let s = StrShortener {
                    chars,
                    pos: 0,
                    accumulated_len: 0,
                    max_width,
                    direction,
                    shortener,
                    text_action: TextAction::Char,
                };
                assert(s@.rest =~= text@);
                return s;
            },
            ShortenDirection::Left => {},
        }
        let ghost first = shortener;
        let mut taken: usize = 0;
        let mut columns: usize = 0;
        let mut starts_with_shortener: bool = false;
        let mut done: bool = false;
        while taken < n && !done
            invariant
                taken <= n,
                n == chars@.len(),
                chars@ == text@,
                columns <= max_width,
                !done ==> left_cut_from(text@, max_width as nat, first, 0, 0) == left_cut_from(
                    text@,
                    max_width as nat,
                    shortener,
                    taken as nat,
                    columns as nat,
                ),
                done ==> left_cut_from(text@, max_width as nat, first, 0, 0) == (LeftCut {
                    kept: taken as nat,
                    shortener,
                    starts_with_shortener,
                }),
            decreases n - taken, if done { 0int } else { 1int },
        {
            let width: usize = width_of(chars[n - 1 - taken]);
            let room: usize = max_width - columns;
            if width > room {
                starts_with_shortener = shortener.is_some();
                done = true;
            } else if width == room && shortener.is_some() && taken + 1 < n {
                starts_with_shortener = true;
                done = true;
            } else {
                if width == room {
                    shortener = None;
                }
                columns += width;
                taken += 1;
            }
        }
        if !done {
            starts_with_shortener = columns >= max_width && shortener.is_some();
        }
        StrShortener {
            chars,
            pos: n - taken,
            accumulated_len: 0,
            max_width,
            direction,
            shortener,
            text_action: if starts_with_shortener {
                TextAction::Shortener
            } else {
                TextAction::Char
            },
        }
    }

    /// The next character, if there is one.
    pub fn next(&mut self) -> (c: Option<char>)
        requires
            old(self).wf(),
        ensures
            final(self).wf(),
            (c, final(self)@) == old(self)@.step(),
    {
        match self.text_action {
            TextAction::Spacer => {
                self.text_action = TextAction::Char;
                Some(' ')
            },
            TextAction::Terminate => None,
            TextAction::Shortener => {
                self.text_action = match self.direction {
                    ShortenDirection::Left => TextAction::Char,
                    ShortenDirection::Right => TextAction::Terminate,
                };
                let given: Option<char> = self.shortener;
                self.shortener = None;
                given
            },
            TextAction::Char => {
                if self.pos >= self.chars.len() {
                    return None;
                }
                let ghost pre = self@;
                let ch: char = self.chars[self.pos];
                let width: usize = width_of(ch);
                let room: usize = self.max_width - self.accumulated_len;
                self.pos += 1;
                assert(self@.rest =~= pre.rest.drop_first());
                assert(pre.rest[0] == ch);
                if width > room {
                    self.text_action = TextAction::Terminate;
                    return self.shortener;
                }
                self.accumulated_len += width;
                if width == room && self.shortener.is_some() {
                    let has_next: bool = self.pos < self.chars.len();
                    self.text_action = TextAction::Terminate;
                    if has_next {
                        return self.shortener;
                    } else {
                        return Some(ch);
                    }
                }
                if width == 2 {
                    self.text_action = TextAction::Spacer;
                }
                Some(ch)
            },
        }
    }

    /// All characters that are left to give, as a string.
    pub fn collect(self) -> (out: String)
        requires
            self.wf(),
        ensures
            out@ == self@.collected(),
    {
        let mut shortener = self;
        let mut out: Vec<char> = Vec::new();
        loop
            invariant
                shortener.wf(),
                self@.collected() == out@ + shortener@.collected(),
            decreases shortener@.rest.len(), shortener@.pending(),
        {
            let ghost before = out@;
            let ghost rest = shortener@.collected();
            match shortener.next() {
                Some(c) => {
                    out.push(c);
                    assert(before + (seq![c] + shortener@.collected()) =~= out@
                        + shortener@.collected());
                },
                None => {
                    assert(out@ + rest =~= out@);
                    return string_of(&out);
                },
            }
        }
    }
}

} // verus!

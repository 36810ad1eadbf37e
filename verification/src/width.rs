//! Display width of characters.

use vstd::prelude::*;
use unicode_width::UnicodeWidthChar;

verus! {

/// The number of columns that `c` takes on screen, or `None` for a control
/// character, as the Unicode tables give it.
pub uninterp spec fn unicode_width(c: char) -> Option<usize>;

/// Whether `w` can be the width of `c`: control characters have none,
/// printable ASCII takes one column, and no character takes more than three.
pub open spec fn width_in_range(c: char, w: Option<usize>) -> bool {
    let u = c as u32;
    &&& (u < 0x20 || 0x7f <= u < 0xa0) ==> w is None
    &&& 0x20 <= u < 0x7f ==> w == Some(1usize)
    &&& u >= 0xa0 ==> w is Some
    &&& w matches Some(n) ==> n <= 3
}

/// `UnicodeWidthChar::width` of unicode-width: the table look-up that
/// [`unicode_width`] names, with the bounds that the look-up's code shows.
#[verifier::external_body]
pub(crate) fn char_width(c: char) -> (w: Option<usize>)
    ensures
        w == unicode_width(c),
        width_in_range(c, w),
{
    c.width()
}

} // verus!

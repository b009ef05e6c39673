//! Display widths, as the `unicode-width` crate measures them.
use unicode_width::UnicodeWidthChar;
use unicode_width::UnicodeWidthStr;
use vstd::prelude::*;

verus! {

/// The columns a char takes on a terminal, as `UnicodeWidthChar::width`
/// gives them: `None` for a control char.
pub uninterp spec fn char_columns(c: char) -> Option<usize>;

/// The columns a string takes on a terminal, as `UnicodeWidthStr::width`
/// gives them. This is not always the sum of the chars' widths (emoji
/// sequences, `"\r\n"` and some ligatures count otherwise).
pub uninterp spec fn str_columns(s: Seq<char>) -> usize;

/// `UnicodeWidthChar::width`: its result is `char_columns(c)`. Nothing more
/// is claimed of which chars take how many columns.
#[verifier::external_body]
pub(crate) fn char_width(c: char) -> (r: Option<usize>)
    ensures
        r == char_columns(c),
{
    UnicodeWidthChar::width(c)
}

/// `UnicodeWidthStr::width`: its result is `str_columns(s@)`. Nothing more is
/// claimed of the measure.
#[verifier::external_body]
pub(crate) fn str_width(s: &str) -> (r: usize)
    ensures
        r == str_columns(s@),
{
    UnicodeWidthStr::width(s)
}

} // verus!

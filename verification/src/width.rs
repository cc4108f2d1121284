//! Display widths of characters, as a terminal renders them.

use vstd::prelude::*;

verus! {

/// The number of terminal columns a character occupies when displayed.
pub uninterp spec fn display_width_of(c: char) -> usize;

/// Relies on unicode_width's `UnicodeWidthChar::width`: the displayed
/// width of the character in columns, which depends on the character
/// alone; `None` (a control character) is counted as zero columns.
#[verifier::external_body]
pub fn char_display_width(c: char) -> (w: usize)
    ensures
        w == display_width_of(c),
{
    unicode_width::UnicodeWidthChar::width(c).unwrap_or(0)
}

/// The total displayed width of a sequence of characters: the sum of the
/// widths of its characters.
pub open spec fn spec_display_width(s: Seq<char>) -> int
    decreases s.len(),
{
    if s.len() == 0 {
        0
    } else {
        spec_display_width(s.drop_last()) + display_width_of(s.last())
    }
}

/// Each character contributes a non-negative width.
pub proof fn lemma_display_width_nonneg(s: Seq<char>)
    ensures
        spec_display_width(s) >= 0,
    decreases s.len(),
{
    if s.len() > 0 {
        lemma_display_width_nonneg(s.drop_last());
    }
}

} // verus!

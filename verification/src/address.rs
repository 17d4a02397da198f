//! Reading an address that a user typed.

use vstd::prelude::*;

verus! {

/// What `parse_int::parse::<usize>` makes of a text: the number it writes, or
/// nothing if it writes none that fits.
pub uninterp spec fn parsed_address(text: Seq<char>) -> Option<usize>;

/// Calls `parse_int::parse::<usize>`, which trims the text, takes `0x`, `0o`
/// and `0b` as the marks of base sixteen, eight and two, drops underscores and
/// reads the rest as a number. The call depends on the text alone; its error
/// is dropped.
#[verifier::external_body]
pub(crate) fn parse_address(text: &str) -> (r: Option<usize>)
    ensures
        r == parsed_address(text@),
{
    parse_int::parse::<usize>(text).ok()
}

} // verus!

//! The dedenting boundary.

use vstd::prelude::*;

verus! {

/// A text with the whitespace common to all its non-empty lines
/// removed from each.  A pure function of the input, named rather than
/// restated.
pub uninterp spec fn dedented(s: Seq<char>) -> Seq<char>;

/// Relies on `textwrap::dedent`: the text with the longest common
/// leading whitespace removed from every line, determined by the input
/// alone.
#[verifier::external_body]
pub(crate) fn dedent(s: &str) -> (r: String)
    ensures
        r@ == dedented(s@),
{
    textwrap::dedent(s)
}

} // verus!

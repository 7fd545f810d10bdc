//! The percent-encoding boundary.

use vstd::prelude::*;

verus! {

/// The percent-encoded form of a string: every byte outside the
/// unreserved set becomes `%XX`.  A pure function of the input, named
/// rather than restated.
pub uninterp spec fn url_encoded(s: Seq<char>) -> Seq<char>;

/// Relies on `urlencoding::encode`: the percent-encoded form of the
/// input, determined by the input alone.
#[verifier::external_body]
pub(crate) fn url_encode(s: &str) -> (r: String)
    ensures
        r@ == url_encoded(s@),
{
    urlencoding::encode(s).into_owned()
}

} // verus!

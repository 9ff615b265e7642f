use vstd::prelude::*;

verus! {

/// Whether a text parses as a URL, as the `validator` crate decides it.
pub uninterp spec fn url_valid(s: Seq<char>) -> bool;

/// Relies on validator::validate_url: true exactly when the text parses as a
/// URL, which depends on the text alone.
#[verifier::external_body]
pub(crate) fn is_url(s: &str) -> (r: bool)
    ensures
        r == url_valid(s@),
{
    validator::validate_url(s)
}

} // verus!

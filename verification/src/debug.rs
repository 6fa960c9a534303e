//! Quoting text in messages.

use vstd::prelude::*;

verus! {

/// The text in double quotes, with escapes, as messages quote it.
pub uninterp spec fn debug_text(s: Seq<char>) -> Seq<char>;

/// `format!` with `{:?}` on a string slice: the text in double quotes, its
/// special characters escaped. The result depends on the text alone; which
/// escape a character gets is not stated.
#[verifier::external_body]
pub(crate) fn debug_str(s: &str) -> (r: String)
    ensures
        r@ == debug_text(s@),
{
    format!("{:?}", s)
}

} // verus!

//! Percent-encoding of values embedded in proxied URLs.

use vstd::prelude::*;

use crate::text::nl_free;

verus! {

/// The percent-encoding of a string: every byte of its UTF-8 form except
/// ASCII alphanumerics and `-`, `_`, `.`, `~` becomes a `%XX` escape.
/// The exact character sequence is left abstract; it depends on the input
/// characters alone.
pub uninterp spec fn enc_of(s: Seq<char>) -> Seq<char>;

/// Relies on `urlencoding::encode`: percent-encodes every byte except
/// ASCII alphanumerics and `-`, `_`, `.`, `~`. The result is a function of
/// the input characters alone, and since every other byte (newlines among
/// them) is escaped, the result never contains a line feed.
#[verifier::external_body]
pub(crate) fn percent_encode(s: &str) -> (r: String)
    ensures
        r@ == enc_of(s@),
        nl_free(r@),
{
    urlencoding::encode(s).into_owned()
}

} // verus!

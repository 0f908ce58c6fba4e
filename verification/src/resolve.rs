//! URL resolution: parsing absolute references and joining relative ones
//! against the manifest's own URL.

use vstd::prelude::*;

verus! {

/// What parsing a string as an absolute URL yields: `Some` of the normalized
/// serialization when the string is an absolute URL, `None` otherwise. The
/// outcome depends on the input characters alone.
pub uninterp spec fn parse_abs_of(s: Seq<char>) -> Option<Seq<char>>;

/// What resolving a reference against a base URL yields: `Some` of the
/// normalized serialization of the resolved URL when the base parses and the
/// reference can be resolved against it, `None` otherwise. The outcome
/// depends on the two inputs alone.
pub uninterp spec fn join_of(base: Seq<char>, rel: Seq<char>) -> Option<Seq<char>>;

/// A reference resolved as the rewriter sees it: taken as it stands when it
/// is an absolute URL on its own, resolved against the manifest's URL
/// otherwise, and `None` when neither works.
pub open spec fn resolve_of(base: Seq<char>, line: Seq<char>) -> Option<Seq<char>> {
    if parse_abs_of(line) is Some {
        parse_abs_of(line)
    } else {
        join_of(base, line)
    }
}

/// Relies on `url::Url::parse`: succeeds exactly when the input is an
/// absolute URL, and `Url::as_str` then returns its normalized
/// serialization. Deterministic in the input string.
#[verifier::external_body]
pub(crate) fn parse_absolute(s: &str) -> (r: Option<String>)
    ensures
        match r {
            Some(u) => parse_abs_of(s@) == Some(u@),
            None => parse_abs_of(s@) is None,
        },
{
    match url::Url::parse(s) {
        Ok(u) => Some(u.as_str().to_owned()),
        Err(_) => None,
    }
}

/// Relies on `url::Url::parse` and `url::Url::join`: parses the base and
/// resolves the reference against it per the URL standard (the reference
/// replaces the last path segment of the base), returning the normalized
/// serialization. Deterministic in the two input strings.
#[verifier::external_body]
pub(crate) fn join_resolve(base: &str, rel: &str) -> (r: Option<String>)
    ensures
        match r {
            Some(u) => join_of(base@, rel@) == Some(u@),
            None => join_of(base@, rel@) is None,
        },
{
    match url::Url::parse(base) {
        Ok(b) => match b.join(rel) {
            Ok(u) => Some(u.as_str().to_owned()),
            Err(_) => None,
        },
        Err(_) => None,
    }
}

/// Tries the reference on its own first, then against the base.
pub(crate) fn resolve_reference(base: &str, line: &str) -> (r: Option<String>)
    ensures
        match r {
            Some(u) => resolve_of(base@, line@) == Some(u@),
            None => resolve_of(base@, line@) is None,
        },
{
    match parse_absolute(line) {
        Some(u) => Some(u),
        None => join_resolve(base, line),
    }
}

} // verus!

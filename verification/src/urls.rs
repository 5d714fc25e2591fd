//! URL validation and joining, done by the `url` crate behind trusted
//! wrappers.
//!
//! Parsing and joining follow the WHATWG URL standard; their results are
//! functions of the input strings alone, so they are named by uninterpreted
//! spec functions and every caller's contract is stated over those names.

use vstd::prelude::*;

verus! {

/// The normalized serialization of `s` parsed as an absolute URL, or `None`
/// when `s` is not an absolute URL. Stands for what `url::Url::parse`
/// followed by serialization produces; the result depends on `s` alone.
pub uninterp spec fn url_normalized(s: Seq<char>) -> Option<Seq<char>>;

/// The serialization of the URL obtained by resolving the relative reference
/// `rel` against the absolute URL `base`, or `None` when either the base
/// does not parse or the join is impossible (a base that cannot carry a
/// path). Stands for `url::Url::parse` on the base followed by `Url::join`;
/// the result depends on the two strings alone.
pub uninterp spec fn url_joined(base: Seq<char>, rel: Seq<char>) -> Option<Seq<char>>;

/// Relies on `url::Url::parse` and the serialization returned by
/// `Url::to_string`: parses an absolute URL and returns its normalized text,
/// or the parse error's message exactly when the input is not an absolute
/// URL.
#[verifier::external_body]
pub(crate) fn normalize_url(s: &str) -> (r: Result<String, String>)
    ensures
        r is Ok <==> url_normalized(s@) is Some,
        r is Ok ==> r->Ok_0@ == url_normalized(s@)->0,
{
    match url::Url::parse(s) {
        Ok(u) => Ok(u.to_string()),
        Err(e) => Err(e.to_string()),
    }
}

/// Relies on `url::Url::parse` and `Url::join`: resolves `rel` against the
/// absolute URL `base` and returns the joined URL's serialization, or an
/// error message exactly when parsing or joining fails.
#[verifier::external_body]
pub(crate) fn join_url(base: &str, rel: &str) -> (r: Result<String, String>)
    ensures
        r is Ok <==> url_joined(base@, rel@) is Some,
        r is Ok ==> r->Ok_0@ == url_joined(base@, rel@)->0,
{
    match url::Url::parse(base) {
        Ok(u) => match u.join(rel) {
            Ok(joined) => Ok(joined.to_string()),
            Err(e) => Err(e.to_string()),
        },
        Err(e) => Err(e.to_string()),
    }
}

} // verus!

//! Storage-path construction shared by backend adapters.
//!
//! A stable relative path is composed from a sanitized storage root plus the
//! asset's logical name: characters that are unsafe in identifiers (spaces)
//! are normalized to an underscore before path construction. The on-disk
//! save path prefixes the relative path with the storage mount point.

use vstd::prelude::*;

verus! {

/// Image of one character under sanitization: a space becomes an underscore,
/// every other character is kept.
pub open spec fn sanitize_char(c: char) -> char {
    if c == ' ' {
        '_'
    } else {
        c
    }
}

/// Image of a whole path segment under sanitization.
pub open spec fn sanitize_seq(s: Seq<char>) -> Seq<char> {
    s.map_values(|c: char| sanitize_char(c))
}

/// The relative path under which an asset is both stored and served:
/// the sanitized directory, a slash, and the asset's name.
pub open spec fn web_path_seq(directory: Seq<char>, name: Seq<char>) -> Seq<char> {
    sanitize_seq(directory) + "/"@ + name
}

/// The mount point under which the serving directory lives on disk.
pub open spec fn storage_root() -> Seq<char> {
    "/storage/"@
}

/// The absolute on-disk path for an asset: the storage mount point followed
/// by the relative web path.
pub open spec fn save_path_seq(directory: Seq<char>, name: Seq<char>) -> Seq<char> {
    storage_root() + web_path_seq(directory, name)
}

/// Appends one character to an owned string.
///
/// Relies on `String::push`: the string gains exactly the pushed character
/// at its end.
#[verifier::external_body]
fn push_char(s: &mut String, c: char)
    ensures
        final(s)@ == old(s)@.push(c),
{
    s.push(c);
}

/// Replaces every space in `s` with an underscore, leaving all other
/// characters in place.
pub fn sanitize_path_segment(s: &str) -> (r: String)
    ensures
        r@ == sanitize_seq(s@),
{
    let len = s.unicode_len();
    let mut r = String::new();
    let mut i: usize = 0;
    while i < len
        invariant
            len == s@.len(),
            i <= len,
            r@ == s@.take(i as int).map_values(|c: char| sanitize_char(c)),
        decreases len - i,
    {
        let c = s.get_char(i);
        if c == ' ' {
            push_char(&mut r, '_');
        } else {
            push_char(&mut r, c);
        }
        proof {
            assert(s@.take(i + 1).drop_last() =~= s@.take(i as int));
            assert(s@.take(i + 1).map_values(|c: char| sanitize_char(c)) =~= s@.take(
                i as int,
            ).map_values(|c: char| sanitize_char(c)).push(sanitize_char(s@[i as int])));
        }
        i = i + 1;
    }
    proof {
        assert(s@.take(len as int) =~= s@);
    }
    r
}

/// Sanitizing a segment twice yields the same result as sanitizing it once:
/// replacing spaces with underscores is stable under repeated application.
pub proof fn lemma_sanitize_idempotent(s: Seq<char>)
    ensures
        sanitize_seq(sanitize_seq(s)) == sanitize_seq(s),
{
    assert(sanitize_seq(sanitize_seq(s)) =~= sanitize_seq(s));
}

/// Builds the relative web path for an asset: sanitized directory, slash,
/// asset name.
pub fn web_path(directory: &str, name: &str) -> (r: String)
    ensures
        r@ == web_path_seq(directory@, name@),
{
    let r = sanitize_path_segment(directory);
    let r = r.concat("/");
    let r = r.concat(name);
    r
}

/// Builds the absolute on-disk save path for an asset.
pub fn save_path(directory: &str, name: &str) -> (r: String)
    ensures
        r@ == save_path_seq(directory@, name@),
{
    let root = String::from_str("/storage/");
    let rel = web_path(directory, name);
    let r = root.concat(rel.as_str());
    r
}

} // verus!

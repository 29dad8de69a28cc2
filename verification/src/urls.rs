//! URL parsing and resolution, by the `url` crate. URLs are held as the text
//! of their serialization.

use vstd::prelude::*;

verus! {

/// What `url::Url::parse` gives for `text`: the serialization of the parsed
/// URL, or nothing when `text` is not a valid absolute URL.
pub uninterp spec fn url_parse(text: Seq<char>) -> Option<Seq<char>>;

/// What `url::Url::join` gives when the URL that `base` parses to resolves
/// `input`: the serialization of the result, or nothing when either fails.
pub uninterp spec fn url_join(base: Seq<char>, input: Seq<char>) -> Option<Seq<char>>;

/// The view of an optional text.
pub open spec fn opt_view(s: Option<String>) -> Option<Seq<char>> {
    match s {
        Some(t) => Some(t@),
        None => None,
    }
}

/// `url::Url::parse`, with the parsed URL given back as its serialization.
/// Claimed: the result is a function of `text` alone.
#[verifier::external_body]
pub(crate) fn parse_url(text: &str) -> (r: Option<String>)
    ensures
        opt_view(r) == url_parse(text@),
{
    url::Url::parse(text).ok().map(String::from)
}

/// `url::Url::join` on the URL that `base` parses to, with the result given
/// back as its serialization. Claimed: the result is a function of `base` and
/// `input` alone.
#[verifier::external_body]
pub(crate) fn join_url(base: &str, input: &str) -> (r: Option<String>)
    ensures
        opt_view(r) == url_join(base@, input@),
{
    match url::Url::parse(base) {
        Ok(b) => b.join(input).ok().map(String::from),
        Err(_) => None,
    }
}

} // verus!

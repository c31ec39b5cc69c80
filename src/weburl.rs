//! Absolute URLs, parsed by the `url` crate.
use vstd::prelude::*;

verus! {

/// The serialization of the URL that `url::Url::parse` makes of the text, or
/// `None` where it rejects the text.
pub uninterp spec fn url_parse(text: Seq<char>) -> Option<Seq<char>>;

/// The decoded pairs of `url::Url::query_pairs` of the URL with this serialization.
pub uninterp spec fn url_query(serialized: Seq<char>) -> Seq<(Seq<char>, Seq<char>)>;

/// The items of `url::Url::path_segments` of the URL with this serialization,
/// `None` for a URL that cannot be a base.
pub uninterp spec fn url_segments(serialized: Seq<char>) -> Option<Seq<Seq<char>>>;

/// Relies on `url::Url::parse` and `url::Url::as_str`.
#[verifier::external_body]
pub(crate) fn parse(text: &str) -> (r: Option<String>)
    ensures
        match r {
            Some(s) => url_parse(text@) == Some(s@),
            None => url_parse(text@) is None,
        },
{
    url::Url::parse(text).ok().map(|u| u.as_str().to_string())
}

/// Relies on `url::Url::query_pairs`, on the URL parsed back from its serialization.
#[verifier::external_body]
pub(crate) fn query_pairs(serialized: &str) -> (r: Vec<(String, String)>)
    ensures
        r@.map_values(|p: (String, String)| (p.0@, p.1@)) == url_query(serialized@),
{
    match url::Url::parse(serialized) {
        Ok(u) => u.query_pairs().map(|(k, v)| (k.into_owned(), v.into_owned())).collect(),
        Err(_) => Vec::new(),
    }
}

/// Relies on `url::Url::path_segments`, on the URL parsed back from its serialization.
#[verifier::external_body]
pub(crate) fn path_segments(serialized: &str) -> (r: Option<Vec<String>>)
    ensures
        match r {
            Some(v) => url_segments(serialized@) == Some(v@.map_values(|s: String| s@)),
            None => url_segments(serialized@) is None,
        },
{
    match url::Url::parse(serialized) {
        Ok(u) => u.path_segments().map(|segs| segs.map(|s| s.to_string()).collect()),
        Err(_) => None,
    }
}

} // verus!

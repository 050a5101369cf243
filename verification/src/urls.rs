//! Trusted view of the url crate: validity of a redirect target, and
//! appending percent-encoded query parameters to it.

use vstd::prelude::*;

verus! {

/// Whether `url::Url::parse` accepts the text as an absolute URL; a
/// function of the text alone.
pub uninterp spec fn url_ok(s: Seq<char>) -> bool;

/// The serialization of the parsed URL after one key/value query pair,
/// percent-encoded, has been appended to its query string; a function
/// of the three texts alone.
pub uninterp spec fn url_appended(uri: Seq<char>, key: Seq<char>, value: Seq<char>) -> Seq<char>;

/// Relies on url::Url::parse: whether a text parses as an absolute URL
/// depends on the text alone.
#[verifier::external_body]
pub(crate) fn url_is_valid(s: &String) -> (r: bool)
    ensures
        r == url_ok(s@),
{
    url::Url::parse(s.as_str()).is_ok()
}

/// Relies on url::Url::parse, on Url::query_pairs_mut together with
/// form_urlencoded's append_pair, and on Url's Display: appending one
/// percent-encoded query pair to a well-formed URL and serializing the
/// result depend on the three texts alone, and the serialization of a
/// Url parses back as a URL (the url crate's documented round trip).
#[verifier::external_body]
pub(crate) fn url_append_pair(uri: &String, key: &str, value: &String) -> (r: String)
    requires
        url_ok(uri@),
    ensures
        r@ == url_appended(uri@, key@, value@),
        url_ok(r@),
{
    let mut parsed = url::Url::parse(uri.as_str()).unwrap();
    parsed.query_pairs_mut().append_pair(key, value.as_str());
    parsed.to_string()
}

} // verus!

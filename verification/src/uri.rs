//! Reading the path and query out of a request URL.

use vstd::prelude::*;

verus! {

/// The path and query of a URL, or nothing when the URL does not parse:
/// a function of the URL string alone. An absent query is the empty
/// string.
pub uninterp spec fn uri_parts_of(url: Seq<char>) -> Option<(Seq<char>, Seq<char>)>;

/// Relies on `http::Uri`: parsing the URL and reading its path and query,
/// both functions of the URL string alone.
#[verifier::external_body]
pub fn split_url(url: &str) -> (r: Option<(String, String)>)
    ensures
        match r {
            Some(pq) => uri_parts_of(url@) == Some((pq.0@, pq.1@)),
            None => uri_parts_of(url@) is None,
        },
{
    match url.parse::<http::Uri>() {
        Ok(u) => {
            let path = u.path().to_string();
            let query = u.query().unwrap_or("").to_string();
            Some((path, query))
        },
        Err(_) => None,
    }
}

} // verus!

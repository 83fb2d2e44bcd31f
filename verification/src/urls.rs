//! URL building and reading through the `url` crate.

use vstd::prelude::*;

use crate::text::opt_view;

verus! {

/// Pairs of strings as pairs of texts.
pub open spec fn pairs_view(p: Seq<(String, String)>) -> Seq<(Seq<char>, Seq<char>)> {
    p.map_values(|kv: (String, String)| (kv.0@, kv.1@))
}

/// What `Url::parse(url)` gives, serialised again; `None` when parsing fails.
pub uninterp spec fn spec_url_parse_display(url: Seq<char>) -> Option<Seq<char>>;

/// What `Url::parse(url)` followed by `query_pairs_mut().append_pair(k, v)` for each pair
/// gives, serialised; `None` when parsing fails.
pub uninterp spec fn spec_url_with_pairs(
    url: Seq<char>,
    pairs: Seq<(Seq<char>, Seq<char>)>,
) -> Option<Seq<char>>;

/// The path of `Url::parse(url)` and its decoded `query_pairs`; `None` when parsing fails.
pub uninterp spec fn spec_url_path_and_query(url: Seq<char>) -> Option<
    (Seq<char>, Seq<(Seq<char>, Seq<char>)>),
>;

/// Calls `url::Url::parse` and returns the URL's text (`Url::as_str`).
#[verifier::external_body]
pub(crate) fn url_parse_display(url: &str) -> (r: Option<String>)
    ensures
        opt_view(r) == spec_url_parse_display(url@),
{
    match url::Url::parse(url) {
        Ok(u) => Some(u.as_str().to_string()),
        Err(_) => None,
    }
}

/// Calls `url::Url::parse`, then `append_pair` on `query_pairs_mut()` for each pair, and
/// returns the URL's text.
#[verifier::external_body]
pub(crate) fn url_with_pairs(url: &str, pairs: &Vec<(String, String)>) -> (r: Option<String>)
    ensures
        opt_view(r) == spec_url_with_pairs(url@, pairs_view(pairs@)),
{
    let mut u = match url::Url::parse(url) {
        Ok(u) => u,
        Err(_) => return None,
    };
    {
        let mut q = u.query_pairs_mut();
        for (k, v) in pairs.iter() {
            q.append_pair(k, v);
        }
    }
    Some(u.to_string())
}

/// Calls `url::Url::parse` and returns `path()` with the decoded `query_pairs()`.
#[verifier::external_body]
pub(crate) fn url_path_and_query(url: &str) -> (r: Option<(String, Vec<(String, String)>)>)
    ensures
        match r {
            Some(x) => spec_url_path_and_query(url@) == Some((x.0@, pairs_view(x.1@))),
            None => spec_url_path_and_query(url@) is None,
        },
{
    match url::Url::parse(url) {
        Ok(u) => Some(
            (
                u.path().to_string(),
                u.query_pairs().map(|(k, v)| (k.into_owned(), v.into_owned())).collect(),
            ),
        ),
        Err(_) => None,
    }
}

} // verus!

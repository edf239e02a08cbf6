//! Catalog query addresses.
use vstd::prelude::*;

use crate::text::{chars_of, string_of, trim_chars, trimmed};

verus! {

/// The address that `Url::parse_with_params` builds from a base and
/// query pairs, written out.
pub uninterp spec fn url_with_query(base: Seq<char>, query: Seq<(Seq<char>, Seq<char>)>) -> Seq<
    char,
>;

pub open spec fn pairs(v: Seq<(String, String)>) -> Seq<(Seq<char>, Seq<char>)> {
    v.map_values(|p: (String, String)| (p.0@, p.1@))
}

/// Relies on `reqwest::Url::parse_with_params` (the url crate's): the base
/// parsed, with the pairs appended as its form-encoded query; `None` when the
/// base does not parse. The result depends on the arguments alone. The two
/// catalog bases are absolute `http` addresses, which the parser accepts.
#[verifier::external_body]
pub(crate) fn encode_url(base: &str, params: &Vec<(String, String)>) -> (r: Option<String>)
    ensures
        r matches Some(u) ==> u@ == url_with_query(base@, pairs(params@)),
        base@ == OMDB_BASE@ || base@ == TVMAZE_BASE@ ==> r is Some,
{
    reqwest::Url::parse_with_params(base, params).ok().map(String::from)
}

/// Address of the movie catalog.
pub const OMDB_BASE: &'static str = "http://www.omdbapi.com/";

/// Address of the show catalog's search.
pub const TVMAZE_BASE: &'static str = "http://api.tvmaze.com/search/shows";

/// A title as it is sent to a catalog: trimmed.
pub fn query_title(title: &str) -> (r: String)
    ensures
        r@ == trimmed(title@),
{
    string_of(&trim_chars(&chars_of(title)))
}

} // verus!

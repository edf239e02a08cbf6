//! The show catalog (TVmaze): its query and how its answer is read.
use vstd::prelude::*;

use crate::query::{encode_url, pairs, query_title, url_with_query, TVMAZE_BASE};
use crate::text::{string_of, trimmed};

verus! {

/// Client of the show catalog.
pub struct TVMaze;

/// A show as the catalog names it.
pub struct ShowResult {
    pub name: String,
}

impl TVMaze {
    /// The query pairs of a search for `title`.
    pub fn search_params(title: &str) -> (r: Vec<(String, String)>)
        ensures
            pairs(r@) == seq![(seq!['q'], trimmed(title@))],
    {
        let mut params: Vec<(String, String)> = Vec::new();
        let k = string_of(&vec!['q']);
        let v = query_title(title);
        assert(k@ == seq!['q']);
        params.push((k, v));
        assert(pairs(params@)[0] == (seq!['q'], trimmed(title@)));
        assert(pairs(params@) =~= seq![(seq!['q'], trimmed(title@))]);
        params
    }

    /// The address of a search for `title`.
    pub fn search_url(title: &str) -> (r: String)
        ensures
            r@ == url_with_query(TVMAZE_BASE@, seq![(seq!['q'], trimmed(title@))]),
    {
        let params = Self::search_params(title);
        encode_url(TVMAZE_BASE, &params).unwrap()
    }

    /// The catalog's best match: the first of its results, if any.
    pub fn first_show(results: Vec<ShowResult>) -> (r: Option<ShowResult>)
        ensures
            results@.len() == 0 ==> r is None,
            results@.len() > 0 ==> r == Some(results@[0]),
    {
        let mut results = results;
        if results.len() == 0 {
            None
        } else {
            Some(results.swap_remove(0))
        }
    }
}

} // verus!

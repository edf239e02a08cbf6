//! The movie catalog (OMDb): its query and how its answer is read.
use vstd::prelude::*;

use crate::query::{encode_url, pairs, query_title, url_with_query, OMDB_BASE};
use crate::text::{chars_of, int_text, push_int, string_of, trimmed};

verus! {

/// Client of the movie catalog, holding its key.
pub struct OMDB {
    key: String,
}

/// The query pairs of a movie search: title, key, and the year when known.
pub open spec fn movie_query(title: Seq<char>, key: Seq<char>, year: Option<i32>) -> Seq<
    (Seq<char>, Seq<char>),
> {
    let base = seq![(seq!['t'], trimmed(title)), (seq!['a', 'p', 'i', 'k', 'e', 'y'], key)];
    match year {
        Some(y) => base.push((seq!['y'], int_text(y as int))),
        None => base,
    }
}

impl OMDB {
    pub closed spec fn key_view(&self) -> Seq<char> {
        self.key@
    }

    pub fn new(key: &str) -> (r: OMDB)
        ensures
            r.key_view() == key@,
    {
        OMDB { key: string_of(&chars_of(key)) }
    }

    /// The query pairs of a search for `title`, of the given year if known.
    pub fn search_params(&self, title: &str, year: Option<i32>) -> (r: Vec<(String, String)>)
        ensures
            pairs(r@) == movie_query(title@, self.key_view(), year),
    {
        let mut params: Vec<(String, String)> = Vec::new();
        let tk = string_of(&vec!['t']);
        assert(tk@ == seq!['t']);
        params.push((tk, query_title(title)));
        let kk = string_of(&vec!['a', 'p', 'i', 'k', 'e', 'y']);
        assert(kk@ == seq!['a', 'p', 'i', 'k', 'e', 'y']);
        params.push((kk, string_of(&chars_of(self.key.as_str()))));
        let ghost base = seq![
            (seq!['t'], trimmed(title@)),
            (seq!['a', 'p', 'i', 'k', 'e', 'y'], self.key_view()),
        ];
        assert(pairs(params@)[0] == base[0]);
        assert(pairs(params@)[1] == base[1]);
        assert(pairs(params@) =~= base);
        match year {
            Some(y) => {
                let mut ys: Vec<char> = Vec::new();
                push_int(&mut ys, y);
                let yk = string_of(&vec!['y']);
                assert(yk@ == seq!['y']);
                params.push((yk, string_of(&ys)));
                assert(pairs(params@) =~= base.push((seq!['y'], int_text(y as int))));
            },
            None => {},
        }
        params
    }

    /// The address of a search for `title`, of the given year if known.
    pub fn search_url(&self, title: &str, year: Option<i32>) -> (r: String)
        ensures
            r@ == url_with_query(OMDB_BASE@, movie_query(title@, self.key_view(), year)),
    {
        let params = self.search_params(title, year);
        encode_url(OMDB_BASE, &params).unwrap()
    }
}

/// The catalog's answer to a movie search.
pub struct OMDBResult {
    pub response: bool,
    pub title: Option<String>,
    pub year: Option<String>,
    pub error: Option<String>,
}

/// The catalog's `Response` flag: `True` or `False`, nothing else.
pub fn response_flag(s: &str) -> (r: Option<bool>)
    ensures
        r == (if s@ == seq!['T', 'r', 'u', 'e'] {
            Some(true)
        } else if s@ == seq!['F', 'a', 'l', 's', 'e'] {
            Some(false)
        } else {
            None::<bool>
        }),
{
    let c = chars_of(s);
    if c.len() == 4 && c[0] == 'T' && c[1] == 'r' && c[2] == 'u' && c[3] == 'e' {
        assert(c@ =~= seq!['T', 'r', 'u', 'e']);
        Some(true)
    } else if c.len() == 5 && c[0] == 'F' && c[1] == 'a' && c[2] == 'l' && c[3] == 's' && c[4]
        == 'e' {
        assert(c@ =~= seq!['F', 'a', 'l', 's', 'e']);
        Some(false)
    } else {
        None
    }
}

impl OMDBResult {
    /// The canonical title: given when the catalog reports success and a title.
    pub fn canonical_title(self) -> (r: Option<String>)
        ensures
            r == (if self.response {
                self.title
            } else {
                None::<String>
            }),
    {
        if self.response {
            self.title
        } else {
            None
        }
    }
}

} // verus!

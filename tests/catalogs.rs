use media_sort::omdb::{response_flag, OMDBResult, OMDB};
use media_sort::query::query_title;
use media_sort::tvmaze::{ShowResult, TVMaze};

#[test]
fn movie_search_address() {
    let omdb = OMDB::new("KEY");
    assert_eq!(
        omdb.search_url(" alien ", Some(1979)),
        "http://www.omdbapi.com/?t=alien&apikey=KEY&y=1979"
    );
    assert_eq!(
        omdb.search_url("great series", None),
        "http://www.omdbapi.com/?t=great+series&apikey=KEY"
    );
}

#[test]
fn movie_search_params() {
    let omdb = OMDB::new("K");
    assert_eq!(
        omdb.search_params("x ", Some(-5)),
        vec![
            (String::from("t"), String::from("x")),
            (String::from("apikey"), String::from("K")),
            (String::from("y"), String::from("-5")),
        ]
    );
}

#[test]
fn show_search_address() {
    assert_eq!(
        TVMaze::search_url("great series "),
        "http://api.tvmaze.com/search/shows?q=great+series"
    );
}

#[test]
fn titles_are_trimmed_for_queries() {
    assert_eq!(query_title("\t a b \n"), "a b");
}

#[test]
fn response_flags() {
    assert_eq!(response_flag("True"), Some(true));
    assert_eq!(response_flag("False"), Some(false));
    assert_eq!(response_flag("true"), None);
}

#[test]
fn movie_answer_gives_title_only_on_success() {
    let ok = OMDBResult {
        response: true,
        title: Some(String::from("Alien")),
        year: Some(String::from("1979")),
        error: None,
    };
    assert_eq!(ok.canonical_title(), Some(String::from("Alien")));
    let failed = OMDBResult {
        response: false,
        title: None,
        year: None,
        error: Some(String::from("Movie not found!")),
    };
    assert_eq!(failed.canonical_title(), None);
}

#[test]
fn first_show_is_the_best_match() {
    let r = TVMaze::first_show(vec![
        ShowResult { name: String::from("A") },
        ShowResult { name: String::from("B") },
    ]);
    assert_eq!(r.map(|s| s.name), Some(String::from("A")));
    assert!(TVMaze::first_show(Vec::new()).is_none());
}

use lrclib_api_rs::LRCLibAPI;

#[test]
fn search_keyword() {
    let api = LRCLibAPI::new();
    let req = api.search_lyrics_query("周杰伦").unwrap();
    let url = url::Url::parse(&req.uri).unwrap();
    assert_eq!(url.path(), "/api/search");
    let pairs: Vec<(String, String)> = url
        .query_pairs()
        .map(|(k, v)| (k.into_owned(), v.into_owned()))
        .collect();
    assert_eq!(pairs, vec![("q".to_owned(), "周杰伦".to_owned())]);
}

#[test]
fn search_detailed() {
    let api = LRCLibAPI::new();
    let req = api
        .search_lyrics_detailed("原神", Some("ChiliChill"), Some("Let the Wind Tell You"))
        .unwrap();
    let url = url::Url::parse(&req.uri).unwrap();
    assert_eq!(url.path(), "/api/search");
    let pairs: Vec<(String, String)> = url
        .query_pairs()
        .map(|(k, v)| (k.into_owned(), v.into_owned()))
        .collect();
    assert_eq!(
        pairs,
        vec![
            ("track_name".to_owned(), "原神".to_owned()),
            ("artist_name".to_owned(), "ChiliChill".to_owned()),
            ("album_name".to_owned(), "Let the Wind Tell You".to_owned()),
        ]
    );
}

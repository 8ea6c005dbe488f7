use lrclib_api_rs::types::Method;
use lrclib_api_rs::LRCLibAPI;

#[test]
fn query_by_match() {
    let api = LRCLibAPI::new();
    let req = api
        .get_lyrics(
            "憂鬱,你好!",
            "Priscilla Chan",
            Some("永遠是你的朋友"),
            Some(219),
        )
        .unwrap();
    assert_eq!(req.method, Method::Get);

    // Re-parsing the constructed URI recovers the original values exactly.
    let url = url::Url::parse(&req.uri).unwrap();
    assert_eq!(url.path(), "/api/get");
    let pairs: Vec<(String, String)> = url
        .query_pairs()
        .map(|(k, v)| (k.into_owned(), v.into_owned()))
        .collect();
    assert_eq!(
        pairs,
        vec![
            ("track_name".to_owned(), "憂鬱,你好!".to_owned()),
            ("artist_name".to_owned(), "Priscilla Chan".to_owned()),
            ("album_name".to_owned(), "永遠是你的朋友".to_owned()),
            ("duration".to_owned(), "219".to_owned()),
        ]
    );
}

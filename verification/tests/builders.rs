use lrclib_api_rs::types::ApiError;
use lrclib_api_rs::types::Method;
use lrclib_api_rs::LRCLibAPI;

#[test]
fn lookup_by_fields_plain() {
    let api = LRCLibAPI::new();
    let req = api.get_lyrics("Hello", "Artist", None, None).unwrap();
    assert_eq!(req.method, Method::Get);
    assert_eq!(
        req.uri,
        "https://lrclib.net/api/get?track_name=Hello&artist_name=Artist"
    );
    assert_eq!(req.headers.len(), 1);
    assert_eq!(req.headers[0].0, "User-Agent");
    assert_eq!(req.headers[0].1, "LRCAPIWrapper/0.3.0");
    assert!(req.body.is_none());
}

#[test]
fn search_by_keyword_plain() {
    let api = LRCLibAPI::new();
    let req = api.search_lyrics_query("test").unwrap();
    assert_eq!(req.method, Method::Get);
    assert_eq!(req.uri, "https://lrclib.net/api/search?q=test");
}

#[test]
fn challenge_request() {
    let api = LRCLibAPI::new();
    let req = api.request_publish_challenge().unwrap();
    assert_eq!(req.method, Method::Post);
    assert_eq!(req.uri, "https://lrclib.net/api/request-challenge");
    assert!(req.body.is_none());
}

#[test]
fn constructors() {
    let api = LRCLibAPI::new();
    assert_eq!(api.base_url(), "https://lrclib.net");
    assert_eq!(api.user_agent(), "LRCAPIWrapper/0.3.0");

    let api = LRCLibAPI::with_base_url("http://localhost:8080".to_owned());
    assert_eq!(api.base_url(), "http://localhost:8080");
    assert_eq!(api.user_agent(), "LRCAPIWrapper/0.3.0");

    let api = LRCLibAPI::with_user_agent("my-agent/1.0".to_owned());
    assert_eq!(api.base_url(), "https://lrclib.net");
    assert_eq!(api.user_agent(), "my-agent/1.0");

    let api = LRCLibAPI::with_parts("http://x.test".to_owned(), "ua/2".to_owned());
    assert_eq!(api.base_url(), "http://x.test");
    assert_eq!(api.user_agent(), "ua/2");
    let req = api.get_lyrics_by_id(7).unwrap();
    assert_eq!(req.uri, "http://x.test/api/get/7");
    assert_eq!(req.headers[0].1, "ua/2");
}

#[test]
fn bad_base_url_is_url_error() {
    let api = LRCLibAPI::with_base_url("not a url".to_owned());
    let err = api.get_lyrics_by_id(1).unwrap_err();
    assert_eq!(err, ApiError::UrlError);
    assert!(err.is_url_error());
}

#[test]
fn bad_user_agent_is_http_request_error() {
    let api = LRCLibAPI::with_user_agent("bad\nagent".to_owned());
    let err = api.search_lyrics_query("x").unwrap_err();
    assert_eq!(err, ApiError::HttpRequestError);
    assert!(err.is_http_request_error());
}

#[test]
fn bad_publish_token_is_http_request_error() {
    let api = LRCLibAPI::new();
    let payload = lrclib_api_rs::types::LyricsPublishData {
        id: 1,
        name: "n".into(),
        track_name: "t".into(),
        artist_name: "a".into(),
        instrumental: false,
        album_name: "al".into(),
        duration: 1000,
        plain_lyrics: "p".into(),
        synced_lyrics: "s".into(),
    };
    let err = api.publish_lyrics(&payload, "bad\u{7f}token").unwrap_err();
    assert_eq!(err, ApiError::HttpRequestError);
}

#[test]
fn combined_search_dispatch() {
    let api = LRCLibAPI::new();
    let err = api.search_lyrics(None, None, None, None).unwrap_err();
    assert_eq!(err, ApiError::MissingFieldExists);
    assert!(err.is_missing_field_exists());

    let req = api.search_lyrics(Some("kw"), None, None, None).unwrap();
    assert_eq!(req.uri, "https://lrclib.net/api/search?q=kw");

    // A track name wins over a keyword, as the split operations do.
    let req = api
        .search_lyrics(Some("kw"), Some("Track"), Some("Artist"), None)
        .unwrap();
    assert_eq!(
        req.uri,
        "https://lrclib.net/api/search?track_name=Track&artist_name=Artist"
    );
}

#[test]
fn duration_in_lookup_query() {
    let api = LRCLibAPI::new();
    let req = api.get_lyrics("T", "A", None, Some(219)).unwrap();
    assert_eq!(
        req.uri,
        "https://lrclib.net/api/get?track_name=T&artist_name=A&duration=219"
    );
}

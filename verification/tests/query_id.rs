use lrclib_api_rs::types::GetLyricsResponse;
use lrclib_api_rs::types::Method;
use lrclib_api_rs::parse::parse_get_lyrics_response;
use lrclib_api_rs::LRCLibAPI;

#[test]
fn query_by_id() {
    let api = LRCLibAPI::new();
    let req = api.get_lyrics_by_id(1).unwrap();
    assert_eq!(req.uri, "https://lrclib.net/api/get/1");
    assert_eq!(req.method, Method::Get);
    assert_eq!(req.headers.len(), 1);
    assert_eq!(req.headers[0].0, "User-Agent");
    assert!(req.body.is_none());

    let sample = "{\"id\":1,\"name\":\"x\",\"trackName\":\"x\",\"artistName\":\"y\",\
                  \"instrumental\":false,\"albumName\":null,\"duration\":12.5,\
                  \"plainLyrics\":\"la\",\"syncedLyrics\":null}";
    let resp: GetLyricsResponse = parse_get_lyrics_response(sample.as_bytes()).unwrap();
    assert!(resp.is_success());
}

#[test]
fn query_by_id_error() {
    let api = LRCLibAPI::new();
    let req = api.get_lyrics_by_id(0).unwrap();
    assert_eq!(req.uri, "https://lrclib.net/api/get/0");

    let sample = "{\"statusCode\":404,\"name\":\"TrackNotFound\",\
                  \"message\":\"Failed to find specified track\"}";
    let resp: GetLyricsResponse = parse_get_lyrics_response(sample.as_bytes()).unwrap();
    assert!(resp.is_error());
}

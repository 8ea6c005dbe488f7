use lrclib_api_rs::types::LyricsPublishData;
use lrclib_api_rs::types::Method;
use lrclib_api_rs::types::PublishResponse;
use lrclib_api_rs::parse::parse_publish_response;
use lrclib_api_rs::LRCLibAPI;

#[test]
fn publish_lyric() {
    let api = LRCLibAPI::new();
    let req = api
        .publish_lyrics(
            &LyricsPublishData {
                id: 0,
                name: "你好".into(),
                track_name: "你好压".into(),
                artist_name: "初音未来".into(),
                instrumental: false,
                plain_lyrics: "你好".into(),
                synced_lyrics: "[00:00.00]你好".into(),
                album_name: "专辑".into(),
                duration: 0,
            },
            "INVALID_TOKEN",
        )
        .unwrap();
    assert_eq!(req.method, Method::Post);
    assert_eq!(req.uri, "https://lrclib.net/api/publish");
    assert_eq!(req.headers[1].0, "X-Publish-Token");
    assert_eq!(req.headers[1].1, "INVALID_TOKEN");
    assert_eq!(req.headers[2].0, "Content-Type");
    assert_eq!(req.headers[2].1, "application/json");

    // The body is well-formed JSON carrying the payload's fields.
    let body = req.body.unwrap();
    let v: serde_json::Value = serde_json::from_slice(&body).unwrap();
    assert_eq!(v["trackName"], serde_json::Value::String("你好压".to_owned()));
    assert_eq!(v["artistName"], serde_json::Value::String("初音未来".to_owned()));
    assert_eq!(v["syncedLyrics"], serde_json::Value::String("[00:00.00]你好".to_owned()));

    // A rejected publish comes back as an error envelope.
    let sample = "{\"statusCode\":400,\"name\":\"IncorrectPublishTokenError\",\
                  \"message\":\"The provided publish token is incorrect\"}";
    let pub_resp: PublishResponse = parse_publish_response(sample.as_bytes()).unwrap();
    assert!(pub_resp.is_error());
}

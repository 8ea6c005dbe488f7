use lrclib_api_rs::json::publish_payload_json;
use lrclib_api_rs::parse::parse_get_lyrics_response;
use lrclib_api_rs::parse::parse_lyrics_data;
use lrclib_api_rs::parse::parse_publish_challenge;
use lrclib_api_rs::parse::parse_publish_response;
use lrclib_api_rs::percent::percent_decode;
use lrclib_api_rs::percent::percent_encode;
use lrclib_api_rs::types::GetLyricsResponse;
use lrclib_api_rs::types::LyricsPublishData;
use lrclib_api_rs::types::PublishResponse;

#[test]
fn percent_encoding_roundtrip() {
    let cases = [
        "plain",
        "a b&c=d%e",
        "憂鬱,你好!",
        "tilde~dot.dash-under_score",
        "",
    ];
    for case in cases {
        let enc = percent_encode(case);
        // Only query-safe characters appear in an encoding.
        assert!(!enc.contains('&') && !enc.contains('=') && !enc.contains('#'));
        let dec = percent_decode(&enc).unwrap();
        assert_eq!(dec, case);
    }
    assert_eq!(percent_encode("a b&c"), "a%20b%26c");
}

#[test]
fn percent_decode_rejects_malformed() {
    assert!(percent_decode("abc%2").is_none());
    assert!(percent_decode("abc%zz").is_none());
    assert!(percent_decode("raw space").is_none());
    // Decoded bytes must form UTF-8.
    assert!(percent_decode("%ff").is_none());
}

#[test]
fn percent_decode_accepts_either_hex_case() {
    assert_eq!(percent_decode("%e4%bd%a0").unwrap(), "你");
    assert_eq!(percent_decode("%E4%BD%A0").unwrap(), "你");
}

#[test]
fn publish_body_matches_schema() {
    let payload = LyricsPublishData {
        id: 42,
        name: "A \"song\"\nwith\tescapes\\".into(),
        track_name: "Track".into(),
        artist_name: "歌手".into(),
        instrumental: true,
        album_name: "Album".into(),
        duration: 219500,
        plain_lyrics: "line1\nline2".into(),
        synced_lyrics: "[00:01.00]hi".into(),
    };
    let body = publish_payload_json(&payload);
    let v: serde_json::Value = serde_json::from_slice(&body).unwrap();
    assert_eq!(v["id"], serde_json::Value::from(42u64));
    assert_eq!(
        v["name"],
        serde_json::Value::String("A \"song\"\nwith\tescapes\\".to_owned())
    );
    assert_eq!(v["artistName"], serde_json::Value::String("歌手".to_owned()));
    assert_eq!(v["instrumental"], serde_json::Value::Bool(true));
    assert_eq!(v["duration"], serde_json::Value::from(219.5f64));
    assert_eq!(v["plainLyrics"], serde_json::Value::String("line1\nline2".to_owned()));
}

#[test]
fn publish_body_parses_back() {
    let payload = LyricsPublishData {
        id: 7,
        name: "n\u{1}ame".into(),
        track_name: "track/with\"quote".into(),
        artist_name: "артист".into(),
        instrumental: false,
        album_name: "专辑".into(),
        duration: 61000,
        plain_lyrics: "p".into(),
        synced_lyrics: "[00:00.00]你好".into(),
    };
    let body = publish_payload_json(&payload);
    let rec = parse_lyrics_data(&body).unwrap();
    assert_eq!(rec.id, 7);
    assert_eq!(rec.name, "n\u{1}ame");
    assert_eq!(rec.track_name, "track/with\"quote");
    assert_eq!(rec.artist_name, "артист");
    assert!(!rec.instrumental);
    assert_eq!(rec.album_name.as_deref(), Some("专辑"));
    assert_eq!(rec.duration, Some(61000));
    assert_eq!(rec.plain_lyrics.as_deref(), Some("p"));
    assert_eq!(rec.synced_lyrics.as_deref(), Some("[00:00.00]你好"));
}

#[test]
fn duration_rendering() {
    let mut payload = LyricsPublishData {
        id: 1,
        name: "n".into(),
        track_name: "t".into(),
        artist_name: "a".into(),
        instrumental: false,
        album_name: "al".into(),
        duration: 61000,
        plain_lyrics: "p".into(),
        synced_lyrics: "s".into(),
    };
    let text = String::from_utf8(publish_payload_json(&payload)).unwrap();
    assert!(text.contains("\"duration\":61,"));

    payload.duration = 219500;
    let text = String::from_utf8(publish_payload_json(&payload)).unwrap();
    assert!(text.contains("\"duration\":219.5,"));

    payload.duration = 1234;
    let text = String::from_utf8(publish_payload_json(&payload)).unwrap();
    assert!(text.contains("\"duration\":1.234,"));
}

#[test]
fn untagged_decoding() {
    let success = "{\"id\":3,\"name\":\"N\",\"trackName\":\"T\",\"artistName\":\"A\",\
                   \"instrumental\":false,\"albumName\":\"B\",\"duration\":200.0,\
                   \"plainLyrics\":null,\"syncedLyrics\":null}";
    match parse_get_lyrics_response(success.as_bytes()).unwrap() {
        GetLyricsResponse::Success(d) => {
            assert_eq!(d.track_name, "T");
            assert_eq!(d.duration, Some(200000));
            assert_eq!(d.plain_lyrics, None);
        },
        GetLyricsResponse::Error(_) => panic!("expected the success variant"),
    }

    let failure = "{\"statusCode\":404,\"name\":\"TrackNotFound\",\"message\":\"nope\"}";
    match parse_get_lyrics_response(failure.as_bytes()).unwrap() {
        GetLyricsResponse::Error(e) => {
            assert_eq!(e.status_code, 404);
            assert_eq!(e.name, "TrackNotFound");
            assert_eq!(e.message, "nope");
        },
        GetLyricsResponse::Success(_) => panic!("expected the error variant"),
    }
}

#[test]
fn publish_response_decoding() {
    let created = parse_publish_response("null".as_bytes()).unwrap();
    assert!(created.is_created());

    let failure = "{\"statusCode\":400,\"name\":\"Bad\",\"message\":\"no\"}";
    let resp: PublishResponse = parse_publish_response(failure.as_bytes()).unwrap();
    assert!(resp.is_error());
}

#[test]
fn challenge_decoding() {
    let doc = "{\"prefix\":\"publish\",\"target\":\"00ffff\"}";
    let c = parse_publish_challenge(doc.as_bytes()).unwrap();
    assert_eq!(c.prefix, "publish");
    assert_eq!(c.target, "00ffff");
}

#[test]
fn parser_accepts_whitespace_and_escapes() {
    let doc = "{ \"id\": 5 , \"name\": \"a\\u0041b\\/c\" , \"trackName\": \"t\" ,\
               \"artistName\": \"a\" , \"instrumental\": true }";
    let rec = parse_lyrics_data(doc.as_bytes()).unwrap();
    assert_eq!(rec.id, 5);
    assert_eq!(rec.name, "aAb/c");
    assert!(rec.instrumental);
    assert_eq!(rec.album_name, None);
    assert_eq!(rec.duration, None);
}

#[test]
fn parser_rejects_wrong_shapes() {
    assert!(parse_lyrics_data("{\"id\":\"5\"}".as_bytes()).is_none());
    assert!(parse_lyrics_data("[1,2]".as_bytes()).is_none());
    assert!(parse_lyrics_data("{\"id\":1}trailing".as_bytes()).is_none());
    assert!(parse_get_lyrics_response("{}".as_bytes()).is_none());
}

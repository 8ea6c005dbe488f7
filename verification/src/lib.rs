//! Request builder for the lrclib lyrics service.
//!
//! The library constructs fully specified HTTP requests (method, URI with an
//! encoded query string, headers, optional JSON body) for the service's six
//! endpoints, and defines the typed records exchanged with it, including a
//! verified encoder and decoder for their wire form. It performs no network
//! I/O: callers hand the built [`ApiRequest`] to a transport of their own.
use vstd::prelude::*;

pub mod json;
pub mod parse;
pub mod percent;
pub mod roundtrip;
mod strutil;
mod validate;

pub mod types;

use percent::percent_encode;
use percent::percent_encoded;
use strutil::dec_str;
use strutil::u64_to_string;
use validate::check_header_value;
use validate::url_parses;
use vstd::string::StringExecFns;

pub use validate::header_value_ok;
pub use validate::is_parsable_url;

pub use types::ApiError;
pub use types::ApiRequest;
pub use types::ErrorResponse;
pub use types::GetLyricsResponse;
pub use types::LyricsData;
pub use types::LyricsPublishData;
pub use types::Method;
pub use types::PublishChallenge;
pub use types::PublishResponse;

verus! {

/// A configured client: the origin requests are addressed to, and the
/// `User-Agent` value every request carries. Immutable once built.
#[derive(Clone, Debug)]
pub struct LRCLibAPI {
    base_url: String,
    user_agent: String,
}

impl LRCLibAPI {
    /// The origin this client addresses, as a sequence of characters.
    pub closed spec fn base(&self) -> Seq<char> {
        self.base_url@
    }

    /// The `User-Agent` value this client sends, as a sequence of characters.
    pub closed spec fn agent(&self) -> Seq<char> {
        self.user_agent@
    }
}

impl Default for LRCLibAPI {
    fn default() -> (r: Self)
        ensures
            r.base() == "https://lrclib.net"@,
            r.agent() == "LRCAPIWrapper/0.3.0"@,
    {
        Self {
            base_url: "https://lrclib.net".to_owned(),
            user_agent: "LRCAPIWrapper/0.3.0".to_owned(),
        }
    }
}

impl LRCLibAPI {
    /// A client for the service's canonical origin, with the library's own
    /// user agent.
    pub fn new() -> (r: Self)
        ensures
            r.base() == "https://lrclib.net"@,
            r.agent() == "LRCAPIWrapper/0.3.0"@,
    {
        Default::default()
    }

    /// A client addressed to `base_url`, with the default user agent.
    pub fn with_base_url(base_url: String) -> (r: Self)
        ensures
            r.base() == base_url@,
            r.agent() == "LRCAPIWrapper/0.3.0"@,
    {
        Self { base_url, user_agent: "LRCAPIWrapper/0.3.0".to_owned() }
    }

    /// A client with the given user agent, addressed to the canonical origin.
    pub fn with_user_agent(user_agent: String) -> (r: Self)
        ensures
            r.base() == "https://lrclib.net"@,
            r.agent() == user_agent@,
    {
        Self { base_url: "https://lrclib.net".to_owned(), user_agent }
    }

    /// A client with both the origin and the user agent supplied.
    pub fn with_parts(base_url: String, user_agent: String) -> (r: Self)
        ensures
            r.base() == base_url@,
            r.agent() == user_agent@,
    {
        Self { base_url, user_agent }
    }

    /// The origin this client addresses.
    pub fn base_url(&self) -> (r: &str)
        ensures
            r@ == self.base(),
    {
        self.base_url.as_str()
    }

    /// The `User-Agent` value this client sends.
    pub fn user_agent(&self) -> (r: &str)
        ensures
            r@ == self.agent(),
    {
        self.user_agent.as_str()
    }
}

/// The view of an optional borrowed string.
pub open spec fn opt_str_view(o: Option<&str>) -> Option<Seq<char>> {
    match o {
        Some(s) => Some(s@),
        None => None,
    }
}

/// URI of an exact-match lookup: `{base}/api/get?track_name=..&artist_name=..`
/// with album name and duration appended only when supplied, every value
/// percent-encoded and the duration in decimal seconds.
pub open spec fn lookup_uri(
    base: Seq<char>,
    track: Seq<char>,
    artist: Seq<char>,
    album: Option<Seq<char>>,
    duration: Option<u64>,
) -> Seq<char> {
    base + "/api/get?track_name="@ + percent_encoded(track) + "&artist_name="@ + percent_encoded(
        artist,
    ) + (match album {
        Some(a) => "&album_name="@ + percent_encoded(a),
        None => Seq::<char>::empty(),
    }) + (match duration {
        Some(d) => "&duration="@ + dec_str(d as nat),
        None => Seq::<char>::empty(),
    })
}

/// URI of a lookup by record id: `{base}/api/get/{id}`.
pub open spec fn lookup_by_id_uri(base: Seq<char>, id: u64) -> Seq<char> {
    base + "/api/get/"@ + dec_str(id as nat)
}

/// URI of a keyword search: `{base}/api/search?q={query}`.
pub open spec fn search_query_uri(base: Seq<char>, query: Seq<char>) -> Seq<char> {
    base + "/api/search?q="@ + percent_encoded(query)
}

/// URI of a field-wise search: `{base}/api/search?track_name=..` with artist
/// and album appended only when supplied.
pub open spec fn search_detailed_uri(
    base: Seq<char>,
    track: Seq<char>,
    artist: Option<Seq<char>>,
    album: Option<Seq<char>>,
) -> Seq<char> {
    base + "/api/search?track_name="@ + percent_encoded(track) + (match artist {
        Some(a) => "&artist_name="@ + percent_encoded(a),
        None => Seq::<char>::empty(),
    }) + (match album {
        Some(a) => "&album_name="@ + percent_encoded(a),
        None => Seq::<char>::empty(),
    })
}

/// URI of the publish-challenge request: `{base}/api/request-challenge`.
pub open spec fn challenge_uri(base: Seq<char>) -> Seq<char> {
    base + "/api/request-challenge"@
}

/// URI of the publish request: `{base}/api/publish`.
pub open spec fn publish_uri(base: Seq<char>) -> Seq<char> {
    base + "/api/publish"@
}

/// What a bodyless builder returns for a target `uri` under a configured
/// user agent: the URL-syntax error if the URI does not parse, the
/// request-construction error if the user agent cannot be a header value,
/// and otherwise exactly the request with that method, URI and single
/// `User-Agent` header.
pub open spec fn built_simple(
    r: Result<ApiRequest, ApiError>,
    method: Method,
    uri: Seq<char>,
    agent: Seq<char>,
) -> bool {
    &&& (!is_parsable_url(uri) ==> r == Err::<ApiRequest, ApiError>(ApiError::UrlError))
    &&& (is_parsable_url(uri) && !header_value_ok(agent) ==> r == Err::<ApiRequest, ApiError>(
        ApiError::HttpRequestError,
    ))
    &&& (is_parsable_url(uri) && header_value_ok(agent) ==> (r matches Ok(req) && req.method
        == method && req.uri@ == uri && req.headers@.len() == 1 && req.headers@[0].0@
        == "User-Agent"@ && req.headers@[0].1@ == agent && req.body is None))
}

impl LRCLibAPI {
    /// Validates the assembled URI and the user agent, and hands out the
    /// bodyless request carrying them.
    fn finish_simple(&self, method: Method, uri: String) -> (r: Result<ApiRequest, ApiError>)
        ensures
            built_simple(r, method, uri@, self.agent()),
    {
        if !url_parses(uri.as_str()) {
            return Err(ApiError::UrlError);
        }
        if !check_header_value(self.user_agent.as_str()) {
            return Err(ApiError::HttpRequestError);
        }
        let mut headers: Vec<(String, String)> = Vec::new();
        headers.push(("User-Agent".to_owned(), self.user_agent.clone()));
        Ok(ApiRequest { method, uri, headers, body: None })
    }

    /// Builds the exact-match lookup request. The query string always
    /// carries `track_name` and `artist_name`, and carries `album_name` and
    /// `duration` exactly when they are supplied; the duration is rendered
    /// as its decimal form in seconds.
    pub fn get_lyrics(
        &self,
        track_name: &str,
        artist_name: &str,
        album_name: Option<&str>,
        duration: Option<u64>,
    ) -> (r: Result<ApiRequest, ApiError>)
        ensures
            built_simple(
                r,
                Method::Get,
                lookup_uri(
                    self.base(),
                    track_name@,
                    artist_name@,
                    opt_str_view(album_name),
                    duration,
                ),
                self.agent(),
            ),
    {
        let mut uri = self.base_url.clone();
        uri.append("/api/get?track_name=");
        let t = percent_encode(track_name);
        uri.append(t.as_str());
        uri.append("&artist_name=");
        let a = percent_encode(artist_name);
        uri.append(a.as_str());
        if let Some(album) = album_name {
            uri.append("&album_name=");
            let al = percent_encode(album);
            uri.append(al.as_str());
        }
        if let Some(d) = duration {
            uri.append("&duration=");
            let ds = u64_to_string(d);
            uri.append(ds.as_str());
        }
        assert(uri@ =~= lookup_uri(
            self.base(),
            track_name@,
            artist_name@,
            opt_str_view(album_name),
            duration,
        ));
        self.finish_simple(Method::Get, uri)
    }

    /// Builds the lookup request for the record with the given id.
    pub fn get_lyrics_by_id(&self, id: u64) -> (r: Result<ApiRequest, ApiError>)
        ensures
            built_simple(r, Method::Get, lookup_by_id_uri(self.base(), id), self.agent()),
    {
        let mut uri = self.base_url.clone();
        uri.append("/api/get/");
        let ds = u64_to_string(id);
        uri.append(ds.as_str());
        assert(uri@ =~= lookup_by_id_uri(self.base(), id));
        self.finish_simple(Method::Get, uri)
    }

    /// Builds the keyword search request.
    pub fn search_lyrics_query(&self, query: &str) -> (r: Result<ApiRequest, ApiError>)
        ensures
            built_simple(r, Method::Get, search_query_uri(self.base(), query@), self.agent()),
    {
        let mut uri = self.base_url.clone();
        uri.append("/api/search?q=");
        let q = percent_encode(query);
        uri.append(q.as_str());
        assert(uri@ =~= search_query_uri(self.base(), query@));
        self.finish_simple(Method::Get, uri)
    }

    /// Builds the field-wise search request: the track name is mandatory,
    /// artist and album names are carried exactly when supplied.
    pub fn search_lyrics_detailed(
        &self,
        track_name: &str,
        artist_name: Option<&str>,
        album_name: Option<&str>,
    ) -> (r: Result<ApiRequest, ApiError>)
        ensures
            built_simple(
                r,
                Method::Get,
                search_detailed_uri(
                    self.base(),
                    track_name@,
                    opt_str_view(artist_name),
                    opt_str_view(album_name),
                ),
                self.agent(),
            ),
    {
        let mut uri = self.base_url.clone();
        uri.append("/api/search?track_name=");
        let t = percent_encode(track_name);
        uri.append(t.as_str());
        if let Some(artist) = artist_name {
            uri.append("&artist_name=");
            let ar = percent_encode(artist);
            uri.append(ar.as_str());
        }
        if let Some(album) = album_name {
            uri.append("&album_name=");
            let al = percent_encode(album);
            uri.append(al.as_str());
        }
        assert(uri@ =~= search_detailed_uri(
            self.base(),
            track_name@,
            opt_str_view(artist_name),
            opt_str_view(album_name),
        ));
        self.finish_simple(Method::Get, uri)
    }

    /// Superseded combined search: searches by track fields when a track
    /// name is given, by keyword when only a query is given, and reports a
    /// missing field when neither is. Prefer [`Self::search_lyrics_query`]
    /// and [`Self::search_lyrics_detailed`].
    pub fn search_lyrics(
        &self,
        query: Option<&str>,
        track_name: Option<&str>,
        artist_name: Option<&str>,
        album_name: Option<&str>,
    ) -> (r: Result<ApiRequest, ApiError>)
        ensures
            match (query, track_name) {
                (None, None) => r == Err::<ApiRequest, ApiError>(ApiError::MissingFieldExists),
                (_, Some(t)) => built_simple(
                    r,
                    Method::Get,
                    search_detailed_uri(
                        self.base(),
                        t@,
                        opt_str_view(artist_name),
                        opt_str_view(album_name),
                    ),
                    self.agent(),
                ),
                (Some(q), None) => built_simple(
                    r,
                    Method::Get,
                    search_query_uri(self.base(), q@),
                    self.agent(),
                ),
            },
    {
        match (query, track_name) {
            (None, None) => Err(ApiError::MissingFieldExists),
            (_, Some(track)) => self.search_lyrics_detailed(track, artist_name, album_name),
            (Some(q), None) => self.search_lyrics_query(q),
        }
    }

    /// Builds the request that asks the service for a publish challenge.
    pub fn request_publish_challenge(&self) -> (r: Result<ApiRequest, ApiError>)
        ensures
            built_simple(r, Method::Post, challenge_uri(self.base()), self.agent()),
    {
        let mut uri = self.base_url.clone();
        uri.append("/api/request-challenge");
        assert(uri@ =~= challenge_uri(self.base()));
        self.finish_simple(Method::Post, uri)
    }

    /// Builds the publish request: a POST whose JSON body is the payload's
    /// wire document, carrying the solved challenge token in the
    /// `X-Publish-Token` header. The payload type itself makes every field
    /// the endpoint requires mandatory, so no runtime completeness check is
    /// needed or made.
    pub fn publish_lyrics(&self, lyrics: &LyricsPublishData, publish_token: &str) -> (r: Result<
        ApiRequest,
        ApiError,
    >)
        ensures
            !is_parsable_url(publish_uri(self.base())) ==> r == Err::<ApiRequest, ApiError>(
                ApiError::UrlError,
            ),
            is_parsable_url(publish_uri(self.base())) && !(header_value_ok(self.agent())
                && header_value_ok(publish_token@)) ==> r == Err::<ApiRequest, ApiError>(
                ApiError::HttpRequestError,
            ),
            is_parsable_url(publish_uri(self.base())) && header_value_ok(self.agent())
                && header_value_ok(publish_token@) ==> (r matches Ok(req) && req.method
                == Method::Post && req.uri@ == publish_uri(self.base()) && req.headers@.len() == 3
                && req.headers@[0].0@ == "User-Agent"@ && req.headers@[0].1@ == self.agent()
                && req.headers@[1].0@ == "X-Publish-Token"@ && req.headers@[1].1@ == publish_token@
                && req.headers@[2].0@ == "Content-Type"@ && req.headers@[2].1@
                == "application/json"@ && (req.body matches Some(b) && b@ == json::publish_json(
                lyrics@,
            ))),
    {
        let mut uri = self.base_url.clone();
        uri.append("/api/publish");
        assert(uri@ =~= publish_uri(self.base()));
        if !url_parses(uri.as_str()) {
            return Err(ApiError::UrlError);
        }
        if !check_header_value(self.user_agent.as_str()) {
            return Err(ApiError::HttpRequestError);
        }
        if !check_header_value(publish_token) {
            return Err(ApiError::HttpRequestError);
        }
        let body = json::publish_payload_json(lyrics);
        let mut headers: Vec<(String, String)> = Vec::new();
        headers.push(("User-Agent".to_owned(), self.user_agent.clone()));
        headers.push(("X-Publish-Token".to_owned(), publish_token.to_owned()));
        headers.push(("Content-Type".to_owned(), "application/json".to_owned()));
        Ok(ApiRequest { method: Method::Post, uri, headers, body: Some(body) })
    }
}

} // verus!


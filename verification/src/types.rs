//! Data model for the lyrics service: records exchanged on the wire, the
//! request descriptor handed to the caller's HTTP transport, and the error
//! type of the request builder.
use vstd::prelude::*;

verus! {

/// HTTP method of a built request. Only the two methods the service uses.
#[derive(Clone, Copy, Debug, PartialEq, Eq)]
pub enum Method {
    Get,
    Post,
}

/// A fully specified HTTP request: method, URI, headers and optional body.
/// The caller executes it with a transport of its choice; this library only
/// constructs it.
#[derive(Clone, Debug)]
pub struct ApiRequest {
    pub method: Method,
    pub uri: String,
    /// Header name/value pairs, in the order they should be sent.
    pub headers: Vec<(String, String)>,
    /// Request body bytes, if the request carries one.
    pub body: Option<Vec<u8>>,
}

/// Mathematical view of a [`LyricsData`] value.
pub struct LyricsDataV {
    pub id: u64,
    pub name: Seq<char>,
    pub track_name: Seq<char>,
    pub artist_name: Seq<char>,
    pub instrumental: bool,
    pub album_name: Option<Seq<char>>,
    /// Track length in milliseconds.
    pub duration: Option<u64>,
    pub plain_lyrics: Option<Seq<char>>,
    pub synced_lyrics: Option<Seq<char>>,
}

/// A lyrics record as the service returns it. Album name, duration and the
/// two lyrics texts may be absent. Durations are held in milliseconds and
/// appear on the wire as a decimal number of seconds.
#[derive(Clone, Debug)]
pub struct LyricsData {
    pub id: u64,
    pub name: String,
    pub track_name: String,
    pub artist_name: String,
    pub instrumental: bool,
    pub album_name: Option<String>,
    /// Track length in milliseconds.
    pub duration: Option<u64>,
    pub plain_lyrics: Option<String>,
    pub synced_lyrics: Option<String>,
}

impl View for LyricsData {
    type V = LyricsDataV;

    open spec fn view(&self) -> LyricsDataV {
        LyricsDataV {
            id: self.id,
            name: self.name@,
            track_name: self.track_name@,
            artist_name: self.artist_name@,
            instrumental: self.instrumental,
            album_name: match self.album_name {
                Some(s) => Some(s@),
                None => None,
            },
            duration: self.duration,
            plain_lyrics: match self.plain_lyrics {
                Some(s) => Some(s@),
                None => None,
            },
            synced_lyrics: match self.synced_lyrics {
                Some(s) => Some(s@),
                None => None,
            },
        }
    }
}

impl Default for LyricsData {
    fn default() -> (r: Self)
        ensures
            r@.id == 0 && r@.name.len() == 0 && r@.track_name.len() == 0 && r@.artist_name.len()
                == 0,
            !r@.instrumental,
            r@.album_name is None && r@.duration is None && r@.plain_lyrics is None
                && r@.synced_lyrics is None,
    {
        LyricsData {
            id: 0,
            name: String::new(),
            track_name: String::new(),
            artist_name: String::new(),
            instrumental: false,
            album_name: None,
            duration: None,
            plain_lyrics: None,
            synced_lyrics: None,
        }
    }
}

/// Mathematical view of a [`LyricsPublishData`] value.
pub struct LyricsPublishDataV {
    pub id: u64,
    pub name: Seq<char>,
    pub track_name: Seq<char>,
    pub artist_name: Seq<char>,
    pub instrumental: bool,
    pub album_name: Seq<char>,
    /// Track length in milliseconds.
    pub duration: u64,
    pub plain_lyrics: Seq<char>,
    pub synced_lyrics: Seq<char>,
}

/// The payload of a publish request. The fields the publish endpoint
/// requires (album name, duration, both lyrics texts) are not optional here,
/// so an incomplete payload cannot be formed at all.
#[derive(Clone, Debug)]
pub struct LyricsPublishData {
    pub id: u64,
    pub name: String,
    pub track_name: String,
    pub artist_name: String,
    pub instrumental: bool,
    pub album_name: String,
    /// Track length in milliseconds.
    pub duration: u64,
    pub plain_lyrics: String,
    pub synced_lyrics: String,
}

impl View for LyricsPublishData {
    type V = LyricsPublishDataV;

    open spec fn view(&self) -> LyricsPublishDataV {
        LyricsPublishDataV {
            id: self.id,
            name: self.name@,
            track_name: self.track_name@,
            artist_name: self.artist_name@,
            instrumental: self.instrumental,
            album_name: self.album_name@,
            duration: self.duration,
            plain_lyrics: self.plain_lyrics@,
            synced_lyrics: self.synced_lyrics@,
        }
    }
}

impl Default for LyricsPublishData {
    fn default() -> (r: Self)
        ensures
            r@.id == 0 && r@.name.len() == 0 && r@.track_name.len() == 0 && r@.artist_name.len()
                == 0,
            !r@.instrumental,
            r@.album_name.len() == 0 && r@.duration == 0 && r@.plain_lyrics.len() == 0
                && r@.synced_lyrics.len() == 0,
    {
        LyricsPublishData {
            id: 0,
            name: String::new(),
            track_name: String::new(),
            artist_name: String::new(),
            instrumental: false,
            album_name: String::new(),
            duration: 0,
            plain_lyrics: String::new(),
            synced_lyrics: String::new(),
        }
    }
}

/// Mathematical view of an [`ErrorResponse`] value.
pub struct ErrorResponseV {
    pub status_code: u32,
    pub name: Seq<char>,
    pub message: Seq<char>,
}

/// The error envelope the service returns on failure.
#[derive(Clone, Debug)]
pub struct ErrorResponse {
    pub status_code: u32,
    pub name: String,
    pub message: String,
}

impl View for ErrorResponse {
    type V = ErrorResponseV;

    open spec fn view(&self) -> ErrorResponseV {
        ErrorResponseV { status_code: self.status_code, name: self.name@, message: self.message@ }
    }
}

/// Mathematical view of a [`GetLyricsResponse`] value.
pub enum GetLyricsResponseV {
    Success(LyricsDataV),
    Error(ErrorResponseV),
}

/// Untagged union of a lyrics record and an error envelope, as the lookup
/// endpoints answer: the variant is told apart by which fields are present.
#[derive(Clone, Debug)]
pub enum GetLyricsResponse {
    Success(LyricsData),
    Error(ErrorResponse),
}

impl View for GetLyricsResponse {
    type V = GetLyricsResponseV;

    open spec fn view(&self) -> GetLyricsResponseV {
        match self {
            GetLyricsResponse::Success(d) => GetLyricsResponseV::Success(d@),
            GetLyricsResponse::Error(e) => GetLyricsResponseV::Error(e@),
        }
    }
}

impl GetLyricsResponse {
    pub fn is_success(&self) -> (r: bool)
        ensures
            r == (self@ is Success),
    {
        match self {
            GetLyricsResponse::Success(_) => true,
            GetLyricsResponse::Error(_) => false,
        }
    }

    pub fn is_error(&self) -> (r: bool)
        ensures
            r == (self@ is Error),
    {
        match self {
            GetLyricsResponse::Success(_) => false,
            GetLyricsResponse::Error(_) => true,
        }
    }
}

/// Mathematical view of a [`PublishResponse`] value.
pub enum PublishResponseV {
    Created,
    Error(ErrorResponseV),
}

/// Untagged union of a successful publish (an empty marker) and an error
/// envelope.
#[derive(Clone, Debug)]
pub enum PublishResponse {
    Created,
    Error(ErrorResponse),
}

impl View for PublishResponse {
    type V = PublishResponseV;

    open spec fn view(&self) -> PublishResponseV {
        match self {
            PublishResponse::Created => PublishResponseV::Created,
            PublishResponse::Error(e) => PublishResponseV::Error(e@),
        }
    }
}

impl PublishResponse {
    pub fn is_created(&self) -> (r: bool)
        ensures
            r == (self@ is Created),
    {
        match self {
            PublishResponse::Created => true,
            PublishResponse::Error(_) => false,
        }
    }

    pub fn is_error(&self) -> (r: bool)
        ensures
            r == (self@ is Error),
    {
        match self {
            PublishResponse::Created => false,
            PublishResponse::Error(_) => true,
        }
    }
}

/// Mathematical view of a [`PublishChallenge`] value.
pub struct PublishChallengeV {
    pub prefix: Seq<char>,
    pub target: Seq<char>,
}

/// The proof-of-work challenge the service hands out before a publish.
#[derive(Clone, Debug)]
pub struct PublishChallenge {
    pub prefix: String,
    pub target: String,
}

impl View for PublishChallenge {
    type V = PublishChallengeV;

    open spec fn view(&self) -> PublishChallengeV {
        PublishChallengeV { prefix: self.prefix@, target: self.target@ }
    }
}

/// Why a request could not be built. Every builder returns one of these
/// instead of a request when construction fails.
#[derive(Clone, Copy, Debug, PartialEq, Eq)]
pub enum ApiError {
    /// The assembled URI is not a well-formed absolute URL.
    UrlError,
    /// A header value cannot be carried in an HTTP header.
    HttpRequestError,
    /// The body could not be encoded as JSON. The library's own encoder is
    /// total, so its builders never return this; the variant keeps the error
    /// surface complete for callers that serialize elsewhere.
    JsonSerializationError,
    /// A field the operation needs was not supplied.
    MissingFieldExists,
}

impl ApiError {
    pub fn is_url_error(&self) -> (r: bool)
        ensures
            r == (*self is UrlError),
    {
        match self {
            ApiError::UrlError => true,
            _ => false,
        }
    }

    pub fn is_http_request_error(&self) -> (r: bool)
        ensures
            r == (*self is HttpRequestError),
    {
        match self {
            ApiError::HttpRequestError => true,
            _ => false,
        }
    }

    pub fn is_json_serialization_error(&self) -> (r: bool)
        ensures
            r == (*self is JsonSerializationError),
    {
        match self {
            ApiError::JsonSerializationError => true,
            _ => false,
        }
    }

    pub fn is_missing_field_exists(&self) -> (r: bool)
        ensures
            r == (*self is MissingFieldExists),
    {
        match self {
            ApiError::MissingFieldExists => true,
            _ => false,
        }
    }
}

} // verus!

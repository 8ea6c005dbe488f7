//! Validity checks a request must pass before it is handed out: the
//! assembled URI must parse as an absolute URL, and header values must be
//! representable in an HTTP header.
use vstd::prelude::*;
use vstd::utf8::encode_utf8;

verus! {

/// Whether `url::Url::parse` accepts the text as an absolute URL.
pub uninterp spec fn is_parsable_url(s: Seq<char>) -> bool;

/// Relies on `url::Url::parse`: it accepts or rejects a URL text purely as a
/// function of the text.
#[verifier::external_body]
pub(crate) fn url_parses(s: &str) -> (r: bool)
    ensures
        r == is_parsable_url(s@),
{
    url::Url::parse(s).is_ok()
}

/// Whether every byte of the string's UTF-8 form may appear in an HTTP
/// header value: bytes 32..=255 except DEL, and tab.
pub open spec fn header_value_ok(s: Seq<char>) -> bool {
    forall|i: int|
        0 <= i < encode_utf8(s).len() ==> (32 <= #[trigger] encode_utf8(s)[i] && encode_utf8(s)[i]
            != 127) || encode_utf8(s)[i] == 9
}

/// Relies on `http::HeaderValue::from_str`: it accepts exactly the strings
/// whose bytes are all 32..=255 except DEL, or tab.
#[verifier::external_body]
pub(crate) fn check_header_value(s: &str) -> (r: bool)
    ensures
        r == header_value_ok(s@),
{
    http::HeaderValue::from_str(s).is_ok()
}

} // verus!

//! A decoder for the wire form of the data model: a JSON reader for flat
//! objects whose values are strings, numbers, booleans or null — the shape
//! of every document the service sends — and the untagged-union rules that
//! tell a success document from an error envelope.
use vstd::prelude::*;
use vstd::utf8::decode_utf8;
use vstd::utf8::encode_utf8;
use vstd::utf8::encode_utf8_decode_utf8;
use vstd::utf8::valid_utf8;

use crate::strutil::bytes_to_string;
use crate::types::ErrorResponse;
use crate::types::ErrorResponseV;
use crate::types::GetLyricsResponse;
use crate::types::GetLyricsResponseV;
use crate::types::LyricsData;
use crate::types::LyricsDataV;
use crate::types::PublishChallenge;
use crate::types::PublishChallengeV;
use crate::types::PublishResponse;
use crate::types::PublishResponseV;

verus! {

/// Mathematical view of a [`JsonValue`].
pub enum JsonValueV {
    Str(Seq<char>),
    Num { int_part: u64, frac3: u16, fractional: bool },
    Bool(bool),
    Null,
}

/// A primitive JSON value: the only values the service's flat documents
/// hold. A number is an integer part and up to three fractional digits,
/// read as thousandths.
pub enum JsonValue {
    Str(String),
    Num { int_part: u64, frac3: u16, fractional: bool },
    Bool(bool),
    Null,
}

impl View for JsonValue {
    type V = JsonValueV;

    open spec fn view(&self) -> JsonValueV {
        match self {
            JsonValue::Str(s) => JsonValueV::Str(s@),
            JsonValue::Num { int_part, frac3, fractional } => JsonValueV::Num {
                int_part: *int_part,
                frac3: *frac3,
                fractional: *fractional,
            },
            JsonValue::Bool(b) => JsonValueV::Bool(*b),
            JsonValue::Null => JsonValueV::Null,
        }
    }
}

/// JSON whitespace.
pub open spec fn is_ws(b: u8) -> bool {
    b == 32 || b == 9 || b == 10 || b == 13
}

/// An ASCII digit.
pub open spec fn is_digit(b: u8) -> bool {
    48 <= b && b <= 57
}

/// A hex digit byte, of either case.
pub open spec fn is_hexb(b: u8) -> bool {
    is_digit(b) || (65 <= b && b <= 70) || (97 <= b && b <= 102)
}

/// The value of the hex digit byte `b`.
pub open spec fn hexbv(b: u8) -> nat
    recommends
        is_hexb(b),
{
    if is_digit(b) {
        (b - 48) as nat
    } else if 65 <= b && b <= 70 {
        (b - 55) as nat
    } else {
        (b - 87) as nat
    }
}

/// The input with its leading whitespace dropped.
pub open spec fn sp_ws(s: Seq<u8>) -> Seq<u8>
    decreases s.len(),
{
    if s.len() > 0 && is_ws(s[0]) {
        sp_ws(s.drop_first())
    } else {
        s
    }
}

/// Reads a JSON string body after its opening quote: the raw bytes the
/// string carries, and the input after the closing quote.
pub open spec fn sp_str_body(s: Seq<u8>) -> Option<(Seq<u8>, Seq<u8>)>
    decreases s.len(),
{
    if s.len() == 0 {
        None
    } else if s[0] == 34 {
        Some((Seq::empty(), s.drop_first()))
    } else if s[0] == 92 {
        if s.len() >= 2 {
            let e = s[1];
            if e == 34 || e == 92 || e == 47 {
                match sp_str_body(s.skip(2)) {
                    Some((b, r)) => Some((seq![e] + b, r)),
                    None => None,
                }
            } else if e == 98 || e == 116 || e == 110 || e == 102 || e == 114 {
                match sp_str_body(s.skip(2)) {
                    Some((b, r)) => Some((seq![short_escape(e)] + b, r)),
                    None => None,
                }
            } else if e == 117 {
                if s.len() >= 6 && s[2] == 48 && s[3] == 48 && is_hexb(s[4]) && is_hexb(s[5]) {
                    match sp_str_body(s.skip(6)) {
                        Some((b, r)) => Some((seq![((hexbv(s[4]) * 16 + hexbv(s[5])) as u8)] + b, r)),
                        None => None,
                    }
                } else {
                    None
                }
            } else {
                None
            }
        } else {
            None
        }
    } else if s[0] < 32 {
        None
    } else {
        match sp_str_body(s.drop_first()) {
            Some((b, r)) => Some((seq![s[0]] + b, r)),
            None => None,
        }
    }
}

/// The byte a short escape letter stands for.
pub open spec fn short_escape(e: u8) -> u8 {
    if e == 98 {
        8u8
    } else if e == 116 {
        9u8
    } else if e == 110 {
        10u8
    } else if e == 102 {
        12u8
    } else {
        13u8
    }
}

/// Reads a complete JSON string, opening quote included.
pub open spec fn sp_string(s: Seq<u8>) -> Option<(Seq<u8>, Seq<u8>)> {
    if s.len() > 0 && s[0] == 34 {
        sp_str_body(s.drop_first())
    } else {
        None
    }
}

/// Splits the input into its maximal leading digit run and the rest.
pub open spec fn take_digits(s: Seq<u8>) -> (Seq<u8>, Seq<u8>)
    decreases s.len(),
{
    if s.len() > 0 && is_digit(s[0]) {
        let (d, r) = take_digits(s.drop_first());
        (seq![s[0]] + d, r)
    } else {
        (Seq::empty(), s)
    }
}

/// The number a digit run denotes.
pub open spec fn digits_val(ds: Seq<u8>) -> nat
    decreases ds.len(),
{
    if ds.len() == 0 {
        0
    } else {
        (digits_val(ds.drop_last()) * 10 + (ds.last() - 48)) as nat
    }
}

/// The thousandths a fractional digit run of up to three digits denotes.
pub open spec fn pad3(fs: Seq<u8>) -> nat
    recommends
        1 <= fs.len() <= 3,
{
    if fs.len() == 1 {
        digits_val(fs) * 100
    } else if fs.len() == 2 {
        digits_val(fs) * 10
    } else {
        digits_val(fs)
    }
}

/// Reads an unsigned JSON number: integer part, and up to three fractional
/// digits read as thousandths. Fails on an empty digit run, an integer part
/// beyond `u64`, or more than three fractional digits.
pub open spec fn sp_number(s: Seq<u8>) -> Option<((u64, u16, bool), Seq<u8>)> {
    let (ds, r) = take_digits(s);
    if ds.len() == 0 {
        None
    } else if digits_val(ds) > u64::MAX {
        None
    } else if r.len() >= 2 && r[0] == 46 && is_digit(r[1]) {
        let (fs, r2) = take_digits(r.drop_first());
        if fs.len() > 3 {
            None
        } else {
            Some(((digits_val(ds) as u64, pad3(fs) as u16, true), r2))
        }
    } else {
        Some(((digits_val(ds) as u64, 0u16, false), r))
    }
}

/// Reads a primitive JSON value.
pub open spec fn sp_value(s: Seq<u8>) -> Option<(JsonValueV, Seq<u8>)> {
    if s.len() == 0 {
        None
    } else if s[0] == 34 {
        match sp_str_body(s.drop_first()) {
            Some((b, r)) => if valid_utf8(b) {
                Some((JsonValueV::Str(decode_utf8(b)), r))
            } else {
                None
            },
            None => None,
        }
    } else if s[0] == 116 {
        if s.len() >= 4 && s[1] == 114 && s[2] == 117 && s[3] == 101 {
            Some((JsonValueV::Bool(true), s.skip(4)))
        } else {
            None
        }
    } else if s[0] == 102 {
        if s.len() >= 5 && s[1] == 97 && s[2] == 108 && s[3] == 115 && s[4] == 101 {
            Some((JsonValueV::Bool(false), s.skip(5)))
        } else {
            None
        }
    } else if s[0] == 110 {
        if s.len() >= 4 && s[1] == 117 && s[2] == 108 && s[3] == 108 {
            Some((JsonValueV::Null, s.skip(4)))
        } else {
            None
        }
    } else if is_digit(s[0]) {
        match sp_number(s) {
            Some(((int_part, frac3, fractional), r)) => Some(
                (JsonValueV::Num { int_part, frac3, fractional }, r),
            ),
            None => None,
        }
    } else {
        None
    }
}

/// Reads one `"key": value` member. The key must be UTF-8 after unescaping.
pub open spec fn sp_member(s: Seq<u8>) -> Option<((Seq<char>, JsonValueV), Seq<u8>)> {
    match sp_string(s) {
        Some((kb, r)) => if valid_utf8(kb) {
            let t = sp_ws(r);
            if t.len() > 0 && t[0] == 58 {
                match sp_value(sp_ws(t.drop_first())) {
                    Some((v, r2)) => Some(((decode_utf8(kb), v), r2)),
                    None => None,
                }
            } else {
                None
            }
        } else {
            None
        },
        None => None,
    }
}

proof fn lemma_sp_ws_len(s: Seq<u8>)
    ensures
        sp_ws(s).len() <= s.len(),
    decreases s.len(),
{
    if s.len() > 0 && is_ws(s[0]) {
        lemma_sp_ws_len(s.drop_first());
    }
}

proof fn lemma_sp_str_body_rest(s: Seq<u8>)
    ensures
        sp_str_body(s) matches Some(p) ==> p.1.len() < s.len(),
    decreases s.len(),
{
    if s.len() == 0 {
    } else if s[0] == 34 {
    } else if s[0] == 92 {
        if s.len() >= 2 {
            if s[1] == 117 {
                if s.len() >= 6 {
                    lemma_sp_str_body_rest(s.skip(6));
                }
            } else {
                lemma_sp_str_body_rest(s.skip(2));
            }
        }
    } else {
        lemma_sp_str_body_rest(s.drop_first());
    }
}

proof fn lemma_take_digits_len(s: Seq<u8>)
    ensures
        take_digits(s).0.len() + take_digits(s).1.len() == s.len(),
        take_digits(s).1 == s.skip(take_digits(s).0.len() as int),
    decreases s.len(),
{
    if s.len() > 0 && is_digit(s[0]) {
        lemma_take_digits_len(s.drop_first());
        assert(s.drop_first().skip(take_digits(s.drop_first()).0.len() as int) =~= s.skip(
            take_digits(s).0.len() as int,
        ));
    } else {
        assert(take_digits(s).1 =~= s.skip(0));
    }
}

proof fn lemma_sp_value_rest(s: Seq<u8>)
    ensures
        sp_value(s) matches Some(p) ==> p.1.len() < s.len(),
{
    if s.len() > 0 {
        if s[0] == 34 {
            lemma_sp_str_body_rest(s.drop_first());
        } else if is_digit(s[0]) {
            lemma_take_digits_len(s);
            let (ds, r) = take_digits(s);
            if ds.len() > 0 && r.len() >= 2 && r[0] == 46 && is_digit(r[1]) {
                lemma_take_digits_len(r.drop_first());
            }
        }
    }
}

proof fn lemma_sp_member_rest(s: Seq<u8>)
    ensures
        sp_member(s) matches Some(p) ==> p.1.len() < s.len(),
{
    if s.len() > 0 && s[0] == 34 {
        lemma_sp_str_body_rest(s.drop_first());
        match sp_string(s) {
            Some((kb, r)) => {
                lemma_sp_ws_len(r);
                let t = sp_ws(r);
                if t.len() > 0 && t[0] == 58 {
                    lemma_sp_ws_len(t.drop_first());
                    lemma_sp_value_rest(sp_ws(t.drop_first()));
                }
            },
            None => {},
        }
    }
}

/// Reads the members of an object after its opening brace, up to and
/// including the closing brace.
pub open spec fn sp_members(s: Seq<u8>) -> Option<(Seq<(Seq<char>, JsonValueV)>, Seq<u8>)>
    decreases s.len(),
    via sp_members_decreases
{
    match sp_member(s) {
        Some((m, r)) => {
            let t = sp_ws(r);
            if t.len() > 0 && t[0] == 44 {
                match sp_members(sp_ws(t.drop_first())) {
                    Some((ms, r2)) => Some((seq![m] + ms, r2)),
                    None => None,
                }
            } else if t.len() > 0 && t[0] == 125 {
                Some((seq![m], t.drop_first()))
            } else {
                None
            }
        },
        None => None,
    }
}

#[via_fn]
proof fn sp_members_decreases(s: Seq<u8>) {
    lemma_sp_member_rest(s);
    match sp_member(s) {
        Some((m, r)) => {
            lemma_sp_ws_len(r);
            let t = sp_ws(r);
            if t.len() > 0 && t[0] == 44 {
                lemma_sp_ws_len(t.drop_first());
            }
        },
        None => {},
    }
}

/// Reads a complete object: brace to brace.
pub open spec fn sp_object(s: Seq<u8>) -> Option<(Seq<(Seq<char>, JsonValueV)>, Seq<u8>)> {
    if s.len() > 0 && s[0] == 123 {
        let t = sp_ws(s.drop_first());
        if t.len() > 0 && t[0] == 125 {
            Some((Seq::empty(), t.drop_first()))
        } else {
            sp_members(t)
        }
    } else {
        None
    }
}

/// Reads a whole document that must be a single object, with nothing but
/// whitespace around it.
pub open spec fn sp_doc(s: Seq<u8>) -> Option<Seq<(Seq<char>, JsonValueV)>> {
    match sp_object(sp_ws(s)) {
        Some((ms, r)) => if sp_ws(r).len() == 0 {
            Some(ms)
        } else {
            None
        },
        None => None,
    }
}

/// The value under the first occurrence of `k`.
pub open spec fn sp_lookup(ms: Seq<(Seq<char>, JsonValueV)>, k: Seq<char>) -> Option<JsonValueV>
    decreases ms.len(),
{
    if ms.len() == 0 {
        None
    } else if ms[0].0 == k {
        Some(ms[0].1)
    } else {
        sp_lookup(ms.drop_first(), k)
    }
}

/// A mandatory integer field: present, integral, within `u64`.
pub open spec fn sp_req_u64(ms: Seq<(Seq<char>, JsonValueV)>, k: Seq<char>) -> Option<u64> {
    match sp_lookup(ms, k) {
        Some(JsonValueV::Num { int_part, frac3, fractional }) => if !fractional {
            Some(int_part)
        } else {
            None
        },
        _ => None,
    }
}

/// A mandatory integer field within `u32`.
pub open spec fn sp_req_u32(ms: Seq<(Seq<char>, JsonValueV)>, k: Seq<char>) -> Option<u32> {
    match sp_req_u64(ms, k) {
        Some(n) => if n <= u32::MAX {
            Some(n as u32)
        } else {
            None
        },
        None => None,
    }
}

/// A mandatory string field.
pub open spec fn sp_req_str(ms: Seq<(Seq<char>, JsonValueV)>, k: Seq<char>) -> Option<Seq<char>> {
    match sp_lookup(ms, k) {
        Some(JsonValueV::Str(s)) => Some(s),
        _ => None,
    }
}

/// A mandatory boolean field.
pub open spec fn sp_req_bool(ms: Seq<(Seq<char>, JsonValueV)>, k: Seq<char>) -> Option<bool> {
    match sp_lookup(ms, k) {
        Some(JsonValueV::Bool(b)) => Some(b),
        _ => None,
    }
}

/// An optional string field: absent or null reads as `None`.
pub open spec fn sp_opt_str(ms: Seq<(Seq<char>, JsonValueV)>, k: Seq<char>) -> Option<
    Option<Seq<char>>,
> {
    match sp_lookup(ms, k) {
        None => Some(None),
        Some(JsonValueV::Null) => Some(None),
        Some(JsonValueV::Str(s)) => Some(Some(s)),
        _ => None,
    }
}

/// An optional duration field, read into milliseconds: absent or null reads
/// as `None`; a number reads as its seconds and thousandths, and must fit.
pub open spec fn sp_opt_dur(ms: Seq<(Seq<char>, JsonValueV)>, k: Seq<char>) -> Option<Option<u64>> {
    match sp_lookup(ms, k) {
        None => Some(None),
        Some(JsonValueV::Null) => Some(None),
        Some(JsonValueV::Num { int_part, frac3, fractional }) => if int_part <= (u64::MAX - frac3) / 1000 {
            Some(Some((int_part * 1000 + frac3) as u64))
        } else {
            None
        },
        _ => None,
    }
}

/// The lyrics record a member list denotes, if it has the record's
/// mandatory fields with the right kinds of values.
pub open spec fn sp_lyrics(ms: Seq<(Seq<char>, JsonValueV)>) -> Option<LyricsDataV> {
    if sp_req_u64(ms, "id"@) is Some && sp_req_str(ms, "name"@) is Some && sp_req_str(
        ms,
        "trackName"@,
    ) is Some && sp_req_str(ms, "artistName"@) is Some && sp_req_bool(ms, "instrumental"@) is Some
        && sp_opt_str(ms, "albumName"@) is Some && sp_opt_dur(ms, "duration"@) is Some
        && sp_opt_str(ms, "plainLyrics"@) is Some && sp_opt_str(ms, "syncedLyrics"@) is Some {
        Some(
            LyricsDataV {
                id: sp_req_u64(ms, "id"@).unwrap(),
                name: sp_req_str(ms, "name"@).unwrap(),
                track_name: sp_req_str(ms, "trackName"@).unwrap(),
                artist_name: sp_req_str(ms, "artistName"@).unwrap(),
                instrumental: sp_req_bool(ms, "instrumental"@).unwrap(),
                album_name: sp_opt_str(ms, "albumName"@).unwrap(),
                duration: sp_opt_dur(ms, "duration"@).unwrap(),
                plain_lyrics: sp_opt_str(ms, "plainLyrics"@).unwrap(),
                synced_lyrics: sp_opt_str(ms, "syncedLyrics"@).unwrap(),
            },
        )
    } else {
        None
    }
}

/// The error envelope a member list denotes.
pub open spec fn sp_error(ms: Seq<(Seq<char>, JsonValueV)>) -> Option<ErrorResponseV> {
    if sp_req_u32(ms, "statusCode"@) is Some && sp_req_str(ms, "name"@) is Some && sp_req_str(
        ms,
        "message"@,
    ) is Some {
        Some(
            ErrorResponseV {
                status_code: sp_req_u32(ms, "statusCode"@).unwrap(),
                name: sp_req_str(ms, "name"@).unwrap(),
                message: sp_req_str(ms, "message"@).unwrap(),
            },
        )
    } else {
        None
    }
}

/// The publish challenge a member list denotes.
pub open spec fn sp_challenge(ms: Seq<(Seq<char>, JsonValueV)>) -> Option<PublishChallengeV> {
    if sp_req_str(ms, "prefix"@) is Some && sp_req_str(ms, "target"@) is Some {
        Some(
            PublishChallengeV {
                prefix: sp_req_str(ms, "prefix"@).unwrap(),
                target: sp_req_str(ms, "target"@).unwrap(),
            },
        )
    } else {
        None
    }
}

/// The lyrics record a whole document denotes.
pub open spec fn sp_lyrics_doc(s: Seq<u8>) -> Option<LyricsDataV> {
    match sp_doc(s) {
        Some(ms) => sp_lyrics(ms),
        None => None,
    }
}

/// The error envelope a whole document denotes.
pub open spec fn sp_error_doc(s: Seq<u8>) -> Option<ErrorResponseV> {
    match sp_doc(s) {
        Some(ms) => sp_error(ms),
        None => None,
    }
}

/// The publish challenge a whole document denotes.
pub open spec fn sp_challenge_doc(s: Seq<u8>) -> Option<PublishChallengeV> {
    match sp_doc(s) {
        Some(ms) => sp_challenge(ms),
        None => None,
    }
}

/// Untagged decoding of a lookup response: the success shape is attempted
/// first, and only a document that does not read as a lyrics record is read
/// as an error envelope.
pub open spec fn sp_get_response(s: Seq<u8>) -> Option<GetLyricsResponseV> {
    match sp_lyrics_doc(s) {
        Some(d) => Some(GetLyricsResponseV::Success(d)),
        None => match sp_error_doc(s) {
            Some(e) => Some(GetLyricsResponseV::Error(e)),
            None => None,
        },
    }
}

/// Untagged decoding of a publish response: `null` (the empty marker) reads
/// as a successful publish, and otherwise the document must be an error
/// envelope.
pub open spec fn sp_publish_response(s: Seq<u8>) -> Option<PublishResponseV> {
    let t = sp_ws(s);
    if t.len() >= 4 && t[0] == 110 && t[1] == 117 && t[2] == 108 && t[3] == 108 && sp_ws(
        t.skip(4),
    ).len() == 0 {
        Some(PublishResponseV::Created)
    } else {
        match sp_error_doc(s) {
            Some(e) => Some(PublishResponseV::Error(e)),
            None => None,
        }
    }
}

/// The untagged-union decoding rules, written out: a document that reads as
/// a lyrics record decodes as the success variant; a document that does not
/// — in particular one without an `id` member — and whose members form an
/// error envelope decodes as the error variant.
pub proof fn lemma_untagged_get_decoding(s: Seq<u8>)
    ensures
        sp_lyrics_doc(s) is Some ==> sp_get_response(s) == Some(
            GetLyricsResponseV::Success(sp_lyrics_doc(s).unwrap()),
        ),
        sp_lyrics_doc(s) is None && sp_error_doc(s) is Some ==> sp_get_response(s) == Some(
            GetLyricsResponseV::Error(sp_error_doc(s).unwrap()),
        ),
        sp_doc(s) is Some && sp_lookup(sp_doc(s).unwrap(), "id"@) is None ==> sp_lyrics_doc(
            s,
        ) is None,
{
}

proof fn lemma_take_digits_digits(s: Seq<u8>)
    ensures
        forall|k: int|
            0 <= k < take_digits(s).0.len() ==> is_digit(#[trigger] take_digits(s).0[k]),
    decreases s.len(),
{
    if s.len() > 0 && is_digit(s[0]) {
        lemma_take_digits_digits(s.drop_first());
        assert forall|k: int| 0 <= k < take_digits(s).0.len() implies is_digit(
            #[trigger] take_digits(s).0[k],
        ) by {
            if k == 0 {
                assert(take_digits(s).0[0] == s[0]);
            } else {
                assert(take_digits(s).0[k] == take_digits(s.drop_first()).0[k - 1]);
            }
        }
    }
}

proof fn lemma_digits_val_bound(ds: Seq<u8>)
    requires
        forall|k: int| 0 <= k < ds.len() ==> is_digit(#[trigger] ds[k]),
    ensures
        ds.len() <= 1 ==> digits_val(ds) < 10,
        ds.len() <= 2 ==> digits_val(ds) < 100,
        ds.len() <= 3 ==> digits_val(ds) < 1000,
    decreases ds.len(),
{
    if ds.len() > 0 {
        lemma_digits_val_bound(ds.drop_last());
    }
}

fn p_ws(v: &[u8], i: usize) -> (j: usize)
    requires
        i <= v@.len(),
    ensures
        i <= j <= v@.len(),
        v@.skip(j as int) == sp_ws(v@.skip(i as int)),
    decreases v@.len() - i,
{
    if i < v.len() {
        let b = v[i];
        assert(v@.skip(i as int)[0] == b);
        if b == 32 || b == 9 || b == 10 || b == 13 {
            proof {
                assert(v@.skip(i as int).drop_first() =~= v@.skip(i + 1));
            }
            p_ws(v, i + 1)
        } else {
            i
        }
    } else {
        i
    }
}

fn hexb_val(b: u8) -> (r: Option<u8>)
    ensures
        r matches Some(x) ==> is_hexb(b) && x == hexbv(b),
        r is None ==> !is_hexb(b),
{
    if 48 <= b && b <= 57 {
        Some(b - 48)
    } else if 65 <= b && b <= 70 {
        Some(b - 55)
    } else if 97 <= b && b <= 102 {
        Some(b - 87)
    } else {
        None
    }
}

fn p_str_body(v: &[u8], i: usize) -> (r: Option<(Vec<u8>, usize)>)
    requires
        i <= v@.len(),
    ensures
        match sp_str_body(v@.skip(i as int)) {
            Some(p) => r matches Some(q) && q.0@ == p.0 && i <= q.1 <= v@.len() && v@.skip(
                q.1 as int,
            ) == p.1,
            None => r is None,
        },
    decreases v@.len() - i,
{
    let n = v.len();
    if i == n {
        return None;
    }
    let ghost t = v@.skip(i as int);
    let b0 = v[i];
    assert(t[0] == b0);
    if b0 == 34 {
        proof {
            assert(t.drop_first() =~= v@.skip(i + 1));
        }
        Some((Vec::new(), i + 1))
    } else if b0 == 92 {
        if n - i >= 2 {
            let e = v[i + 1];
            assert(t[1] == e);
            if e == 34 || e == 92 || e == 47 {
                proof {
                    assert(t.skip(2) =~= v@.skip(i + 2));
                }
                match p_str_body(v, i + 2) {
                    Some((mut bv, j)) => {
                        bv.insert(0, e);
                        assert(bv@ =~= sp_str_body(t).unwrap().0);
                        Some((bv, j))
                    },
                    None => None,
                }
            } else if e == 98 || e == 116 || e == 110 || e == 102 || e == 114 {
                let sb: u8 = if e == 98 {
                    8
                } else if e == 116 {
                    9
                } else if e == 110 {
                    10
                } else if e == 102 {
                    12
                } else {
                    13
                };
                proof {
                    assert(t.skip(2) =~= v@.skip(i + 2));
                }
                match p_str_body(v, i + 2) {
                    Some((mut bv, j)) => {
                        bv.insert(0, sb);
                        assert(bv@ =~= sp_str_body(t).unwrap().0);
                        Some((bv, j))
                    },
                    None => None,
                }
            } else if e == 117 {
                if n - i >= 6 {
                    assert(t[2] == v@[i + 2] && t[3] == v@[i + 3] && t[4] == v@[i + 4] && t[5]
                        == v@[i + 5]);
                    if v[i + 2] == 48 && v[i + 3] == 48 {
                        match (hexb_val(v[i + 4]), hexb_val(v[i + 5])) {
                            (Some(hi), Some(lo)) => {
                                proof {
                                    assert(t.skip(6) =~= v@.skip(i + 6));
                                }
                                match p_str_body(v, i + 6) {
                                    Some((mut bv, j)) => {
                                        bv.insert(0, hi * 16 + lo);
                                        assert(bv@ =~= sp_str_body(t).unwrap().0);
                                        Some((bv, j))
                                    },
                                    None => None,
                                }
                            },
                            _ => None,
                        }
                    } else {
                        None
                    }
                } else {
                    None
                }
            } else {
                None
            }
        } else {
            None
        }
    } else if b0 < 32 {
        None
    } else {
        proof {
            assert(t.drop_first() =~= v@.skip(i + 1));
        }
        match p_str_body(v, i + 1) {
            Some((mut bv, j)) => {
                bv.insert(0, b0);
                assert(bv@ =~= sp_str_body(t).unwrap().0);
                Some((bv, j))
            },
            None => None,
        }
    }
}

fn p_digits_end(v: &[u8], i: usize) -> (j: usize)
    requires
        i <= v@.len(),
    ensures
        i <= j <= v@.len(),
        take_digits(v@.skip(i as int)).0 == v@.subrange(i as int, j as int),
        take_digits(v@.skip(i as int)).1 == v@.skip(j as int),
    decreases v@.len() - i,
{
    if i < v.len() {
        let b = v[i];
        assert(v@.skip(i as int)[0] == b);
        if 48 <= b && b <= 57 {
            proof {
                assert(v@.skip(i as int).drop_first() =~= v@.skip(i + 1));
            }
            let j = p_digits_end(v, i + 1);
            proof {
                assert(take_digits(v@.skip(i as int)).0 =~= v@.subrange(i as int, j as int));
            }
            j
        } else {
            proof {
                assert(take_digits(v@.skip(i as int)).0 =~= v@.subrange(i as int, i as int));
            }
            i
        }
    } else {
        proof {
            assert(take_digits(v@.skip(i as int)).0 =~= v@.subrange(i as int, i as int));
        }
        i
    }
}

fn p_digits_val(v: &[u8], i: usize, j: usize) -> (r: Option<u64>)
    requires
        i <= j <= v@.len(),
        forall|k: int| i <= k < j ==> is_digit(#[trigger] v@[k]),
    ensures
        ({
            let dv = digits_val(v@.subrange(i as int, j as int));
            &&& (r matches Some(x) ==> dv <= u64::MAX && x == dv)
            &&& (r is None ==> dv > u64::MAX)
        }),
    decreases j - i,
{
    if i == j {
        assert(v@.subrange(i as int, j as int) =~= Seq::<u8>::empty());
        Some(0)
    } else {
        let ghost ds = v@.subrange(i as int, j as int);
        proof {
            assert(ds.drop_last() =~= v@.subrange(i as int, j - 1));
            assert(ds.last() == v@[j - 1]);
        }
        let front = p_digits_val(v, i, j - 1);
        let d = v[j - 1] - 48;
        match front {
            Some(p) => {
                match p.checked_mul(10) {
                    Some(m) => {
                        match m.checked_add(d as u64) {
                            Some(x) => Some(x),
                            None => None,
                        }
                    },
                    None => None,
                }
            },
            None => {
                proof {
                    let f = digits_val(ds.drop_last());
                    assert(f * 10 + (ds.last() - 48) >= f) by (nonlinear_arith)
                        requires
                            f >= 0,
                            ds.last() >= 48,
                    ;
                }
                None
            },
        }
    }
}

fn p_number(v: &[u8], i: usize) -> (r: Option<((u64, u16, bool), usize)>)
    requires
        i <= v@.len(),
    ensures
        match sp_number(v@.skip(i as int)) {
            Some(p) => r matches Some(q) && q.0 == p.0 && i <= q.1 <= v@.len() && v@.skip(
                q.1 as int,
            ) == p.1,
            None => r is None,
        },
{
    let n = v.len();
    let ghost t = v@.skip(i as int);
    let j = p_digits_end(v, i);
    proof {
        lemma_take_digits_digits(t);
        assert forall|k: int| i <= k < j implies is_digit(#[trigger] v@[k]) by {
            assert(take_digits(t).0[k - i] == v@.subrange(i as int, j as int)[k - i]);
        }
    }
    if j == i {
        assert(take_digits(t).0.len() == 0);
        return None;
    }
    let val = match p_digits_val(v, i, j) {
        Some(x) => x,
        None => {
            return None;
        },
    };
    let ghost rr = take_digits(t).1;
    if n - j >= 2 && v[j] == 46 && 48 <= v[j + 1] && v[j + 1] <= 57 {
        assert(rr[0] == v@[j as int] && rr[1] == v@[j + 1]);
        proof {
            assert(rr.drop_first() =~= v@.skip(j + 1));
        }
        let k = p_digits_end(v, j + 1);
        let ghost fs = take_digits(v@.skip(j + 1)).0;
        proof {
            lemma_take_digits_digits(v@.skip(j + 1));
            assert forall|x: int| j + 1 <= x < k implies is_digit(#[trigger] v@[x]) by {
                assert(fs[x - (j + 1)] == v@.subrange(j + 1, k as int)[x - (j + 1)]);
            }
        }
        if k - (j + 1) > 3 {
            assert(fs.len() > 3);
            return None;
        }
        assert(fs.len() <= 3);
        let f = match p_digits_val(v, j + 1, k) {
            Some(x) => x,
            None => {
                proof {
                    lemma_digits_val_bound(fs);
                    assert(false);
                }
                return None;
            },
        };
        proof {
            lemma_digits_val_bound(fs);
        }
        let flen = k - (j + 1);
        let f3: u16 = if flen == 1 {
            (f as u16) * 100
        } else if flen == 2 {
            (f as u16) * 10
        } else {
            f as u16
        };
        assert(f3 == pad3(fs));
        Some(((val, f3, true), k))
    } else {
        if n - j >= 2 && v[j] == 46 {
            assert(rr[0] == v@[j as int] && rr[1] == v@[j + 1]);
        } else if n - j >= 1 {
            assert(rr[0] == v@[j as int]);
        }
        Some(((val, 0, false), j))
    }
}

fn p_value(v: &[u8], i: usize) -> (r: Option<(JsonValue, usize)>)
    requires
        i <= v@.len(),
    ensures
        match sp_value(v@.skip(i as int)) {
            Some(p) => r matches Some(q) && q.0@ == p.0 && i <= q.1 <= v@.len() && v@.skip(
                q.1 as int,
            ) == p.1,
            None => r is None,
        },
{
    let n = v.len();
    if i == n {
        return None;
    }
    let ghost t = v@.skip(i as int);
    let b0 = v[i];
    assert(t[0] == b0);
    if b0 == 34 {
        proof {
            assert(t.drop_first() =~= v@.skip(i + 1));
        }
        match p_str_body(v, i + 1) {
            Some((bv, j)) => {
                let ghost bs = bv@;
                match bytes_to_string(bv) {
                    Some(s) => {
                        proof {
                            encode_utf8_decode_utf8(s@);
                        }
                        Some((JsonValue::Str(s), j))
                    },
                    None => None,
                }
            },
            None => None,
        }
    } else if b0 == 116 {
        if n - i >= 4 {
            assert(t[1] == v@[i + 1] && t[2] == v@[i + 2] && t[3] == v@[i + 3]);
            if v[i + 1] == 114 && v[i + 2] == 117 && v[i + 3] == 101 {
                proof {
                    assert(t.skip(4) =~= v@.skip(i + 4));
                }
                Some((JsonValue::Bool(true), i + 4))
            } else {
                None
            }
        } else {
            None
        }
    } else if b0 == 102 {
        if n - i >= 5 {
            assert(t[1] == v@[i + 1] && t[2] == v@[i + 2] && t[3] == v@[i + 3] && t[4] == v@[i
                + 4]);
            if v[i + 1] == 97 && v[i + 2] == 108 && v[i + 3] == 115 && v[i + 4] == 101 {
                proof {
                    assert(t.skip(5) =~= v@.skip(i + 5));
                }
                Some((JsonValue::Bool(false), i + 5))
            } else {
                None
            }
        } else {
            None
        }
    } else if b0 == 110 {
        if n - i >= 4 {
            assert(t[1] == v@[i + 1] && t[2] == v@[i + 2] && t[3] == v@[i + 3]);
            if v[i + 1] == 117 && v[i + 2] == 108 && v[i + 3] == 108 {
                proof {
                    assert(t.skip(4) =~= v@.skip(i + 4));
                }
                Some((JsonValue::Null, i + 4))
            } else {
                None
            }
        } else {
            None
        }
    } else if 48 <= b0 && b0 <= 57 {
        match p_number(v, i) {
            Some(((a, f, fr), j)) => Some(
                (JsonValue::Num { int_part: a, frac3: f, fractional: fr }, j),
            ),
            None => None,
        }
    } else {
        None
    }
}

fn p_member(v: &[u8], i: usize) -> (r: Option<((String, JsonValue), usize)>)
    requires
        i <= v@.len(),
    ensures
        match sp_member(v@.skip(i as int)) {
            Some(p) => r matches Some(q) && q.0.0@ == p.0.0 && q.0.1@ == p.0.1 && i <= q.1
                <= v@.len() && v@.skip(q.1 as int) == p.1,
            None => r is None,
        },
{
    let n = v.len();
    if i == n {
        return None;
    }
    let ghost t = v@.skip(i as int);
    if v[i] != 34 {
        assert(t[0] != 34);
        return None;
    }
    assert(t[0] == 34);
    proof {
        assert(t.drop_first() =~= v@.skip(i + 1));
    }
    match p_str_body(v, i + 1) {
        Some((kb, j)) => {
            let ghost kbs = kb@;
            match bytes_to_string(kb) {
                Some(key) => {
                    proof {
                        encode_utf8_decode_utf8(key@);
                    }
                    let j2 = p_ws(v, j);
                    if j2 < n {
                        let ghost tw = sp_ws(v@.skip(j as int));
                        assert(tw[0] == v@[j2 as int]);
                        if v[j2] == 58 {
                            proof {
                                assert(tw.drop_first() =~= v@.skip(j2 + 1));
                            }
                            let j3 = p_ws(v, j2 + 1);
                            match p_value(v, j3) {
                                Some((val, j4)) => Some(((key, val), j4)),
                                None => None,
                            }
                        } else {
                            None
                        }
                    } else {
                        None
                    }
                },
                None => None,
            }
        },
        None => None,
    }
}

/// The views of an executable member list.
pub open spec fn members_view(ms: Seq<(String, JsonValue)>) -> Seq<(Seq<char>, JsonValueV)> {
    ms.map_values(|p: (String, JsonValue)| (p.0@, p.1@))
}

fn p_members(v: &[u8], i: usize) -> (r: Option<(Vec<(String, JsonValue)>, usize)>)
    requires
        i <= v@.len(),
    ensures
        match sp_members(v@.skip(i as int)) {
            Some(p) => r matches Some(q) && members_view(q.0@) == p.0 && i <= q.1 <= v@.len()
                && v@.skip(q.1 as int) == p.1,
            None => r is None,
        },
    decreases v@.len() - i,
{
    let n = v.len();
    let ghost t = v@.skip(i as int);
    match p_member(v, i) {
        Some((m, j)) => {
            proof {
                lemma_sp_member_rest(t);
            }
            let j2 = p_ws(v, j);
            let ghost tw = sp_ws(v@.skip(j as int));
            if j2 < n {
                assert(tw[0] == v@[j2 as int]);
            }
            if j2 < n && v[j2] == 44 {
                proof {
                    assert(tw.drop_first() =~= v@.skip(j2 + 1));
                }
                let j3 = p_ws(v, j2 + 1);
                match p_members(v, j3) {
                    Some((mut ms, j4)) => {
                        ms.insert(0, m);
                        proof {
                            assert(members_view(ms@) =~= sp_members(t).unwrap().0);
                        }
                        Some((ms, j4))
                    },
                    None => None,
                }
            } else if j2 < n && v[j2] == 125 {
                let mut ms: Vec<(String, JsonValue)> = Vec::new();
                ms.push(m);
                proof {
                    assert(tw.drop_first() =~= v@.skip(j2 + 1));
                    assert(members_view(ms@) =~= sp_members(t).unwrap().0);
                }
                Some((ms, j2 + 1))
            } else {
                None
            }
        },
        None => None,
    }
}

fn p_object(v: &[u8], i: usize) -> (r: Option<(Vec<(String, JsonValue)>, usize)>)
    requires
        i <= v@.len(),
    ensures
        match sp_object(v@.skip(i as int)) {
            Some(p) => r matches Some(q) && members_view(q.0@) == p.0 && i <= q.1 <= v@.len()
                && v@.skip(q.1 as int) == p.1,
            None => r is None,
        },
{
    let n = v.len();
    if i == n {
        return None;
    }
    let ghost t = v@.skip(i as int);
    if v[i] != 123 {
        assert(t[0] != 123);
        return None;
    }
    assert(t[0] == 123);
    proof {
        assert(t.drop_first() =~= v@.skip(i + 1));
    }
    let j = p_ws(v, i + 1);
    let ghost tw = sp_ws(v@.skip(i + 1));
    if j < n {
        assert(tw[0] == v@[j as int]);
    }
    if j < n && v[j] == 125 {
        proof {
            assert(tw.drop_first() =~= v@.skip(j + 1));
        }
        let ms: Vec<(String, JsonValue)> = Vec::new();
        proof {
            assert(members_view(ms@) =~= Seq::<(Seq<char>, JsonValueV)>::empty());
        }
        Some((ms, j + 1))
    } else {
        p_members(v, j)
    }
}

fn parse_doc(v: &[u8]) -> (r: Option<Vec<(String, JsonValue)>>)
    ensures
        match sp_doc(v@) {
            Some(sms) => r matches Some(ms) && members_view(ms@) == sms,
            None => r is None,
        },
{
    proof {
        assert(v@.skip(0) =~= v@);
    }
    let j = p_ws(v, 0);
    match p_object(v, j) {
        Some((ms, j2)) => {
            let j3 = p_ws(v, j2);
            if j3 == v.len() {
                assert(sp_ws(v@.skip(j2 as int)).len() == 0);
                Some(ms)
            } else {
                assert(sp_ws(v@.skip(j2 as int)).len() > 0);
                None
            }
        },
        None => None,
    }
}

fn str_eq(a: &str, b: &str) -> (r: bool)
    ensures
        r == (a@ == b@),
{
    let ab = a.as_bytes();
    let bb = b.as_bytes();
    if ab.len() != bb.len() {
        proof {
            if a@ == b@ {
                assert(encode_utf8(a@) == encode_utf8(b@));
            }
        }
        return false;
    }
    let mut i: usize = 0;
    while i < ab.len()
        invariant
            i <= ab@.len(),
            ab@.len() == bb@.len(),
            ab@ == encode_utf8(a@),
            bb@ == encode_utf8(b@),
            forall|k: int| 0 <= k < i ==> ab@[k] == bb@[k],
        decreases ab@.len() - i,
    {
        if ab[i] != bb[i] {
            proof {
                if a@ == b@ {
                    assert(encode_utf8(a@) == encode_utf8(b@));
                }
            }
            return false;
        }
        i = i + 1;
    }
    proof {
        assert(ab@ =~= bb@);
        encode_utf8_decode_utf8(a@);
        encode_utf8_decode_utf8(b@);
    }
    true
}

fn find_key(ms: &Vec<(String, JsonValue)>, k: &str) -> (r: Option<usize>)
    ensures
        match sp_lookup(members_view(ms@), k@) {
            Some(jv) => r matches Some(idx) && idx < ms@.len() && ms@[idx as int].1@ == jv,
            None => r is None,
        },
{
    let ghost mv = members_view(ms@);
    let mut i: usize = 0;
    proof {
        assert(mv.skip(0) =~= mv);
    }
    while i < ms.len()
        invariant
            i <= ms@.len(),
            mv == members_view(ms@),
            sp_lookup(mv, k@) == sp_lookup(mv.skip(i as int), k@),
        decreases ms@.len() - i,
    {
        assert(mv.skip(i as int)[0] == mv[i as int]);
        if str_eq(ms[i].0.as_str(), k) {
            assert(mv[i as int].0 == k@);
            return Some(i);
        }
        proof {
            assert(mv[i as int].0 != k@);
            assert(mv.skip(i as int).drop_first() =~= mv.skip(i + 1));
        }
        i = i + 1;
    }
    proof {
        assert(mv.skip(ms@.len() as int) =~= Seq::<(Seq<char>, JsonValueV)>::empty());
    }
    None
}

fn get_req_str(ms: &Vec<(String, JsonValue)>, k: &str) -> (r: Option<String>)
    ensures
        match sp_req_str(members_view(ms@), k@) {
            Some(s) => r matches Some(x) && x@ == s,
            None => r is None,
        },
{
    match find_key(ms, k) {
        Some(idx) => match &ms[idx].1 {
            JsonValue::Str(s) => Some(s.clone()),
            _ => None,
        },
        None => None,
    }
}

fn get_req_u64(ms: &Vec<(String, JsonValue)>, k: &str) -> (r: Option<u64>)
    ensures
        r == sp_req_u64(members_view(ms@), k@),
{
    match find_key(ms, k) {
        Some(idx) => match &ms[idx].1 {
            JsonValue::Num { int_part, fractional, .. } => if !*fractional {
                Some(*int_part)
            } else {
                None
            },
            _ => None,
        },
        None => None,
    }
}

fn get_req_u32(ms: &Vec<(String, JsonValue)>, k: &str) -> (r: Option<u32>)
    ensures
        r == sp_req_u32(members_view(ms@), k@),
{
    match get_req_u64(ms, k) {
        Some(n) => if n <= u32::MAX as u64 {
            Some(n as u32)
        } else {
            None
        },
        None => None,
    }
}

fn get_req_bool(ms: &Vec<(String, JsonValue)>, k: &str) -> (r: Option<bool>)
    ensures
        r == sp_req_bool(members_view(ms@), k@),
{
    match find_key(ms, k) {
        Some(idx) => match &ms[idx].1 {
            JsonValue::Bool(b) => Some(*b),
            _ => None,
        },
        None => None,
    }
}

fn get_opt_str(ms: &Vec<(String, JsonValue)>, k: &str) -> (r: Option<Option<String>>)
    ensures
        match sp_opt_str(members_view(ms@), k@) {
            Some(Some(s)) => r matches Some(x) && (x matches Some(y) && y@ == s),
            Some(None) => r == Some(None::<String>),
            None => r is None,
        },
{
    match find_key(ms, k) {
        Some(idx) => match &ms[idx].1 {
            JsonValue::Null => Some(None),
            JsonValue::Str(s) => Some(Some(s.clone())),
            _ => None,
        },
        None => Some(None),
    }
}

fn get_opt_dur(ms: &Vec<(String, JsonValue)>, k: &str) -> (r: Option<Option<u64>>)
    ensures
        r == sp_opt_dur(members_view(ms@), k@),
{
    match find_key(ms, k) {
        Some(idx) => match &ms[idx].1 {
            JsonValue::Null => Some(None),
            JsonValue::Num { int_part, frac3, .. } => {
                let f = *frac3 as u64;
                if *int_part <= (u64::MAX - f) / 1000 {
                    proof {
                        let m = (u64::MAX - f) as int;
                        assert((m / 1000) * 1000 <= m);
                        assert((*int_part) * 1000 <= (m / 1000) * 1000) by (nonlinear_arith)
                            requires
                                0 <= *int_part <= m / 1000,
                        ;
                    }
                    Some(Some(*int_part * 1000 + f))
                } else {
                    None
                }
            },
            _ => None,
        },
        None => Some(None),
    }
}

/// Reads a whole document as a lyrics record, if it has the record's shape.
pub fn parse_lyrics_data(v: &[u8]) -> (r: Option<LyricsData>)
    ensures
        match sp_lyrics_doc(v@) {
            Some(d) => r matches Some(x) && x@ == d,
            None => r is None,
        },
{
    let ms = match parse_doc(v) {
        Some(ms) => ms,
        None => {
            return None;
        },
    };
    let id = match get_req_u64(&ms, "id") {
        Some(x) => x,
        None => {
            return None;
        },
    };
    let name = match get_req_str(&ms, "name") {
        Some(x) => x,
        None => {
            return None;
        },
    };
    let track_name = match get_req_str(&ms, "trackName") {
        Some(x) => x,
        None => {
            return None;
        },
    };
    let artist_name = match get_req_str(&ms, "artistName") {
        Some(x) => x,
        None => {
            return None;
        },
    };
    let instrumental = match get_req_bool(&ms, "instrumental") {
        Some(x) => x,
        None => {
            return None;
        },
    };
    let album_name = match get_opt_str(&ms, "albumName") {
        Some(x) => x,
        None => {
            return None;
        },
    };
    let duration = match get_opt_dur(&ms, "duration") {
        Some(x) => x,
        None => {
            return None;
        },
    };
    let plain_lyrics = match get_opt_str(&ms, "plainLyrics") {
        Some(x) => x,
        None => {
            return None;
        },
    };
    let synced_lyrics = match get_opt_str(&ms, "syncedLyrics") {
        Some(x) => x,
        None => {
            return None;
        },
    };
    Some(
        LyricsData {
            id,
            name,
            track_name,
            artist_name,
            instrumental,
            album_name,
            duration,
            plain_lyrics,
            synced_lyrics,
        },
    )
}

/// Reads a whole document as an error envelope, if it has that shape.
pub fn parse_error_response(v: &[u8]) -> (r: Option<ErrorResponse>)
    ensures
        match sp_error_doc(v@) {
            Some(e) => r matches Some(x) && x@ == e,
            None => r is None,
        },
{
    let ms = match parse_doc(v) {
        Some(ms) => ms,
        None => {
            return None;
        },
    };
    let status_code = match get_req_u32(&ms, "statusCode") {
        Some(x) => x,
        None => {
            return None;
        },
    };
    let name = match get_req_str(&ms, "name") {
        Some(x) => x,
        None => {
            return None;
        },
    };
    let message = match get_req_str(&ms, "message") {
        Some(x) => x,
        None => {
            return None;
        },
    };
    Some(ErrorResponse { status_code, name, message })
}

/// Reads a whole document as a publish challenge, if it has that shape.
pub fn parse_publish_challenge(v: &[u8]) -> (r: Option<PublishChallenge>)
    ensures
        match sp_challenge_doc(v@) {
            Some(c) => r matches Some(x) && x@ == c,
            None => r is None,
        },
{
    let ms = match parse_doc(v) {
        Some(ms) => ms,
        None => {
            return None;
        },
    };
    let prefix = match get_req_str(&ms, "prefix") {
        Some(x) => x,
        None => {
            return None;
        },
    };
    let target = match get_req_str(&ms, "target") {
        Some(x) => x,
        None => {
            return None;
        },
    };
    Some(PublishChallenge { prefix, target })
}

/// Untagged decoding of a lookup response: the success shape is attempted
/// first, and a document that does not read as a lyrics record is read as
/// an error envelope.
pub fn parse_get_lyrics_response(v: &[u8]) -> (r: Option<GetLyricsResponse>)
    ensures
        match sp_get_response(v@) {
            Some(g) => r matches Some(x) && x@ == g,
            None => r is None,
        },
{
    match parse_lyrics_data(v) {
        Some(d) => Some(GetLyricsResponse::Success(d)),
        None => match parse_error_response(v) {
            Some(e) => Some(GetLyricsResponse::Error(e)),
            None => None,
        },
    }
}

/// Untagged decoding of a publish response: `null` reads as a successful
/// publish, anything else must be an error envelope.
pub fn parse_publish_response(v: &[u8]) -> (r: Option<PublishResponse>)
    ensures
        match sp_publish_response(v@) {
            Some(p) => r matches Some(x) && x@ == p,
            None => r is None,
        },
{
    let n = v.len();
    proof {
        assert(v@.skip(0) =~= v@);
    }
    let j = p_ws(v, 0);
    let ghost t = sp_ws(v@);
    if n - j >= 4 {
        assert(t[0] == v@[j as int] && t[1] == v@[j + 1] && t[2] == v@[j + 2] && t[3] == v@[j
            + 3]);
        if v[j] == 110 && v[j + 1] == 117 && v[j + 2] == 108 && v[j + 3] == 108 {
            proof {
                assert(t.skip(4) =~= v@.skip(j + 4));
            }
            let j2 = p_ws(v, j + 4);
            if j2 == n {
                assert(sp_ws(t.skip(4)).len() == 0);
                return Some(PublishResponse::Created);
            }
            assert(sp_ws(t.skip(4)).len() > 0);
        }
    }
    match parse_error_response(v) {
        Some(e) => Some(PublishResponse::Error(e)),
        None => None,
    }
}

} // verus!

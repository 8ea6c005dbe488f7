//! The wire form of the data model: a JSON encoder for the publish payload.
//!
//! Strings are escaped byte-wise over their UTF-8 form as JSON requires;
//! durations held in milliseconds appear as a decimal number of seconds with
//! up to three fractional digits and no trailing zeros.
use vstd::prelude::*;
use vstd::utf8::encode_utf8;

use crate::types::LyricsPublishData;
use crate::types::LyricsPublishDataV;

verus! {

/// The escaping of one byte inside a JSON string: quote and backslash get a
/// backslash escape, the control characters with short escapes use them, the
/// other control characters become `\u00..` with lowercase hex, and every
/// other byte stands as itself.
pub open spec fn esc_byte(b: u8) -> Seq<u8> {
    if b == 34 {
        seq![92u8, 34u8]
    } else if b == 92 {
        seq![92u8, 92u8]
    } else if b == 8 {
        seq![92u8, 98u8]
    } else if b == 9 {
        seq![92u8, 116u8]
    } else if b == 10 {
        seq![92u8, 110u8]
    } else if b == 12 {
        seq![92u8, 102u8]
    } else if b == 13 {
        seq![92u8, 114u8]
    } else if b < 32 {
        seq![92u8, 117u8, 48u8, 48u8, hex_byte_lower((b / 16) as nat), hex_byte_lower(
            (b % 16) as nat,
        )]
    } else {
        seq![b]
    }
}

/// The lowercase hex digit byte for `d`.
pub open spec fn hex_byte_lower(d: nat) -> u8
    recommends
        d < 16,
{
    if d < 10 {
        (48 + d) as u8
    } else {
        (87 + d) as u8
    }
}

/// The escaping of a byte sequence.
pub open spec fn esc_bytes(bs: Seq<u8>) -> Seq<u8>
    decreases bs.len(),
{
    if bs.len() == 0 {
        Seq::empty()
    } else {
        esc_byte(bs[0]) + esc_bytes(bs.drop_first())
    }
}

/// The JSON string carrying `s`: its UTF-8 bytes escaped, between quotes.
pub open spec fn json_str(s: Seq<char>) -> Seq<u8> {
    seq![34u8] + esc_bytes(encode_utf8(s)) + seq![34u8]
}

/// The decimal digit bytes of `n`, most significant first.
pub open spec fn dec_bytes(n: nat) -> Seq<u8>
    decreases n,
{
    if n < 10 {
        seq![(48 + n) as u8]
    } else {
        dec_bytes(n / 10).push((48 + n % 10) as u8)
    }
}

/// The fractional digits for `r` thousandths: three digits zero-padded on
/// the left, with trailing zeros dropped.
pub open spec fn frac_bytes(r: nat) -> Seq<u8>
    recommends
        0 < r < 1000,
{
    if r % 10 == 0 {
        if (r / 10) % 10 == 0 {
            seq![(48 + r / 100) as u8]
        } else {
            seq![(48 + r / 100) as u8, (48 + (r / 10) % 10) as u8]
        }
    } else {
        seq![(48 + r / 100) as u8, (48 + (r / 10) % 10) as u8, (48 + r % 10) as u8]
    }
}

/// A duration of `ms` milliseconds as a JSON number of seconds.
pub open spec fn dur_bytes(ms: nat) -> Seq<u8> {
    if ms % 1000 == 0 {
        dec_bytes(ms / 1000)
    } else {
        dec_bytes(ms / 1000) + seq![46u8] + frac_bytes(ms % 1000)
    }
}

/// A JSON boolean.
pub open spec fn bool_bytes(b: bool) -> Seq<u8> {
    if b {
        encode_utf8("true"@)
    } else {
        encode_utf8("false"@)
    }
}

/// The JSON document of a publish payload: an object with the nine fields
/// in their wire names, in a fixed order.
pub open spec fn publish_json(p: LyricsPublishDataV) -> Seq<u8> {
    seq![123u8] + json_str("id"@) + seq![58u8] + dec_bytes(p.id as nat) + seq![44u8] + json_str(
        "name"@,
    ) + seq![58u8] + json_str(p.name) + seq![44u8] + json_str("trackName"@) + seq![58u8] + json_str(
        p.track_name,
    ) + seq![44u8] + json_str("artistName"@) + seq![58u8] + json_str(p.artist_name) + seq![44u8]
        + json_str("instrumental"@) + seq![58u8] + bool_bytes(p.instrumental) + seq![44u8]
        + json_str("albumName"@) + seq![58u8] + json_str(p.album_name) + seq![44u8] + json_str(
        "duration"@,
    ) + seq![58u8] + dur_bytes(p.duration as nat) + seq![44u8] + json_str("plainLyrics"@)
        + seq![58u8] + json_str(p.plain_lyrics) + seq![44u8] + json_str("syncedLyrics"@)
        + seq![58u8] + json_str(p.synced_lyrics) + seq![125u8]
}

fn hex_lower(d: u8) -> (r: u8)
    requires
        d < 16,
    ensures
        r == hex_byte_lower(d as nat),
{
    if d < 10 {
        48 + d
    } else {
        87 + d
    }
}

/// Appends the UTF-8 bytes of `s`.
fn push_bytes(out: &mut Vec<u8>, s: &str)
    ensures
        final(out)@ == old(out)@ + encode_utf8(s@),
{
    let bytes = s.as_bytes();
    let mut i: usize = 0;
    while i < bytes.len()
        invariant
            i <= bytes.len(),
            bytes@ == encode_utf8(s@),
            out@ == old(out)@ + bytes@.take(i as int),
        decreases bytes.len() - i,
    {
        out.push(bytes[i]);
        assert(out@ =~= old(out)@ + bytes@.take(i + 1));
        i = i + 1;
    }
    assert(old(out)@ + bytes@.take(bytes@.len() as int) =~= old(out)@ + encode_utf8(s@));
}

/// Appends the JSON string carrying `s`.
fn push_json_str(out: &mut Vec<u8>, s: &str)
    ensures
        final(out)@ == old(out)@ + json_str(s@),
{
    let bytes = s.as_bytes();
    out.push(34);
    let mut i: usize = 0;
    proof {
        assert(bytes@.skip(0) =~= bytes@);
    }
    while i < bytes.len()
        invariant
            i <= bytes.len(),
            bytes@ == encode_utf8(s@),
            out@ + esc_bytes(bytes@.skip(i as int)) == old(out)@ + seq![34u8] + esc_bytes(bytes@),
        decreases bytes.len() - i,
    {
        let b = bytes[i];
        proof {
            assert(bytes@.skip(i as int)[0] == b);
            assert(bytes@.skip(i as int).drop_first() =~= bytes@.skip(i + 1));
            assert(esc_bytes(bytes@.skip(i as int)) == esc_byte(b) + esc_bytes(
                bytes@.skip(i + 1),
            ));
        }
        if b == 34 {
            out.push(92);
            out.push(34);
        } else if b == 92 {
            out.push(92);
            out.push(92);
        } else if b == 8 {
            out.push(92);
            out.push(98);
        } else if b == 9 {
            out.push(92);
            out.push(116);
        } else if b == 10 {
            out.push(92);
            out.push(110);
        } else if b == 12 {
            out.push(92);
            out.push(102);
        } else if b == 13 {
            out.push(92);
            out.push(114);
        } else if b < 32 {
            out.push(92);
            out.push(117);
            out.push(48);
            out.push(48);
            out.push(hex_lower(b / 16));
            out.push(hex_lower(b % 16));
        } else {
            out.push(b);
        }
        assert((out@ + esc_bytes(bytes@.skip(i + 1))) =~= old(out)@ + seq![34u8] + esc_bytes(
            bytes@,
        ));
        i = i + 1;
    }
    proof {
        assert(bytes@.skip(bytes@.len() as int) =~= Seq::<u8>::empty());
        assert(out@ =~= old(out)@ + seq![34u8] + esc_bytes(bytes@));
    }
    out.push(34);
    assert(final(out)@ =~= old(out)@ + json_str(s@));
}

/// Appends the decimal digits of `n`.
fn push_dec(out: &mut Vec<u8>, n: u64)
    ensures
        final(out)@ == old(out)@ + dec_bytes(n as nat),
    decreases n,
{
    if n < 10 {
        out.push(48 + (n as u8));
        assert(final(out)@ =~= old(out)@ + dec_bytes(n as nat));
    } else {
        push_dec(out, n / 10);
        out.push(48 + ((n % 10) as u8));
        assert(final(out)@ =~= old(out)@ + dec_bytes(n as nat));
    }
}

/// Appends a duration of `ms` milliseconds as a decimal number of seconds.
fn push_dur(out: &mut Vec<u8>, ms: u64)
    ensures
        final(out)@ == old(out)@ + dur_bytes(ms as nat),
{
    let q = ms / 1000;
    let r = ms % 1000;
    push_dec(out, q);
    if r > 0 {
        out.push(46);
        let d1 = (r / 100) as u8;
        let d2 = ((r / 10) % 10) as u8;
        let d3 = (r % 10) as u8;
        if d3 == 0 {
            if d2 == 0 {
                out.push(48 + d1);
            } else {
                out.push(48 + d1);
                out.push(48 + d2);
            }
        } else {
            out.push(48 + d1);
            out.push(48 + d2);
            out.push(48 + d3);
        }
    }
    assert(final(out)@ =~= old(out)@ + dur_bytes(ms as nat));
}

/// Encodes a publish payload as its JSON document.
#[verifier::rlimit(60)]
pub fn publish_payload_json(p: &LyricsPublishData) -> (r: Vec<u8>)
    ensures
        r@ == publish_json(p@),
{
    let mut out: Vec<u8> = Vec::new();
    out.push(123);
    push_json_str(&mut out, "id");
    out.push(58);
    push_dec(&mut out, p.id);
    out.push(44);
    push_json_str(&mut out, "name");
    out.push(58);
    push_json_str(&mut out, p.name.as_str());
    out.push(44);
    push_json_str(&mut out, "trackName");
    out.push(58);
    push_json_str(&mut out, p.track_name.as_str());
    out.push(44);
    push_json_str(&mut out, "artistName");
    out.push(58);
    push_json_str(&mut out, p.artist_name.as_str());
    out.push(44);
    push_json_str(&mut out, "instrumental");
    out.push(58);
    if p.instrumental {
        push_bytes(&mut out, "true");
    } else {
        push_bytes(&mut out, "false");
    }
    out.push(44);
    push_json_str(&mut out, "albumName");
    out.push(58);
    push_json_str(&mut out, p.album_name.as_str());
    out.push(44);
    push_json_str(&mut out, "duration");
    out.push(58);
    push_dur(&mut out, p.duration);
    out.push(44);
    push_json_str(&mut out, "plainLyrics");
    out.push(58);
    push_json_str(&mut out, p.plain_lyrics.as_str());
    out.push(44);
    push_json_str(&mut out, "syncedLyrics");
    out.push(58);
    push_json_str(&mut out, p.synced_lyrics.as_str());
    out.push(125);
    assert(out@ =~= publish_json(p@));
    out
}

} // verus!

//! Round trip between the encoder and the decoder: the JSON document of a
//! publish payload always reads back as the lyrics record carrying exactly
//! the payload's field values.
use vstd::prelude::*;
use vstd::utf8::encode_utf8;
use vstd::utf8::encode_utf8_decode_utf8;
use vstd::utf8::encode_utf8_valid_utf8;

use crate::json::bool_bytes;
use crate::json::dec_bytes;
use crate::json::dur_bytes;
use crate::json::esc_byte;
use crate::json::esc_bytes;
use crate::json::frac_bytes;
use crate::json::hex_byte_lower;
use crate::json::json_str;
use crate::json::publish_json;
use crate::parse::digits_val;
use crate::parse::is_digit;
use crate::parse::sp_doc;
use crate::parse::sp_lookup;
use crate::parse::sp_lyrics_doc;
use crate::parse::sp_member;
use crate::parse::sp_members;
use crate::parse::sp_number;
use crate::parse::sp_object;
use crate::parse::sp_opt_dur;
use crate::parse::sp_opt_str;
use crate::parse::sp_req_bool;
use crate::parse::sp_req_str;
use crate::parse::sp_req_u64;
use crate::parse::sp_str_body;
use crate::parse::sp_string;
use crate::parse::sp_value;
use crate::parse::sp_ws;
use crate::parse::take_digits;
use crate::parse::JsonValueV;
use crate::types::LyricsDataV;
use crate::types::LyricsPublishDataV;

verus! {

proof fn lemma_str_body_of_esc(bs: Seq<u8>, rest: Seq<u8>)
    ensures
        sp_str_body(esc_bytes(bs) + seq![34u8] + rest) == Some((bs, rest)),
    decreases bs.len(),
{
    let s = esc_bytes(bs) + seq![34u8] + rest;
    if bs.len() == 0 {
        assert(s[0] == 34);
        assert(s.drop_first() =~= rest);
        assert(sp_str_body(s).unwrap().0 =~= bs);
    } else {
        let b = bs[0];
        let tail = bs.drop_first();
        lemma_str_body_of_esc(tail, rest);
        let s2 = esc_bytes(tail) + seq![34u8] + rest;
        assert(esc_bytes(bs) == esc_byte(b) + esc_bytes(tail));
        if b == 34 || b == 92 {
            assert(s[0] == 92 && s[1] == b);
            assert(s.skip(2) =~= s2);
            assert(sp_str_body(s).unwrap().0 =~= bs);
        } else if b == 8 {
            assert(s[0] == 92 && s[1] == 98);
            assert(s.skip(2) =~= s2);
            assert(sp_str_body(s).unwrap().0 =~= bs);
        } else if b == 9 {
            assert(s[0] == 92 && s[1] == 116);
            assert(s.skip(2) =~= s2);
            assert(sp_str_body(s).unwrap().0 =~= bs);
        } else if b == 10 {
            assert(s[0] == 92 && s[1] == 110);
            assert(s.skip(2) =~= s2);
            assert(sp_str_body(s).unwrap().0 =~= bs);
        } else if b == 12 {
            assert(s[0] == 92 && s[1] == 102);
            assert(s.skip(2) =~= s2);
            assert(sp_str_body(s).unwrap().0 =~= bs);
        } else if b == 13 {
            assert(s[0] == 92 && s[1] == 114);
            assert(s.skip(2) =~= s2);
            assert(sp_str_body(s).unwrap().0 =~= bs);
        } else if b < 32 {
            assert(s[0] == 92 && s[1] == 117 && s[2] == 48 && s[3] == 48);
            assert(s[4] == hex_byte_lower((b / 16) as nat) && s[5] == hex_byte_lower(
                (b % 16) as nat,
            ));
            assert(s.skip(6) =~= s2);
            assert(sp_str_body(s).unwrap().0 =~= bs);
        } else {
            assert(s[0] == b);
            assert(b != 34 && b != 92 && b >= 32);
            assert(s.drop_first() =~= s2);
            assert(sp_str_body(s).unwrap().0 =~= bs);
        }
    }
}

proof fn lemma_value_of_json_str(t: Seq<char>, rest: Seq<u8>)
    ensures
        sp_value(json_str(t) + rest) == Some((JsonValueV::Str(t), rest)),
{
    let s = json_str(t) + rest;
    assert(s[0] == 34);
    assert(s.drop_first() =~= esc_bytes(encode_utf8(t)) + seq![34u8] + rest);
    lemma_str_body_of_esc(encode_utf8(t), rest);
    encode_utf8_valid_utf8(t);
    encode_utf8_decode_utf8(t);
}

proof fn lemma_dec_bytes_digits(n: nat)
    ensures
        dec_bytes(n).len() >= 1,
        forall|k: int| 0 <= k < dec_bytes(n).len() ==> is_digit(#[trigger] dec_bytes(n)[k]),
    decreases n,
{
    if n >= 10 {
        lemma_dec_bytes_digits(n / 10);
    }
}

proof fn lemma_take_digits_of_digits(ds: Seq<u8>, rest: Seq<u8>)
    requires
        forall|k: int| 0 <= k < ds.len() ==> is_digit(#[trigger] ds[k]),
        rest.len() == 0 || !is_digit(rest[0]),
    ensures
        take_digits(ds + rest) == (ds, rest),
    decreases ds.len(),
{
    let s = ds + rest;
    if ds.len() == 0 {
        assert(s =~= rest);
        assert(take_digits(s).0 =~= ds);
    } else {
        assert(s[0] == ds[0]);
        assert(s.drop_first() =~= ds.drop_first() + rest);
        lemma_take_digits_of_digits(ds.drop_first(), rest);
        assert(take_digits(s).0 =~= ds);
    }
}

proof fn lemma_dv1(a: u8)
    requires
        48 <= a <= 57,
    ensures
        digits_val(seq![a]) == a - 48,
{
    assert(seq![a].drop_last() =~= Seq::<u8>::empty());
    assert(digits_val(seq![a].drop_last()) == 0);
}

proof fn lemma_dv2(a: u8, b: u8)
    requires
        48 <= a <= 57,
        48 <= b <= 57,
    ensures
        digits_val(seq![a, b]) == (a - 48) * 10 + (b - 48),
{
    assert(seq![a, b].drop_last() =~= seq![a]);
    lemma_dv1(a);
}

proof fn lemma_dv3(a: u8, b: u8, c: u8)
    requires
        48 <= a <= 57,
        48 <= b <= 57,
        48 <= c <= 57,
    ensures
        digits_val(seq![a, b, c]) == ((a - 48) * 10 + (b - 48)) * 10 + (c - 48),
{
    assert(seq![a, b, c].drop_last() =~= seq![a, b]);
    lemma_dv2(a, b);
}

proof fn lemma_digits_val_of_dec(n: nat)
    ensures
        digits_val(dec_bytes(n)) == n,
    decreases n,
{
    if n < 10 {
        assert(dec_bytes(n) == seq![(48 + n) as u8]);
        lemma_dv1((48 + n) as u8);
    } else {
        lemma_digits_val_of_dec(n / 10);
        assert(dec_bytes(n).drop_last() =~= dec_bytes(n / 10));
        assert(dec_bytes(n).last() == (48 + n % 10) as u8);
        vstd::arithmetic::div_mod::lemma_fundamental_div_mod(n as int, 10);
    }
}

proof fn lemma_number_of_dec(n: u64, rest: Seq<u8>)
    requires
        rest.len() > 0,
        !is_digit(rest[0]),
        rest[0] != 46,
    ensures
        sp_number(dec_bytes(n as nat) + rest) == Some(((n, 0u16, false), rest)),
{
    lemma_dec_bytes_digits(n as nat);
    lemma_take_digits_of_digits(dec_bytes(n as nat), rest);
    lemma_digits_val_of_dec(n as nat);
}

proof fn lemma_frac_bytes_digits(r: nat)
    requires
        0 < r < 1000,
    ensures
        1 <= frac_bytes(r).len() <= 3,
        forall|k: int| 0 <= k < frac_bytes(r).len() ==> is_digit(#[trigger] frac_bytes(r)[k]),
        is_digit(frac_bytes(r)[0]),
{
}

proof fn lemma_digits_val_of_frac(r: nat)
    requires
        0 < r < 1000,
    ensures
        frac_bytes(r).len() == 1 ==> digits_val(frac_bytes(r)) * 100 == r,
        frac_bytes(r).len() == 2 ==> digits_val(frac_bytes(r)) * 10 == r,
        frac_bytes(r).len() == 3 ==> digits_val(frac_bytes(r)) == r,
{
    let d1 = r / 100;
    let d2 = (r / 10) % 10;
    let d3 = r % 10;
    assert(r == d1 * 100 + d2 * 10 + d3) by (nonlinear_arith)
        requires
            0 < r < 1000,
            d1 == r / 100,
            d2 == (r / 10) % 10,
            d3 == r % 10,
    ;
    if d3 == 0 {
        if d2 == 0 {
            let fs = frac_bytes(r);
            assert(fs == seq![(48 + d1) as u8]);
            lemma_dv1((48 + d1) as u8);
            assert(digits_val(fs) == d1);
        } else {
            let fs = frac_bytes(r);
            assert(fs == seq![(48 + d1) as u8, (48 + d2) as u8]);
            lemma_dv2((48 + d1) as u8, (48 + d2) as u8);
            assert(digits_val(fs) == d1 * 10 + d2);
        }
    } else {
        let fs = frac_bytes(r);
        assert(fs == seq![(48 + d1) as u8, (48 + d2) as u8, (48 + d3) as u8]);
        lemma_dv3((48 + d1) as u8, (48 + d2) as u8, (48 + d3) as u8);
        assert(digits_val(fs) == (d1 * 10 + d2) * 10 + d3);
    }
}

proof fn lemma_number_of_dur(ms: u64, rest: Seq<u8>)
    requires
        rest.len() > 0,
        !is_digit(rest[0]),
        rest[0] != 46,
    ensures
        sp_number(dur_bytes(ms as nat) + rest) == Some(
            ((ms / 1000, (ms % 1000) as u16, ms % 1000 != 0), rest),
        ),
{
    let q = (ms / 1000) as nat;
    let r = (ms % 1000) as nat;
    lemma_dec_bytes_digits(q);
    lemma_digits_val_of_dec(q);
    if r == 0 {
        assert(dur_bytes(ms as nat) =~= dec_bytes(q));
        lemma_take_digits_of_digits(dec_bytes(q), rest);
    } else {
        lemma_frac_bytes_digits(r);
        lemma_digits_val_of_frac(r);
        let mid = seq![46u8] + frac_bytes(r) + rest;
        assert(dur_bytes(ms as nat) + rest =~= dec_bytes(q) + mid);
        assert(mid[0] == 46 && !is_digit(mid[0]));
        lemma_take_digits_of_digits(dec_bytes(q), mid);
        let s = dec_bytes(q) + mid;
        assert(take_digits(s) == (dec_bytes(q), mid));
        assert(mid[1] == frac_bytes(r)[0]);
        assert(is_digit(mid[1]));
        assert(mid.drop_first() =~= frac_bytes(r) + rest);
        lemma_take_digits_of_digits(frac_bytes(r), rest);
        let fs = take_digits(mid.drop_first()).0;
        assert(fs == frac_bytes(r));
        assert(crate::parse::pad3(fs) == r);
    }
}

proof fn lemma_keyword_bytes()
    ensures
        encode_utf8("true"@) =~= seq![116u8, 114u8, 117u8, 101u8],
        encode_utf8("false"@) =~= seq![102u8, 97u8, 108u8, 115u8, 101u8],
{
    reveal_strlit("true");
    reveal_strlit("false");
    assert(vstd::utf8::is_ascii_chars("true"@)) by {
        assert forall|i: int| 0 <= i < "true"@.len() implies ("true"@[i] as nat) < 128 by {
            if i == 0 {
                assert("true"@[0] == 't');
            } else if i == 1 {
                assert("true"@[1] == 'r');
            } else if i == 2 {
                assert("true"@[2] == 'u');
            } else {
                assert("true"@[3] == 'e');
            }
        }
    }
    assert(vstd::utf8::is_ascii_chars("false"@)) by {
        assert forall|i: int| 0 <= i < "false"@.len() implies ("false"@[i] as nat) < 128 by {
            if i == 0 {
                assert("false"@[0] == 'f');
            } else if i == 1 {
                assert("false"@[1] == 'a');
            } else if i == 2 {
                assert("false"@[2] == 'l');
            } else if i == 3 {
                assert("false"@[3] == 's');
            } else {
                assert("false"@[4] == 'e');
            }
        }
    }
    vstd::utf8::is_ascii_chars_encode_utf8("true"@);
    vstd::utf8::is_ascii_chars_encode_utf8("false"@);
}

proof fn lemma_value_of_bool(b: bool, rest: Seq<u8>)
    ensures
        sp_value(bool_bytes(b) + rest) == Some((JsonValueV::Bool(b), rest)),
{
    lemma_keyword_bytes();
    let s = bool_bytes(b) + rest;
    if b {
        assert(s[0] == 116 && s[1] == 114 && s[2] == 117 && s[3] == 101);
        assert(s.skip(4) =~= rest);
    } else {
        assert(s[0] == 102 && s[1] == 97 && s[2] == 108 && s[3] == 115 && s[4] == 101);
        assert(s.skip(5) =~= rest);
    }
}

proof fn lemma_value_of_number(nb: Seq<u8>, x: (u64, u16, bool), rest: Seq<u8>)
    requires
        sp_number(nb + rest) == Some((x, rest)),
        nb.len() > 0,
        is_digit(nb[0]),
    ensures
        sp_value(nb + rest) == Some(
            (JsonValueV::Num { int_part: x.0, frac3: x.1, fractional: x.2 }, rest),
        ),
{
    let s = nb + rest;
    assert(s[0] == nb[0]);
    assert(s[0] != 34 && s[0] != 116 && s[0] != 102 && s[0] != 110);
}

proof fn lemma_member_of(k: Seq<char>, vb: Seq<u8>, jv: JsonValueV, rest: Seq<u8>)
    requires
        sp_value(vb + rest) == Some((jv, rest)),
        vb.len() > 0,
        !crate::parse::is_ws(vb[0]),
    ensures
        sp_member(json_str(k) + seq![58u8] + vb + rest) == Some(((k, jv), rest)),
{
    let s = json_str(k) + seq![58u8] + vb + rest;
    assert(s[0] == 34);
    assert(s.drop_first() =~= esc_bytes(encode_utf8(k)) + seq![34u8] + (seq![58u8] + vb + rest));
    lemma_str_body_of_esc(encode_utf8(k), seq![58u8] + vb + rest);
    encode_utf8_valid_utf8(k);
    encode_utf8_decode_utf8(k);
    let after = seq![58u8] + vb + rest;
    assert(sp_string(s) == Some((encode_utf8(k), after)));
    assert(!crate::parse::is_ws(after[0]));
    assert(sp_ws(after) == after);
    assert(after[0] == 58);
    assert(after.drop_first() =~= vb + rest);
    assert((vb + rest)[0] == vb[0]);
    assert(sp_ws(vb + rest) == vb + rest);
}

/// The member list the publish document denotes.
pub open spec fn publish_members(p: LyricsPublishDataV) -> Seq<(Seq<char>, JsonValueV)> {
    seq![
        ("id"@, JsonValueV::Num { int_part: p.id, frac3: 0u16, fractional: false }),
        ("name"@, JsonValueV::Str(p.name)),
        ("trackName"@, JsonValueV::Str(p.track_name)),
        ("artistName"@, JsonValueV::Str(p.artist_name)),
        ("instrumental"@, JsonValueV::Bool(p.instrumental)),
        ("albumName"@, JsonValueV::Str(p.album_name)),
        (
            "duration"@,
            JsonValueV::Num {
                int_part: p.duration / 1000,
                frac3: (p.duration % 1000) as u16,
                fractional: p.duration % 1000 != 0,
            },
        ),
        ("plainLyrics"@, JsonValueV::Str(p.plain_lyrics)),
        ("syncedLyrics"@, JsonValueV::Str(p.synced_lyrics)),
    ]
}

spec fn mb_id(p: LyricsPublishDataV) -> Seq<u8> {
    json_str("id"@) + seq![58u8] + dec_bytes(p.id as nat)
}

spec fn mb_name(p: LyricsPublishDataV) -> Seq<u8> {
    json_str("name"@) + seq![58u8] + json_str(p.name)
}

spec fn mb_track(p: LyricsPublishDataV) -> Seq<u8> {
    json_str("trackName"@) + seq![58u8] + json_str(p.track_name)
}

spec fn mb_artist(p: LyricsPublishDataV) -> Seq<u8> {
    json_str("artistName"@) + seq![58u8] + json_str(p.artist_name)
}

spec fn mb_instr(p: LyricsPublishDataV) -> Seq<u8> {
    json_str("instrumental"@) + seq![58u8] + bool_bytes(p.instrumental)
}

spec fn mb_album(p: LyricsPublishDataV) -> Seq<u8> {
    json_str("albumName"@) + seq![58u8] + json_str(p.album_name)
}

spec fn mb_dur(p: LyricsPublishDataV) -> Seq<u8> {
    json_str("duration"@) + seq![58u8] + dur_bytes(p.duration as nat)
}

spec fn mb_plain(p: LyricsPublishDataV) -> Seq<u8> {
    json_str("plainLyrics"@) + seq![58u8] + json_str(p.plain_lyrics)
}

spec fn mb_synced(p: LyricsPublishDataV) -> Seq<u8> {
    json_str("syncedLyrics"@) + seq![58u8] + json_str(p.synced_lyrics)
}

spec fn sfx9(p: LyricsPublishDataV) -> Seq<u8> {
    seq![125u8]
}

spec fn sfx8(p: LyricsPublishDataV) -> Seq<u8> {
    seq![44u8] + mb_synced(p) + sfx9(p)
}

spec fn sfx7(p: LyricsPublishDataV) -> Seq<u8> {
    seq![44u8] + mb_plain(p) + sfx8(p)
}

spec fn sfx6(p: LyricsPublishDataV) -> Seq<u8> {
    seq![44u8] + mb_dur(p) + sfx7(p)
}

spec fn sfx5(p: LyricsPublishDataV) -> Seq<u8> {
    seq![44u8] + mb_album(p) + sfx6(p)
}

spec fn sfx4(p: LyricsPublishDataV) -> Seq<u8> {
    seq![44u8] + mb_instr(p) + sfx5(p)
}

spec fn sfx3(p: LyricsPublishDataV) -> Seq<u8> {
    seq![44u8] + mb_artist(p) + sfx4(p)
}

spec fn sfx2(p: LyricsPublishDataV) -> Seq<u8> {
    seq![44u8] + mb_track(p) + sfx3(p)
}

spec fn sfx1(p: LyricsPublishDataV) -> Seq<u8> {
    seq![44u8] + mb_name(p) + sfx2(p)
}

proof fn lemma_members_step(
    mb: Seq<u8>,
    k: Seq<char>,
    vb: Seq<u8>,
    jv: JsonValueV,
    sfx: Seq<u8>,
    nextm: Seq<u8>,
    nextsfx: Seq<u8>,
    ms: Seq<(Seq<char>, JsonValueV)>,
)
    requires
        mb == json_str(k) + seq![58u8] + vb,
        sfx == seq![44u8] + nextm + nextsfx,
        sp_value(vb + sfx) == Some((jv, sfx)),
        vb.len() > 0,
        !crate::parse::is_ws(vb[0]),
        nextm.len() > 0,
        nextm[0] == 34,
        sp_members(nextm + nextsfx) == Some((ms, Seq::<u8>::empty())),
    ensures
        sp_members(mb + sfx) == Some((seq![(k, jv)] + ms, Seq::<u8>::empty())),
{
    assert(mb + sfx =~= json_str(k) + seq![58u8] + vb + sfx);
    lemma_member_of(k, vb, jv, sfx);
    assert(sp_member(mb + sfx) == Some(((k, jv), sfx)));
    assert(sfx[0] == 44);
    assert(!crate::parse::is_ws(sfx[0]));
    assert(sp_ws(sfx) == sfx);
    assert(sfx.drop_first() =~= nextm + nextsfx);
    assert((nextm + nextsfx)[0] == 34);
    assert(!crate::parse::is_ws((nextm + nextsfx)[0]));
    assert(sp_ws(nextm + nextsfx) == nextm + nextsfx);
}

proof fn lemma_members_last(mb: Seq<u8>, k: Seq<char>, vb: Seq<u8>, jv: JsonValueV)
    requires
        mb == json_str(k) + seq![58u8] + vb,
        sp_value(vb + seq![125u8]) == Some((jv, seq![125u8])),
        vb.len() > 0,
        !crate::parse::is_ws(vb[0]),
    ensures
        sp_members(mb + seq![125u8]) == Some((seq![(k, jv)], Seq::<u8>::empty())),
{
    assert(mb + seq![125u8] =~= json_str(k) + seq![58u8] + vb + seq![125u8]);
    lemma_member_of(k, vb, jv, seq![125u8]);
    assert(sp_member(mb + seq![125u8]) == Some(((k, jv), seq![125u8])));
    assert(!crate::parse::is_ws(125u8));
    assert(sp_ws(seq![125u8]) == seq![125u8]);
    assert(seq![125u8].drop_first() =~= Seq::<u8>::empty());
}

proof fn lemma_chain_7to9(p: LyricsPublishDataV)
    ensures
        sp_members(mb_dur(p) + sfx7(p)) == Some(
            (publish_members(p).skip(6), Seq::<u8>::empty()),
        ),
{
    let pm = publish_members(p);
    lemma_value_of_json_str(p.synced_lyrics, seq![125u8]);
    lemma_members_last(mb_synced(p), "syncedLyrics"@, json_str(p.synced_lyrics), pm[8].1);

    lemma_value_of_json_str(p.plain_lyrics, sfx8(p));
    lemma_members_step(
        mb_plain(p),
        "plainLyrics"@,
        json_str(p.plain_lyrics),
        pm[7].1,
        sfx8(p),
        mb_synced(p),
        sfx9(p),
        seq![pm[8]],
    );

    lemma_number_of_dur(p.duration, sfx7(p));
    assert(dur_bytes(p.duration as nat).len() > 0 && is_digit(dur_bytes(p.duration as nat)[0]))
        by {
        lemma_dec_bytes_digits((p.duration / 1000) as nat);
        assert(dur_bytes(p.duration as nat)[0] == dec_bytes((p.duration / 1000) as nat)[0]);
    }
    lemma_value_of_number(
        dur_bytes(p.duration as nat),
        (p.duration / 1000, (p.duration % 1000) as u16, p.duration % 1000 != 0),
        sfx7(p),
    );
    lemma_members_step(
        mb_dur(p),
        "duration"@,
        dur_bytes(p.duration as nat),
        pm[6].1,
        sfx7(p),
        mb_plain(p),
        sfx8(p),
        seq![pm[7]] + seq![pm[8]],
    );
    assert(seq![pm[6]] + (seq![pm[7]] + seq![pm[8]]) =~= pm.skip(6));
}

#[verifier::rlimit(100)]
#[verifier::spinoff_prover]
proof fn lemma_chain_4to9(p: LyricsPublishDataV)
    ensures
        sp_members(mb_instr(p) + sfx5(p)) == Some(
            (publish_members(p).skip(4), Seq::<u8>::empty()),
        ),
{
    let pm = publish_members(p);
    lemma_chain_7to9(p);

    lemma_value_of_json_str(p.album_name, sfx6(p));
    lemma_members_step(
        mb_album(p),
        "albumName"@,
        json_str(p.album_name),
        pm[5].1,
        sfx6(p),
        mb_dur(p),
        sfx7(p),
        pm.skip(6),
    );

    lemma_value_of_bool(p.instrumental, sfx5(p));
    assert(bool_bytes(p.instrumental).len() > 0 && !crate::parse::is_ws(
        bool_bytes(p.instrumental)[0],
    )) by {
        lemma_keyword_bytes();
    }
    lemma_members_step(
        mb_instr(p),
        "instrumental"@,
        bool_bytes(p.instrumental),
        pm[4].1,
        sfx5(p),
        mb_album(p),
        sfx6(p),
        seq![pm[5]] + pm.skip(6),
    );
    assert(seq![pm[4]] + (seq![pm[5]] + pm.skip(6)) =~= pm.skip(4));
}

#[verifier::rlimit(100)]
#[verifier::spinoff_prover]
proof fn lemma_chain_1to9(p: LyricsPublishDataV)
    ensures
        sp_members(mb_id(p) + sfx1(p)) == Some((publish_members(p), Seq::<u8>::empty())),
{
    let pm = publish_members(p);
    lemma_chain_4to9(p);

    lemma_value_of_json_str(p.artist_name, sfx4(p));
    lemma_members_step(
        mb_artist(p),
        "artistName"@,
        json_str(p.artist_name),
        pm[3].1,
        sfx4(p),
        mb_instr(p),
        sfx5(p),
        pm.skip(4),
    );

    lemma_value_of_json_str(p.track_name, sfx3(p));
    lemma_members_step(
        mb_track(p),
        "trackName"@,
        json_str(p.track_name),
        pm[2].1,
        sfx3(p),
        mb_artist(p),
        sfx4(p),
        seq![pm[3]] + pm.skip(4),
    );

    lemma_value_of_json_str(p.name, sfx2(p));
    lemma_members_step(
        mb_name(p),
        "name"@,
        json_str(p.name),
        pm[1].1,
        sfx2(p),
        mb_track(p),
        sfx3(p),
        seq![pm[2]] + (seq![pm[3]] + pm.skip(4)),
    );

    lemma_number_of_dec(p.id, sfx1(p));
    assert(dec_bytes(p.id as nat).len() > 0 && is_digit(dec_bytes(p.id as nat)[0])) by {
        lemma_dec_bytes_digits(p.id as nat);
    }
    lemma_value_of_number(dec_bytes(p.id as nat), (p.id, 0u16, false), sfx1(p));
    lemma_members_step(
        mb_id(p),
        "id"@,
        dec_bytes(p.id as nat),
        pm[0].1,
        sfx1(p),
        mb_name(p),
        sfx2(p),
        seq![pm[1]] + (seq![pm[2]] + (seq![pm[3]] + pm.skip(4))),
    );
    assert(seq![pm[0]] + (seq![pm[1]] + (seq![pm[2]] + (seq![pm[3]] + pm.skip(4)))) =~= pm);
}

proof fn lemma_fold_tail(l: Seq<u8>, x: Seq<u8>, t: Seq<u8>)
    ensures
        l + (x + t) == l + x + t,
{
    vstd::seq_lib::lemma_concat_associative(l, x, t);
}

proof fn lemma_fold_member(l: Seq<u8>, k: Seq<char>, vb: Seq<u8>)
    ensures
        l + (json_str(k) + seq![58u8] + vb) == l + json_str(k) + seq![58u8] + vb,
{
    vstd::seq_lib::lemma_concat_associative(l, json_str(k) + seq![58u8], vb);
    vstd::seq_lib::lemma_concat_associative(l, json_str(k), seq![58u8]);
}

proof fn lemma_publish_regroup(p: LyricsPublishDataV)
    ensures
        publish_json(p) == seq![123u8] + (mb_id(p) + sfx1(p)),
{
    let q = seq![123u8];
    let c = seq![44u8];

    lemma_fold_tail(q, mb_id(p), sfx1(p));
    lemma_fold_member(q, "id"@, dec_bytes(p.id as nat));
    let l1 = q + json_str("id"@) + seq![58u8] + dec_bytes(p.id as nat);
    assert(q + (mb_id(p) + sfx1(p)) == l1 + sfx1(p));

    lemma_fold_tail(l1, c + mb_name(p), sfx2(p));
    lemma_fold_tail(l1, c, mb_name(p));
    lemma_fold_member(l1 + c, "name"@, json_str(p.name));
    let l2 = l1 + c + json_str("name"@) + seq![58u8] + json_str(p.name);
    assert(l1 + sfx1(p) == l2 + sfx2(p));

    lemma_fold_tail(l2, c + mb_track(p), sfx3(p));
    lemma_fold_tail(l2, c, mb_track(p));
    lemma_fold_member(l2 + c, "trackName"@, json_str(p.track_name));
    let l3 = l2 + c + json_str("trackName"@) + seq![58u8] + json_str(p.track_name);
    assert(l2 + sfx2(p) == l3 + sfx3(p));

    lemma_fold_tail(l3, c + mb_artist(p), sfx4(p));
    lemma_fold_tail(l3, c, mb_artist(p));
    lemma_fold_member(l3 + c, "artistName"@, json_str(p.artist_name));
    let l4 = l3 + c + json_str("artistName"@) + seq![58u8] + json_str(p.artist_name);
    assert(l3 + sfx3(p) == l4 + sfx4(p));

    lemma_fold_tail(l4, c + mb_instr(p), sfx5(p));
    lemma_fold_tail(l4, c, mb_instr(p));
    lemma_fold_member(l4 + c, "instrumental"@, bool_bytes(p.instrumental));
    let l5 = l4 + c + json_str("instrumental"@) + seq![58u8] + bool_bytes(p.instrumental);
    assert(l4 + sfx4(p) == l5 + sfx5(p));

    lemma_fold_tail(l5, c + mb_album(p), sfx6(p));
    lemma_fold_tail(l5, c, mb_album(p));
    lemma_fold_member(l5 + c, "albumName"@, json_str(p.album_name));
    let l6 = l5 + c + json_str("albumName"@) + seq![58u8] + json_str(p.album_name);
    assert(l5 + sfx5(p) == l6 + sfx6(p));

    lemma_fold_tail(l6, c + mb_dur(p), sfx7(p));
    lemma_fold_tail(l6, c, mb_dur(p));
    lemma_fold_member(l6 + c, "duration"@, dur_bytes(p.duration as nat));
    let l7 = l6 + c + json_str("duration"@) + seq![58u8] + dur_bytes(p.duration as nat);
    assert(l6 + sfx6(p) == l7 + sfx7(p));

    lemma_fold_tail(l7, c + mb_plain(p), sfx8(p));
    lemma_fold_tail(l7, c, mb_plain(p));
    lemma_fold_member(l7 + c, "plainLyrics"@, json_str(p.plain_lyrics));
    let l8 = l7 + c + json_str("plainLyrics"@) + seq![58u8] + json_str(p.plain_lyrics);
    assert(l7 + sfx7(p) == l8 + sfx8(p));

    lemma_fold_tail(l8, c + mb_synced(p), sfx9(p));
    lemma_fold_tail(l8, c, mb_synced(p));
    lemma_fold_member(l8 + c, "syncedLyrics"@, json_str(p.synced_lyrics));
    let l9 = l8 + c + json_str("syncedLyrics"@) + seq![58u8] + json_str(p.synced_lyrics);
    assert(l8 + sfx8(p) == l9 + sfx9(p));

    assert(publish_json(p) == l9 + seq![125u8]);
}

#[verifier::rlimit(100)]
#[verifier::spinoff_prover]
proof fn lemma_publish_doc(p: LyricsPublishDataV)
    ensures
        sp_doc(publish_json(p)) == Some(publish_members(p)),
{
    let pm = publish_members(p);
    lemma_chain_1to9(p);
    let d = publish_json(p);
    lemma_publish_regroup(p);
    assert(d == seq![123u8] + (mb_id(p) + sfx1(p)));
    assert(d[0] == 123);
    assert(!crate::parse::is_ws(d[0]));
    assert(sp_ws(d) == d);
    assert(d.drop_first() =~= mb_id(p) + sfx1(p));
    assert((mb_id(p) + sfx1(p))[0] == 34);
    assert(!crate::parse::is_ws((mb_id(p) + sfx1(p))[0]));
    assert(sp_ws(mb_id(p) + sfx1(p)) == mb_id(p) + sfx1(p));
    assert(sp_object(sp_ws(d)) == Some((pm, Seq::<u8>::empty())));
    assert(sp_ws(Seq::<u8>::empty()).len() == 0);
}

/// Round trip: the JSON document of a publish payload reads back as the
/// lyrics record with exactly the payload's field values, every mandatory
/// payload field landing in the corresponding optional record field.
#[verifier::rlimit(100)]
#[verifier::spinoff_prover]
pub proof fn lemma_publish_roundtrip(p: LyricsPublishDataV)
    ensures
        sp_lyrics_doc(publish_json(p)) == Some(
            LyricsDataV {
                id: p.id,
                name: p.name,
                track_name: p.track_name,
                artist_name: p.artist_name,
                instrumental: p.instrumental,
                album_name: Some(p.album_name),
                duration: Some(p.duration),
                plain_lyrics: Some(p.plain_lyrics),
                synced_lyrics: Some(p.synced_lyrics),
            },
        ),
{
    lemma_publish_doc(p);
    let pm = publish_members(p);
    reveal_strlit("id");
    reveal_strlit("name");
    reveal_strlit("trackName");
    reveal_strlit("artistName");
    reveal_strlit("instrumental");
    reveal_strlit("albumName");
    reveal_strlit("duration");
    reveal_strlit("plainLyrics");
    reveal_strlit("syncedLyrics");
    reveal_with_fuel(crate::parse::sp_lookup, 10);
    assert("id"@.len() == 2 && "name"@.len() == 4 && "trackName"@.len() == 9 && "artistName"@.len()
        == 10 && "instrumental"@.len() == 12 && "albumName"@.len() == 9 && "duration"@.len() == 8
        && "plainLyrics"@.len() == 11 && "syncedLyrics"@.len() == 12);
    assert("trackName"@[0] == 't' && "albumName"@[0] == 'a');
    assert("instrumental"@[0] == 'i' && "syncedLyrics"@[0] == 's');
    assert(sp_req_u64(pm, "id"@) == Some(p.id));
    assert(sp_req_str(pm, "name"@) == Some(p.name));
    assert(sp_req_str(pm, "trackName"@) == Some(p.track_name));
    assert(sp_req_str(pm, "artistName"@) == Some(p.artist_name));
    assert(sp_req_bool(pm, "instrumental"@) == Some(p.instrumental));
    assert(sp_opt_str(pm, "albumName"@) == Some(Some(p.album_name)));
    let q = p.duration / 1000;
    let r = (p.duration % 1000) as u16;
    assert(q <= (u64::MAX - r) / 1000) by {
        assert(q * 1000 + r <= u64::MAX) by (nonlinear_arith)
            requires
                q == p.duration / 1000,
                r == (p.duration % 1000) as u16,
                p.duration <= u64::MAX,
        ;
        assert(q <= (u64::MAX - r) / 1000) by (nonlinear_arith)
            requires
                q * 1000 <= u64::MAX - r,
        ;
    }
    assert(q * 1000 + r == p.duration) by (nonlinear_arith)
        requires
            q == p.duration / 1000,
            r == (p.duration % 1000) as u16,
    ;
    assert(sp_opt_dur(pm, "duration"@) == Some(Some(p.duration)));
    assert(sp_opt_str(pm, "plainLyrics"@) == Some(Some(p.plain_lyrics)));
    assert(sp_opt_str(pm, "syncedLyrics"@) == Some(Some(p.synced_lyrics)));
}

} // verus!

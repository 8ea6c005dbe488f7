//! Percent-encoding of query values.
//!
//! A value is encoded byte by byte over its UTF-8 form: unreserved bytes
//! (letters, digits, `-`, `.`, `_`, `~`) stand as themselves, every other
//! byte becomes `%` followed by two uppercase hex digits. Decoding inverts
//! this exactly, so a value survives the trip into a query string unchanged.
use vstd::prelude::*;
use vstd::utf8::*;

use crate::strutil::bytes_to_string;
use crate::strutil::push_char;

verus! {

/// Bytes that stand for themselves in a query value: ASCII letters and
/// digits, `-`, `.`, `_` and `~`.
pub open spec fn is_unreserved(b: u8) -> bool {
    (65 <= b && b <= 90) || (97 <= b && b <= 122) || (48 <= b && b <= 57) || b == 45 || b == 46
        || b == 95 || b == 126
}

/// The character carrying the ASCII byte `b`.
pub open spec fn ascii_char(b: u8) -> char {
    b as char
}

/// The uppercase hex digit character for `d`.
pub open spec fn hex_digit(d: nat) -> char
    recommends
        d < 16,
{
    if d < 10 {
        ((48 + d) as u8) as char
    } else {
        ((55 + d) as u8) as char
    }
}

/// The encoding of the single byte `b`.
pub open spec fn pe_byte(b: u8) -> Seq<char> {
    if is_unreserved(b) {
        seq![ascii_char(b)]
    } else {
        seq!['%', hex_digit((b / 16) as nat), hex_digit((b % 16) as nat)]
    }
}

/// The encoding of a byte sequence.
pub open spec fn pe_bytes(bs: Seq<u8>) -> Seq<char>
    decreases bs.len(),
{
    if bs.len() == 0 {
        Seq::empty()
    } else {
        pe_byte(bs[0]) + pe_bytes(bs.drop_first())
    }
}

/// The percent-encoded form of a string: its UTF-8 bytes, encoded.
pub open spec fn percent_encoded(s: Seq<char>) -> Seq<char> {
    pe_bytes(encode_utf8(s))
}

/// Whether `c` is an ASCII character that stands for itself in a query
/// value.
pub open spec fn is_unreserved_char(c: char) -> bool {
    (c as u32) < 128 && is_unreserved((c as u32) as u8)
}

/// Whether `c` is a hex digit, of either case.
pub open spec fn is_hex_char(c: char) -> bool {
    (48 <= (c as u32) && (c as u32) <= 57) || (65 <= (c as u32) && (c as u32) <= 70) || (97 <= (c as u32)
        && (c as u32) <= 102)
}

/// The value of the hex digit `c`.
pub open spec fn hex_val(c: char) -> nat
    recommends
        is_hex_char(c),
{
    if 48 <= (c as u32) && (c as u32) <= 57 {
        ((c as u32) - 48) as nat
    } else if 65 <= (c as u32) && (c as u32) <= 70 {
        ((c as u32) - 55) as nat
    } else {
        ((c as u32) - 87) as nat
    }
}

/// The bytes a percent-encoded text stands for, or `None` where the text is
/// not a well-formed encoding of query-safe characters.
pub open spec fn pd_chars(t: Seq<char>) -> Option<Seq<u8>>
    decreases t.len(),
{
    if t.len() == 0 {
        Some(Seq::empty())
    } else if t[0] == '%' {
        if t.len() >= 3 && is_hex_char(t[1]) && is_hex_char(t[2]) {
            match pd_chars(t.skip(3)) {
                Some(r) => Some(seq![((hex_val(t[1]) * 16 + hex_val(t[2])) as u8)] + r),
                None => None,
            }
        } else {
            None
        }
    } else if is_unreserved_char(t[0]) {
        match pd_chars(t.drop_first()) {
            Some(r) => Some(seq![((t[0] as u32) as u8)] + r),
            None => None,
        }
    } else {
        None
    }
}

/// The string a percent-encoded text stands for: its bytes decoded, read
/// back as UTF-8.
pub open spec fn percent_decoded(t: Seq<char>) -> Option<Seq<char>> {
    match pd_chars(t) {
        Some(bs) => if valid_utf8(bs) {
            Some(decode_utf8(bs))
        } else {
            None
        },
        None => None,
    }
}

fn unreserved(b: u8) -> (r: bool)
    ensures
        r == is_unreserved(b),
{
    (65 <= b && b <= 90) || (97 <= b && b <= 122) || (48 <= b && b <= 57) || b == 45 || b == 46
        || b == 95 || b == 126
}

fn hex_digit_char(d: u8) -> (c: char)
    requires
        d < 16,
    ensures
        c == hex_digit(d as nat),
{
    if d < 10 {
        (48 + d) as char
    } else {
        (55 + d) as char
    }
}

/// Percent-encodes `s` for use as a query value.
pub fn percent_encode(s: &str) -> (r: String)
    ensures
        r@ == percent_encoded(s@),
{
    let bytes = s.as_bytes();
    let mut out = String::new();
    let mut i: usize = 0;
    proof {
        assert(bytes@.skip(0) =~= bytes@);
        assert(out@ + pe_bytes(bytes@) =~= pe_bytes(bytes@));
    }
    while i < bytes.len()
        invariant
            i <= bytes.len(),
            bytes@ == encode_utf8(s@),
            out@ + pe_bytes(bytes@.skip(i as int)) == pe_bytes(bytes@),
        decreases bytes.len() - i,
    {
        let b = bytes[i];
        proof {
            assert(bytes@.skip(i as int)[0] == b);
            assert(bytes@.skip(i as int).drop_first() =~= bytes@.skip(i + 1));
            assert(pe_bytes(bytes@.skip(i as int)) == pe_byte(b) + pe_bytes(bytes@.skip(i + 1)));
        }
        if unreserved(b) {
            push_char(&mut out, b as char);
        } else {
            push_char(&mut out, '%');
            push_char(&mut out, hex_digit_char(b / 16));
            push_char(&mut out, hex_digit_char(b % 16));
        }
        assert((out@ + pe_bytes(bytes@.skip(i + 1))) =~= pe_bytes(bytes@));
        i = i + 1;
    }
    proof {
        assert(bytes@.skip(bytes@.len() as int) =~= Seq::<u8>::empty());
        assert(out@ =~= pe_bytes(bytes@));
    }
    out
}

fn hex_char_val(c: char) -> (r: Option<u8>)
    ensures
        r matches Some(v) ==> is_hex_char(c) && v == hex_val(c),
        r is None ==> !is_hex_char(c),
{
    let u = c as u32;
    if 48 <= u && u <= 57 {
        Some((u - 48) as u8)
    } else if 65 <= u && u <= 70 {
        Some((u - 55) as u8)
    } else if 97 <= u && u <= 102 {
        Some((u - 87) as u8)
    } else {
        None
    }
}

fn pd_rec(s: &str, i: usize, n: usize) -> (r: Option<Vec<u8>>)
    requires
        n == s@.len(),
        i <= n,
    ensures
        match pd_chars(s@.skip(i as int)) {
            Some(bs) => r matches Some(v) && v@ == bs,
            None => r is None,
        },
    decreases n - i,
{
    if i == n {
        assert(s@.skip(i as int) =~= Seq::<char>::empty());
        Some(Vec::new())
    } else {
        let c = s.get_char(i);
        let ghost t = s@.skip(i as int);
        assert(t[0] == c);
        if c == '%' {
            if n - i >= 3 {
                let c1 = s.get_char(i + 1);
                let c2 = s.get_char(i + 2);
                assert(t[1] == c1 && t[2] == c2);
                match (hex_char_val(c1), hex_char_val(c2)) {
                    (Some(hi), Some(lo)) => {
                        assert(t.skip(3) =~= s@.skip(i + 3));
                        match pd_rec(s, i + 3, n) {
                            Some(mut v) => {
                                let b = hi * 16 + lo;
                                v.insert(0, b);
                                assert(v@ =~= pd_chars(t).unwrap());
                                Some(v)
                            },
                            None => None,
                        }
                    },
                    _ => None,
                }
            } else {
                None
            }
        } else {
            let u = c as u32;
            if u < 128 && unreserved(u as u8) {
                assert(t.drop_first() =~= s@.skip(i + 1));
                match pd_rec(s, i + 1, n) {
                    Some(mut v) => {
                        v.insert(0, u as u8);
                        assert(v@ =~= pd_chars(t).unwrap());
                        Some(v)
                    },
                    None => None,
                }
            } else {
                None
            }
        }
    }
}

/// Decodes a percent-encoded query value back to the string it stands for.
pub fn percent_decode(s: &str) -> (r: Option<String>)
    ensures
        match percent_decoded(s@) {
            Some(d) => r matches Some(x) && x@ == d,
            None => r is None,
        },
{
    let n = s.unicode_len();
    assert(s@.skip(0) =~= s@);
    match pd_rec(s, 0, n) {
        Some(v) => {
            let ghost bs = v@;
            match bytes_to_string(v) {
                Some(x) => {
                    proof {
                        encode_utf8_decode_utf8(x@);
                    }
                    Some(x)
                },
                None => None,
            }
        },
        None => None,
    }
}

/// Each character of an encoding is query-safe: unreserved or `%`. In
/// particular no `&`, `=` or `#` ever appears, so an encoded value cannot
/// disturb the query string around it.
pub proof fn lemma_pe_bytes_query_safe(bs: Seq<u8>)
    ensures
        forall|i: int|
            0 <= i < pe_bytes(bs).len() ==> is_unreserved_char(#[trigger] pe_bytes(bs)[i])
                || pe_bytes(bs)[i] == '%',
    decreases bs.len(),
{
    if bs.len() > 0 {
        lemma_pe_bytes_query_safe(bs.drop_first());
        let b = bs[0];
        assert forall|i: int| 0 <= i < pe_bytes(bs).len() implies is_unreserved_char(
            #[trigger] pe_bytes(bs)[i],
        ) || pe_bytes(bs)[i] == '%' by {
            if i < pe_byte(b).len() {
                assert(pe_bytes(bs)[i] == pe_byte(b)[i]);
                if is_unreserved(b) {
                    assert(ascii_char(b) as u32 == b);
                } else {
                    if i == 1 {
                        assert((hex_digit((b / 16) as nat) as u32) < 128);
                    }
                    if i == 2 {
                        assert((hex_digit((b % 16) as nat) as u32) < 128);
                    }
                }
            } else {
                assert(pe_bytes(bs)[i] == pe_bytes(bs.drop_first())[i - pe_byte(b).len()]);
            }
        }
    }
}

proof fn lemma_pd_pe(bs: Seq<u8>)
    ensures
        pd_chars(pe_bytes(bs)) == Some(bs),
    decreases bs.len(),
{
    if bs.len() == 0 {
    } else {
        let b = bs[0];
        let t = pe_bytes(bs);
        lemma_pd_pe(bs.drop_first());
        if is_unreserved(b) {
            assert(t[0] == ascii_char(b));
            assert(t[0] as u32 == b);
            assert(t.drop_first() =~= pe_bytes(bs.drop_first()));
            assert(pd_chars(t).unwrap() =~= bs);
        } else {
            assert(t[0] == '%');
            assert(t[1] == hex_digit((b / 16) as nat) && t[2] == hex_digit((b % 16) as nat));
            assert(is_hex_char(t[1]) && is_hex_char(t[2]));
            assert(hex_val(t[1]) == b / 16 && hex_val(t[2]) == b % 16);
            assert(t.skip(3) =~= pe_bytes(bs.drop_first()));
            assert(hex_val(t[1]) * 16 + hex_val(t[2]) == b);
            assert(pd_chars(t).unwrap() =~= bs);
        }
    }
}

/// Round trip: decoding the encoding of any string gives the string back.
pub proof fn lemma_percent_roundtrip(s: Seq<char>)
    ensures
        percent_decoded(percent_encoded(s)) == Some(s),
{
    lemma_pd_pe(encode_utf8(s));
    encode_utf8_valid_utf8(s);
    encode_utf8_decode_utf8(s);
}

} // verus!

//! Small string-building helpers: appending single characters and rendering
//! unsigned integers in decimal.
use vstd::prelude::*;

verus! {

/// The decimal digit character for `d`.
pub open spec fn dec_digit(d: nat) -> char
    recommends
        d < 10,
{
    ((48 + d) as u8) as char
}

/// The decimal rendering of `n`, most significant digit first.
pub open spec fn dec_str(n: nat) -> Seq<char>
    decreases n,
{
    if n < 10 {
        seq![dec_digit(n)]
    } else {
        dec_str(n / 10).push(dec_digit(n % 10))
    }
}

/// Relies on `String::from_utf8`: on UTF-8 input it returns the string
/// holding exactly those bytes, and on any other input it fails.
#[verifier::external_body]
pub(crate) fn bytes_to_string(v: Vec<u8>) -> (r: Option<String>)
    ensures
        r is Some <==> vstd::utf8::valid_utf8(v@),
        r matches Some(s) ==> vstd::utf8::encode_utf8(s@) == v@,
{
    String::from_utf8(v).ok()
}

/// Relies on `String::push`: appends the given character to the end of the
/// string.
#[verifier::external_body]
pub(crate) fn push_char(s: &mut String, c: char)
    ensures
        final(s)@ == old(s)@.push(c),
{
    s.push(c);
}

fn digit_char(d: u8) -> (c: char)
    requires
        d < 10,
    ensures
        c == dec_digit(d as nat),
{
    (48 + d) as char
}

/// Renders `n` in decimal.
pub fn u64_to_string(n: u64) -> (r: String)
    ensures
        r@ == dec_str(n as nat),
    decreases n,
{
    if n < 10 {
        let mut s = String::new();
        push_char(&mut s, digit_char(n as u8));
        assert(s@ =~= dec_str(n as nat));
        s
    } else {
        let mut s = u64_to_string(n / 10);
        push_char(&mut s, digit_char((n % 10) as u8));
        s
    }
}

} // verus!

//! Percent-encoding (URL encoding) and Base64, as the `urlencoding` and
//! `base64` crates compute them over the UTF-8 bytes of a text.

use vstd::prelude::*;
use vstd::utf8::{decode_utf8, encode_utf8, valid_utf8};
#[allow(unused_imports)]
use base64::Engine;

verus! {

/// Bytes that percent-encoding leaves as they are: ASCII letters, digits and `-._~`.
pub open spec fn is_unreserved(b: u8) -> bool {
    (48 <= b && b <= 57) || (65 <= b && b <= 90) || (97 <= b && b <= 122) || b == 45 || b == 46
        || b == 95 || b == 126
}

/// An upper-case hexadecimal digit.
pub open spec fn hex_digit_upper(d: int) -> char {
    if d < 10 {
        (d + 48) as char
    } else {
        (d + 55) as char
    }
}

/// Percent-encoding of bytes: unreserved bytes are kept, every other byte
/// becomes `%` and two upper-case hex digits.
pub open spec fn percent_encode_bytes(bs: Seq<u8>) -> Seq<char>
    decreases bs.len(),
{
    if bs.len() == 0 {
        Seq::empty()
    } else {
        let b = bs[0];
        let head = if is_unreserved(b) {
            seq![b as char]
        } else {
            seq!['%', hex_digit_upper((b as int) / 16), hex_digit_upper((b as int) % 16)]
        };
        head + percent_encode_bytes(bs.drop_first())
    }
}

/// Percent-encoding of a text's UTF-8 bytes.
pub open spec fn url_encode(s: Seq<char>) -> Seq<char> {
    percent_encode_bytes(encode_utf8(s))
}

/// The value of a hexadecimal digit byte, in either case.
pub open spec fn hex_value(b: u8) -> Option<int> {
    if 48 <= b && b <= 57 {
        Some(b - 48)
    } else if 65 <= b && b <= 70 {
        Some(b - 55)
    } else if 97 <= b && b <= 102 {
        Some(b - 87)
    } else {
        None
    }
}

/// Percent-decoding of bytes: `%` followed by two hex digits becomes that
/// byte; everything else, a lone `%` included, is kept. `+` is kept as well.
pub open spec fn percent_decode_bytes(bs: Seq<u8>) -> Seq<u8>
    decreases bs.len(),
{
    if bs.len() == 0 {
        Seq::empty()
    } else if bs[0] == 37 && bs.len() >= 3 && hex_value(bs[1]) is Some && hex_value(bs[2]) is Some {
        seq![(hex_value(bs[1])->0 * 16 + hex_value(bs[2])->0) as u8] + percent_decode_bytes(bs.skip(3))
    } else {
        seq![bs[0]] + percent_decode_bytes(bs.drop_first())
    }
}

/// Percent-decoding of a text: `None` when the decoded bytes are not UTF-8.
pub open spec fn url_decode(s: Seq<char>) -> Option<Seq<char>> {
    let d = percent_decode_bytes(encode_utf8(s));
    if valid_utf8(d) {
        Some(decode_utf8(d))
    } else {
        None
    }
}

/// `urlencoding::encode`: every UTF-8 byte except ASCII alphanumerics and
/// `-._~` is written as `%XX` with upper-case hex digits.
#[verifier::external_body]
pub fn url_encode_str(s: &str) -> (r: String)
    ensures
        r@ == url_encode(s@),
{
    urlencoding::encode(s).into_owned()
}

/// `urlencoding::decode`: `%XX` sequences are decoded, other bytes kept; the
/// call fails when the result is not UTF-8.
#[verifier::external_body]
pub fn url_decode_str(s: &str) -> (r: Option<String>)
    ensures
        match r {
            Some(t) => url_decode(s@) == Some(t@),
            None => url_decode(s@) is None,
        },
{
    match urlencoding::decode(s) {
        Ok(c) => Some(c.into_owned()),
        Err(_) => None,
    }
}

/// A character of the standard Base64 alphabet.
pub open spec fn base64_char(v: int) -> char {
    if v < 26 {
        (v + 65) as char
    } else if v < 52 {
        (v + 71) as char
    } else if v < 62 {
        (v - 4) as char
    } else if v == 62 {
        '+'
    } else {
        '/'
    }
}

/// Standard Base64 with `=` padding: each group of three bytes becomes four
/// characters; a final group of one or two bytes is padded.
pub open spec fn base64_encode_bytes(bs: Seq<u8>) -> Seq<char>
    decreases bs.len(),
{
    if bs.len() == 0 {
        Seq::empty()
    } else if bs.len() == 1 {
        seq![base64_char((bs[0] as int) / 4), base64_char(((bs[0] as int) % 4) * 16), '=', '=']
    } else if bs.len() == 2 {
        seq![
            base64_char((bs[0] as int) / 4),
            base64_char(((bs[0] as int) % 4) * 16 + (bs[1] as int) / 16),
            base64_char(((bs[1] as int) % 16) * 4),
            '=',
        ]
    } else {
        seq![
            base64_char((bs[0] as int) / 4),
            base64_char(((bs[0] as int) % 4) * 16 + (bs[1] as int) / 16),
            base64_char(((bs[1] as int) % 16) * 4 + (bs[2] as int) / 64),
            base64_char((bs[2] as int) % 64),
        ] + base64_encode_bytes(bs.skip(3))
    }
}

/// `base64::engine::general_purpose::STANDARD.encode` of a text's UTF-8 bytes:
/// standard alphabet, `=` padding.
#[verifier::external_body]
pub fn base64_encode_str(s: &str) -> (r: String)
    ensures
        r@ == base64_encode_bytes(encode_utf8(s@)),
{
    base64::engine::general_purpose::STANDARD.encode(s)
}

} // verus!

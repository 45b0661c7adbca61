//! Percent-encoding of URL query values, as the `urlencoding` crate does it.
//!
//! `encode` escapes every UTF-8 byte of the text except ASCII letters,
//! digits and `-._~` as `%XX` (upper-case hex); `decode` turns every `%`
//! followed by two hex digits back into its byte and then reads the bytes as
//! UTF-8.

use vstd::prelude::*;
use vstd::utf8::{decode_utf8, encode_utf8, is_ascii_chars, valid_utf8};
use crate::text::lacks;

verus! {

/// Bytes that encoding leaves as they are.
pub open spec fn is_unreserved(b: u8) -> bool {
    (48 <= b <= 57) || (65 <= b <= 90) || (97 <= b <= 122) || b == 45 || b == 46 || b == 95
        || b == 126
}

/// The upper-case hex digit byte of `d < 16`.
pub open spec fn hex_digit_byte(d: u8) -> u8 {
    if d < 10 {
        (48 + d) as u8
    } else {
        (55 + d) as u8
    }
}

/// The value of a hex digit byte of either case.
pub open spec fn hex_value(b: u8) -> Option<u8> {
    if 48 <= b <= 57 {
        Some((b - 48) as u8)
    } else if 65 <= b <= 70 {
        Some((b - 55) as u8)
    } else if 97 <= b <= 102 {
        Some((b - 87) as u8)
    } else {
        None
    }
}

/// The encoding of one byte.
pub open spec fn encode_byte(b: u8) -> Seq<u8> {
    if is_unreserved(b) {
        seq![b]
    } else {
        seq![37u8, hex_digit_byte(b / 16), hex_digit_byte(b % 16)]
    }
}

/// Percent-encoding of a byte string.
pub open spec fn pct_encode(bs: Seq<u8>) -> Seq<u8>
    decreases bs.len(),
{
    if bs.len() == 0 {
        Seq::empty()
    } else {
        encode_byte(bs[0]) + pct_encode(bs.drop_first())
    }
}

/// Percent-decoding of a byte string: `%` and two hex digits become one
/// byte; every other byte, a lone `%` included, stays.
pub open spec fn pct_decode(bs: Seq<u8>) -> Seq<u8>
    decreases bs.len(),
{
    if bs.len() == 0 {
        Seq::empty()
    } else if bs[0] == 37 && bs.len() >= 3 && hex_value(bs[1]) is Some && hex_value(
        bs[2],
    ) is Some {
        seq![(hex_value(bs[1]).unwrap() * 16 + hex_value(bs[2]).unwrap()) as u8] + pct_decode(
            bs.subrange(3, bs.len() as int),
        )
    } else {
        seq![bs[0]] + pct_decode(bs.drop_first())
    }
}

/// ASCII bytes read as characters.
pub open spec fn ascii_text(bs: Seq<u8>) -> Seq<char> {
    bs.map_values(|b: u8| b as char)
}

/// What `urlencoding::encode` returns for a text.
pub open spec fn url_encode_spec(s: Seq<char>) -> Seq<char> {
    ascii_text(pct_encode(encode_utf8(s)))
}

/// What `urlencoding::decode` returns for a text: `None` where the decoded
/// bytes are not UTF-8.
pub open spec fn url_decode_spec(s: Seq<char>) -> Option<Seq<char>> {
    let b = pct_decode(encode_utf8(s));
    if valid_utf8(b) {
        Some(decode_utf8(b))
    } else {
        None
    }
}

/// `urlencoding::encode`: every UTF-8 byte of `s` other than an ASCII
/// letter, digit or one of `-._~` becomes `%` and two upper-case hex digits.
#[verifier::external_body]
pub(crate) fn url_encode(s: &str) -> (r: String)
    ensures
        r@ == url_encode_spec(s@),
{
    urlencoding::encode(s).into_owned()
}

/// `urlencoding::decode`: percent-decodes the UTF-8 bytes of `s`; `None`
/// where the result is not UTF-8 (the crate's `FromUtf8Error`).
#[verifier::external_body]
pub(crate) fn url_decode(s: &str) -> (r: Option<String>)
    ensures
        match r {
            Some(t) => url_decode_spec(s@) == Some(t@),
            None => url_decode_spec(s@) is None,
        },
{
    match urlencoding::decode(s) {
        Ok(t) => Some(t.into_owned()),
        Err(_) => None,
    }
}

proof fn lemma_hex_round_trip(b: u8)
    ensures
        hex_value(hex_digit_byte(b / 16)) == Some(b / 16),
        hex_value(hex_digit_byte(b % 16)) == Some(b % 16),
        (b / 16) * 16 + b % 16 == b,
        hex_digit_byte(b / 16) != 37,
{
}

proof fn lemma_encode_byte_ascii(b: u8)
    ensures
        forall|i: int| 0 <= i < encode_byte(b).len() ==> #[trigger] encode_byte(b)[i] < 128,
{
}

/// Every byte of an encoding is ASCII.
pub proof fn lemma_pct_encode_ascii(bs: Seq<u8>)
    ensures
        forall|i: int| 0 <= i < pct_encode(bs).len() ==> #[trigger] pct_encode(bs)[i] < 128,
    decreases bs.len(),
{
    if bs.len() > 0 {
        lemma_pct_encode_ascii(bs.drop_first());
        lemma_encode_byte_ascii(bs[0]);
        let e = encode_byte(bs[0]);
        let t = pct_encode(bs.drop_first());
        assert forall|i: int| 0 <= i < pct_encode(bs).len() implies #[trigger] pct_encode(bs)[i]
            < 128 by {
            if i < e.len() {
                assert(pct_encode(bs)[i] == e[i]);
            } else {
                assert(pct_encode(bs)[i] == t[i - e.len()]);
            }
        }
    }
}

/// Decoding undoes encoding, byte for byte.
pub proof fn lemma_pct_decode_encode(bs: Seq<u8>)
    ensures
        pct_decode(pct_encode(bs)) == bs,
    decreases bs.len(),
{
    if bs.len() > 0 {
        let b = bs[0];
        let t = pct_encode(bs.drop_first());
        let e = pct_encode(bs);
        assert(e == encode_byte(b) + t);
        lemma_pct_decode_encode(bs.drop_first());
        if is_unreserved(b) {
            assert(e[0] == b);
            assert(e.drop_first() =~= t);
            assert(pct_decode(e) == seq![b] + pct_decode(t));
        } else {
            lemma_hex_round_trip(b);
            assert(e[0] == 37u8);
            assert(e[1] == hex_digit_byte(b / 16));
            assert(e[2] == hex_digit_byte(b % 16));
            assert(e.subrange(3, e.len() as int) =~= t);
            assert(pct_decode(e) == seq![b] + pct_decode(t));
        }
        assert(seq![b] + bs.drop_first() =~= bs);
    }
}

/// ASCII bytes read as characters encode back to the same bytes.
pub proof fn lemma_ascii_text_utf8(bs: Seq<u8>)
    requires
        forall|i: int| 0 <= i < bs.len() ==> #[trigger] bs[i] < 128,
    ensures
        encode_utf8(ascii_text(bs)) == bs,
        is_ascii_chars(ascii_text(bs)),
{
    let cs = ascii_text(bs);
    assert forall|i: int| 0 <= i < cs.len() implies '\0' <= #[trigger] cs[i] <= '\u{7f}' by {
        assert(cs[i] == bs[i] as char);
        assert(bs[i] < 128);
    }
    vstd::utf8::is_ascii_chars_encode_utf8(cs);
    assert forall|i: int| 0 <= i < bs.len() implies #[trigger] encode_utf8(cs)[i] == bs[i] by {
        assert(cs[i] == bs[i] as char);
        assert(cs[i] as u8 == encode_utf8(cs)[i]);
    }
    assert(encode_utf8(cs) =~= bs);
}

/// Decoding an encoded text gives the text back.
pub proof fn lemma_url_decode_encode(s: Seq<char>)
    ensures
        url_decode_spec(url_encode_spec(s)) == Some(s),
{
    let b = encode_utf8(s);
    lemma_pct_encode_ascii(b);
    lemma_ascii_text_utf8(pct_encode(b));
    lemma_pct_decode_encode(b);
    vstd::utf8::encode_utf8_valid_utf8(s);
    vstd::utf8::encode_utf8_decode_utf8(s);
}

/// Bytes without `%` decode to themselves.
proof fn lemma_pct_decode_plain(bs: Seq<u8>)
    requires
        forall|i: int| 0 <= i < bs.len() ==> #[trigger] bs[i] != 37,
    ensures
        pct_decode(bs) == bs,
    decreases bs.len(),
{
    if bs.len() > 0 {
        let t = bs.drop_first();
        assert forall|i: int| 0 <= i < t.len() implies #[trigger] t[i] != 37 by {
            assert(t[i] == bs[i + 1]);
        }
        lemma_pct_decode_plain(t);
        assert(seq![bs[0]] + t =~= bs);
    }
}

/// An ASCII text without `%` decodes to itself.
pub proof fn lemma_url_decode_plain(s: Seq<char>)
    requires
        is_ascii_chars(s),
        lacks(s, '%'),
    ensures
        url_decode_spec(s) == Some(s),
{
    let b = encode_utf8(s);
    vstd::utf8::is_ascii_chars_encode_utf8(s);
    assert forall|i: int| 0 <= i < b.len() implies #[trigger] b[i] != 37 by {
        assert(s[i] as u8 == b[i]);
        assert(s[i] != '%');
        assert(s[i] <= '\u{7f}');
    }
    lemma_pct_decode_plain(b);
    vstd::utf8::encode_utf8_valid_utf8(s);
    vstd::utf8::encode_utf8_decode_utf8(s);
}

/// Bytes that an encoding can hold: unreserved bytes, `%` and hex digits.
pub open spec fn is_encoded_byte(b: u8) -> bool {
    is_unreserved(b) || b == 37
}

proof fn lemma_pct_encode_bytes(bs: Seq<u8>)
    ensures
        forall|i: int| 0 <= i < pct_encode(bs).len() ==> is_encoded_byte(#[trigger] pct_encode(bs)[i]),
    decreases bs.len(),
{
    if bs.len() > 0 {
        lemma_pct_encode_bytes(bs.drop_first());
        let e = encode_byte(bs[0]);
        let t = pct_encode(bs.drop_first());
        assert forall|i: int| 0 <= i < e.len() implies is_encoded_byte(#[trigger] e[i]) by {}
        assert forall|i: int| 0 <= i < pct_encode(bs).len() implies is_encoded_byte(
            #[trigger] pct_encode(bs)[i],
        ) by {
            if i < e.len() {
                assert(pct_encode(bs)[i] == e[i]);
            } else {
                assert(pct_encode(bs)[i] == t[i - e.len()]);
            }
        }
    }
}

/// An encoded text holds neither `&` nor `=`.
pub proof fn lemma_url_encode_lacks(s: Seq<char>)
    ensures
        lacks(url_encode_spec(s), '&'),
        lacks(url_encode_spec(s), '='),
{
    let bs = pct_encode(encode_utf8(s));
    lemma_pct_encode_bytes(encode_utf8(s));
    let t = url_encode_spec(s);
    assert forall|i: int| 0 <= i < t.len() implies t[i] != '&' && t[i] != '=' by {
        assert(t[i] == bs[i] as char);
        assert(is_encoded_byte(bs[i]));
    }
}

} // verus!

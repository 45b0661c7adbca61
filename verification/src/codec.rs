//! Byte encodings: base64 (the `base64` crate's standard engine) and UTF-8
//! text from bytes (`String::from_utf8`).
//!
//! Standard base64 encoding is short enough to be stated in full; what
//! decoding accepts, and the text of its errors, is left to the crate and
//! named here.

use vstd::prelude::*;
use base64::Engine;
use vstd::utf8::{decode_utf8, valid_utf8};

verus! {

/// The symbol of a 6-bit value in the standard base64 alphabet.
pub open spec fn b64_symbol(n: int) -> char {
    if n < 26 {
        (65 + n) as char
    } else if n < 52 {
        (97 + n - 26) as char
    } else if n < 62 {
        (48 + n - 52) as char
    } else if n == 62 {
        '+'
    } else {
        '/'
    }
}

/// The four symbols that encode one to three bytes, padded with `=`.
pub open spec fn b64_group(b: Seq<u8>) -> Seq<char> {
    let b0 = b[0] as int;
    if b.len() == 1 {
        seq![b64_symbol(b0 / 4), b64_symbol((b0 % 4) * 16), '=', '=']
    } else if b.len() == 2 {
        let b1 = b[1] as int;
        seq![b64_symbol(b0 / 4), b64_symbol((b0 % 4) * 16 + b1 / 16), b64_symbol((b1 % 16) * 4), '=']
    } else {
        let b1 = b[1] as int;
        let b2 = b[2] as int;
        seq![
            b64_symbol(b0 / 4),
            b64_symbol((b0 % 4) * 16 + b1 / 16),
            b64_symbol((b1 % 16) * 4 + b2 / 64),
            b64_symbol(b2 % 64),
        ]
    }
}

/// Standard base64 with padding: each group of three bytes becomes four
/// symbols, a final group of one or two bytes is padded.
pub open spec fn b64_encode(b: Seq<u8>) -> Seq<char>
    decreases b.len(),
{
    if b.len() == 0 {
        Seq::empty()
    } else if b.len() <= 3 {
        b64_group(b)
    } else {
        b64_group(b.take(3)) + b64_encode(b.skip(3))
    }
}

/// Encodes bytes as standard base64 (`STANDARD.encode`): the encoding
/// stated by `b64_encode`.
#[verifier::external_body]
pub(crate) fn base64_encode(bytes: &[u8]) -> (r: String)
    ensures
        r@ == b64_encode(bytes@),
{
    base64::engine::general_purpose::STANDARD.encode(bytes)
}

/// What `STANDARD.decode` gives for a text: the bytes, or the text of the
/// error (an invalid symbol, length, last symbol or padding).
pub uninterp spec fn base64_decoded(text: Seq<char>) -> Result<Seq<u8>, Seq<char>>;

/// Decodes standard base64 (`STANDARD.decode`); the result, bytes or the
/// error's text, is the one named by `base64_decoded`.
#[verifier::external_body]
pub(crate) fn base64_decode(text: &str) -> (r: Result<Vec<u8>, String>)
    ensures
        match base64_decoded(text@) {
            Ok(b) => r matches Ok(v) && v@ == b,
            Err(e) => r matches Err(m) && m@ == e,
        },
{
    base64::engine::general_purpose::STANDARD.decode(text).map_err(|e| e.to_string())
}

/// The text of the error that `String::from_utf8` reports for bytes that
/// are not UTF-8 (where the invalid sequence starts).
pub uninterp spec fn utf8_error_text(bytes: Seq<u8>) -> Seq<char>;

/// `String::from_utf8`: the text when the bytes are valid UTF-8, else the
/// error's text.
#[verifier::external_body]
pub(crate) fn utf8_string(bytes: Vec<u8>) -> (r: Result<String, String>)
    ensures
        match r {
            Ok(s) => valid_utf8(bytes@) && s@ == decode_utf8(bytes@),
            Err(m) => !valid_utf8(bytes@) && m@ == utf8_error_text(bytes@),
        },
{
    String::from_utf8(bytes).map_err(|e| e.to_string())
}

} // verus!

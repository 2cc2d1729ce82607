//! Byte and text codecs used across the library: Base64 (`base64`),
//! percent-encoding (`urlencoding`) and UTF-8 decoding (std).

use base64::Engine;
use vstd::prelude::*;
use vstd::string::StringSliceAdditionalSpecFns;
use vstd::utf8::{decode_utf8, valid_utf8};

verus! {

/// What `base64::engine::general_purpose::STANDARD.encode` returns for these bytes.
pub uninterp spec fn base64_encode(bytes: Seq<u8>) -> Seq<char>;

/// What `base64::engine::general_purpose::STANDARD.decode` returns for this text:
/// the decoded bytes, or the display text of the error it reports.
pub uninterp spec fn base64_decode(text: Seq<char>) -> Result<Seq<u8>, Seq<char>>;

/// A successful decoding of `bytes`.
pub open spec fn ok_bytes(bytes: Seq<u8>) -> Result<Seq<u8>, Seq<char>> {
    Ok(bytes)
}

/// Standard Base64 encoding with padding (`STANDARD.encode`). Besides naming
/// the result, states that decoding the result gives back the bytes, as the
/// crate documents for its standard engine; the characters produced are not stated.
#[verifier::external_body]
pub(crate) fn b64_encode(bytes: &[u8]) -> (text: String)
    ensures
        text@ == base64_encode(bytes@),
        base64_decode(text@) == ok_bytes(bytes@),
{
    base64::engine::general_purpose::STANDARD.encode(bytes)
}

/// Standard Base64 decoding (`STANDARD.decode`), with the decode error turned
/// into its display text. Which inputs are rejected is not stated beyond the
/// name `base64_decode`.
#[verifier::external_body]
pub(crate) fn b64_decode(text: &str) -> (r: Result<Vec<u8>, String>)
    ensures
        match r {
            Ok(v) => base64_decode(text@) matches Ok(decoded) && decoded == v@,
            Err(m) => base64_decode(text@) matches Err(text) && text == m@,
        },
{
    base64::engine::general_purpose::STANDARD.decode(text).map_err(|e| e.to_string())
}

/// The upper-case hex digit of `d` (`0 <= d < 16`).
pub open spec fn upper_hex_digit(d: int) -> char {
    if d < 10 {
        (48 + d) as char
    } else {
        (55 + d) as char
    }
}

/// Bytes that percent-encoding leaves as they are: ASCII letters, digits and `- . _ ~`.
pub open spec fn is_unreserved(b: u8) -> bool {
    (48 <= b <= 57) || (65 <= b <= 90) || (97 <= b <= 122) || b == 45 || b == 46 || b == 95 || b
        == 126
}

/// Percent-encoding of a byte string: each unreserved byte as its character,
/// every other byte as `%` and two upper-case hex digits.
pub open spec fn percent_encode(bytes: Seq<u8>) -> Seq<char>
    decreases bytes.len(),
{
    if bytes.len() == 0 {
        Seq::empty()
    } else {
        let b = bytes.last();
        let tail = if is_unreserved(b) {
            seq![b as char]
        } else {
            seq!['%', upper_hex_digit(b as int / 16), upper_hex_digit(b as int % 16)]
        };
        percent_encode(bytes.drop_last()) + tail
    }
}

/// Percent-encodes the UTF-8 bytes of `s` (`urlencoding::encode`), as that
/// crate documents and implements it.
#[verifier::external_body]
pub(crate) fn url_encode(s: &str) -> (r: String)
    ensures
        r@ == percent_encode(s.spec_bytes()),
{
    urlencoding::encode(s).into_owned()
}

/// `String::from_utf8`: the string whose UTF-8 encoding is `bytes`, or the
/// display text of the error where `bytes` is not valid UTF-8.
#[verifier::external_body]
pub(crate) fn string_from_utf8(bytes: Vec<u8>) -> (r: Result<String, String>)
    ensures
        match r {
            Ok(s) => valid_utf8(bytes@) && s@ == decode_utf8(bytes@),
            Err(_) => !valid_utf8(bytes@),
        },
{
    String::from_utf8(bytes).map_err(|e| e.to_string())
}

} // verus!

//! Percent-encoding of text for use in URLs.
//!
//! The codec itself is the `urlencoding` crate's; this module states what
//! it does, byte by byte, and passes its results on.

use vstd::prelude::*;
use vstd::utf8::{decode_utf8, encode_utf8, valid_utf8};
use crate::radix::hex_digit_char;
use crate::text::{utf8_error_message, utf8_error_text, utf8_failure};

verus! {

/// The bytes that are written as they are: ASCII letters and digits, and
/// `-`, `.`, `_`, `~`.
pub open spec fn is_unreserved(b: u8) -> bool {
    ||| 0x30 <= b <= 0x39
    ||| 0x41 <= b <= 0x5a
    ||| 0x61 <= b <= 0x7a
    ||| b == 0x2d
    ||| b == 0x2e
    ||| b == 0x5f
    ||| b == 0x7e
}

/// What one byte is written as: itself where it is unreserved, otherwise a
/// percent sign and its two hexadecimal digits in upper case.
pub open spec fn percent_escape(b: u8) -> Seq<char> {
    if is_unreserved(b) {
        seq![b as char]
    } else {
        seq!['%', hex_digit_char((b / 16) as nat), hex_digit_char((b % 16) as nat)]
    }
}

/// The bytes percent-encoded.
pub open spec fn percent_encoded(bytes: Seq<u8>) -> Seq<char>
    decreases bytes.len(),
{
    if bytes.len() == 0 {
        Seq::empty()
    } else {
        percent_encoded(bytes.drop_last()) + percent_escape(bytes.last())
    }
}

/// The value of an ASCII hexadecimal digit, in either case.
pub open spec fn hex_value(b: u8) -> Option<u8> {
    if 0x30 <= b <= 0x39 {
        Some((b - 0x30) as u8)
    } else if 0x41 <= b <= 0x46 {
        Some((b - 0x41 + 10) as u8)
    } else if 0x61 <= b <= 0x66 {
        Some((b - 0x61 + 10) as u8)
    } else {
        None
    }
}

/// The bytes with every percent sign and two hexadecimal digits replaced
/// by the byte they name. A percent sign that is not followed by two
/// hexadecimal digits stays as it is, and so does what follows it.
pub open spec fn percent_decoded(bytes: Seq<u8>) -> Seq<u8>
    decreases bytes.len(),
{
    if bytes.len() == 0 {
        Seq::empty()
    } else if bytes[0] != 0x25 {
        seq![bytes[0]] + percent_decoded(bytes.skip(1))
    } else if bytes.len() < 3 {
        bytes
    } else {
        match (hex_value(bytes[1]), hex_value(bytes[2])) {
            (Some(high), Some(low)) => seq![(high * 16 + low) as u8] + percent_decoded(
                bytes.skip(3),
            ),
            (Some(_), None) => seq![0x25u8, bytes[1]] + percent_decoded(bytes.skip(2)),
            (None, _) => seq![0x25u8] + percent_decoded(bytes.skip(1)),
        }
    }
}

/// Percent-decoded text that is no valid UTF-8; with the description of
/// where it breaks.
#[derive(Clone, Debug, PartialEq, Eq)]
pub struct InvalidUtf8 {
    pub detail: String,
}

/// `urlencoding::encode`: every byte of the text's UTF-8 form that is not
/// unreserved becomes `%` and two upper-case hexadecimal digits.
#[verifier::external_body]
fn percent_encode(text: &str) -> (encoded: String)
    ensures
        encoded@ == percent_encoded(encode_utf8(text@)),
{
    urlencoding::encode(text).into_owned()
}

/// `urlencoding::decode`: replaces `%` and two hexadecimal digits by the
/// byte they name, leaves every other byte as it is, and reads the result
/// as UTF-8 with `String::from_utf8`, whose error it hands on.
#[verifier::external_body]
fn percent_decode(text: &str) -> (r: Result<String, std::string::FromUtf8Error>)
    ensures
        match r {
            Ok(decoded) => valid_utf8(percent_decoded(encode_utf8(text@))) && decoded@
                == decode_utf8(percent_decoded(encode_utf8(text@))),
            Err(e) => !valid_utf8(percent_decoded(encode_utf8(text@))) && utf8_error_message(e)
                == utf8_failure(percent_decoded(encode_utf8(text@))),
        },
{
    match urlencoding::decode(text) {
        Ok(decoded) => Ok(decoded.into_owned()),
        Err(e) => Err(e),
    }
}

/// Percent-encodes `text`.
pub fn encode_url(text: &str) -> (encoded: String)
    ensures
        encoded@ == percent_encoded(encode_utf8(text@)),
{
    percent_encode(text)
}

/// Percent-decodes `text`; fails where the decoded bytes are no UTF-8,
/// with the standard library's description of them. A plus sign stays a
/// plus sign.
pub fn decode_url(text: &str) -> (r: Result<String, InvalidUtf8>)
    ensures
        r is Ok <==> valid_utf8(percent_decoded(encode_utf8(text@))),
        r matches Ok(decoded) ==> decoded@ == decode_utf8(percent_decoded(encode_utf8(text@))),
        r matches Err(failure) ==> failure.detail@ == utf8_failure(
            percent_decoded(encode_utf8(text@)),
        ),
{
    match percent_decode(text) {
        Ok(decoded) => Ok(decoded),
        Err(e) => Err(InvalidUtf8 { detail: utf8_error_text(&e) }),
    }
}

} // verus!

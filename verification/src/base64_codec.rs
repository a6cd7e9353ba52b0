//! Base64 with the standard alphabet and padding, for text.
//!
//! The codec itself is the `base64` crate's standard engine; this module
//! states what it encodes to and which texts it accepts.

use vstd::prelude::*;
use vstd::utf8::{decode_utf8, encode_utf8, valid_utf8};
use crate::text::{utf8_error_text, utf8_failure};

verus! {

/// The character for a value of six bits in the standard alphabet.
pub open spec fn base64_symbol(v: nat) -> char
    recommends
        v < 64,
{
    if v < 26 {
        (65 + v) as char
    } else if v < 52 {
        (97 + v - 26) as char
    } else if v < 62 {
        (48 + v - 52) as char
    } else if v == 62 {
        '+'
    } else {
        '/'
    }
}

/// The bytes in Base64: four characters for every three bytes, and a last
/// group padded with `=` where one or two bytes are left over.
pub open spec fn base64_text(bytes: Seq<u8>) -> Seq<char>
    decreases bytes.len(),
{
    if bytes.len() == 0 {
        Seq::empty()
    } else if bytes.len() == 1 {
        seq![
            base64_symbol((bytes[0] / 4) as nat),
            base64_symbol(((bytes[0] % 4) * 16) as nat),
            '=',
            '=',
        ]
    } else if bytes.len() == 2 {
        seq![
            base64_symbol((bytes[0] / 4) as nat),
            base64_symbol(((bytes[0] % 4) * 16 + bytes[1] / 16) as nat),
            base64_symbol(((bytes[1] % 16) * 4) as nat),
            '=',
        ]
    } else {
        seq![
            base64_symbol((bytes[0] / 4) as nat),
            base64_symbol(((bytes[0] % 4) * 16 + bytes[1] / 16) as nat),
            base64_symbol(((bytes[1] % 16) * 4 + bytes[2] / 64) as nat),
            base64_symbol((bytes[2] % 64) as nat),
        ] + base64_text(bytes.skip(3))
    }
}

/// The length of the Base64 form of `len` bytes.
pub open spec fn base64_len(len: nat) -> nat {
    4 * ((len + 2) / 3)
}

/// What the Base64 engine reports for a text that it does not accept.
#[verifier::external_type_specification]
#[verifier::external_body]
pub struct ExDecodeError(base64::DecodeError);

/// The text that the Base64 engine describes an error with (its
/// `Display`).
pub uninterp spec fn base64_error_message(e: base64::DecodeError) -> Seq<char>;

/// The message of the error that the standard engine reports for a text
/// that it does not accept.
pub uninterp spec fn base64_failure(text: Seq<char>) -> Seq<char>;

/// Why a text cannot be decoded.
#[derive(Clone, Debug, PartialEq, Eq)]
pub enum Base64Error {
    /// The text is not the Base64 form of any bytes; with the engine's
    /// description.
    Malformed(String),
    /// The decoded bytes are no UTF-8; with the description of where they
    /// break.
    InvalidUtf8(String),
}

/// `Engine::encode` of the standard engine: Base64 with the standard
/// alphabet and padding. The engine allocates the whole result, so its
/// length has to be one that a vector can have.
#[verifier::external_body]
fn engine_encode(bytes: &[u8]) -> (encoded: String)
    requires
        base64_len(bytes@.len()) <= isize::MAX,
    ensures
        encoded@ == base64_text(bytes@),
{
    base64::Engine::encode(&base64::engine::general_purpose::STANDARD, bytes)
}

/// `Engine::decode` of the standard engine. It accepts a text exactly
/// where it is the padded Base64 form of some bytes, with no other
/// character in it and no unused bit set, and returns those bytes. The
/// error for any other text depends on the text alone.
#[verifier::external_body]
fn engine_decode(text: &str) -> (r: Result<Vec<u8>, base64::DecodeError>)
    ensures
        match r {
            Ok(bytes) => base64_text(bytes@) == text@,
            Err(e) => base64_error_message(e) == base64_failure(text@) && forall|bytes: Seq<u8>|
                #[trigger] base64_text(bytes) != text@,
        },
{
    base64::Engine::decode(&base64::engine::general_purpose::STANDARD, text)
}

/// The engine's description of why it did not accept a text (the error's
/// `Display`).
#[verifier::external_body]
fn decode_error_text(e: &base64::DecodeError) -> (text: String)
    ensures
        text@ == base64_error_message(*e),
{
    e.to_string()
}

/// Whether a text of `len` bytes can be encoded on this machine: its
/// Base64 form is no longer than a vector can be.
pub fn can_encode(len: usize) -> (ok: bool)
    ensures
        ok == (base64_len(len as nat) <= isize::MAX),
{
    let groups: u128 = ((len as u128) + 2) / 3;
    4 * groups <= isize::MAX as u128
}

/// The UTF-8 form of `text` in Base64.
pub fn encode_base64(text: &str) -> (encoded: String)
    requires
        base64_len(encode_utf8(text@).len()) <= isize::MAX,
    ensures
        encoded@ == base64_text(encode_utf8(text@)),
{
    engine_encode(text.as_bytes())
}

/// The UTF-8 form of `text` in Base64, or `None` where the result would be
/// longer than this machine can hold.
pub fn try_encode_base64(text: &str) -> (encoded: Option<String>)
    ensures
        encoded is Some <==> base64_len(encode_utf8(text@).len()) <= isize::MAX,
        encoded matches Some(e) ==> e@ == base64_text(encode_utf8(text@)),
{
    let bytes = text.as_bytes();
    if can_encode(bytes.len()) {
        Some(engine_encode(bytes))
    } else {
        None
    }
}

/// The text whose UTF-8 form `text` is the Base64 form of. Fails with
/// `Malformed` and the engine's message where `text` is the Base64 form of
/// no bytes, and with `InvalidUtf8` and the standard library's message
/// where it is that of bytes that are no UTF-8.
pub fn decode_base64(text: &str) -> (r: Result<String, Base64Error>)
    ensures
        match r {
            Ok(decoded) => base64_text(encode_utf8(decoded@)) == text@,
            Err(Base64Error::Malformed(detail)) => detail@ == base64_failure(text@) && forall|
                bytes: Seq<u8>,
            | #[trigger] base64_text(bytes) != text@,
            Err(Base64Error::InvalidUtf8(detail)) => exists|bytes: Seq<u8>| #[trigger]
                base64_text(bytes) == text@ && !valid_utf8(bytes) && detail@ == utf8_failure(bytes),
        },
{
    let bytes = match engine_decode(text) {
        Ok(bytes) => bytes,
        Err(e) => {
            return Err(Base64Error::Malformed(decode_error_text(&e)));
        },
    };
    let ghost raw = bytes@;
    match String::from_utf8(bytes) {
        Ok(decoded) => {
            proof {
                vstd::utf8::decode_utf8_encode_utf8(raw);
            }
            Ok(decoded)
        },
        Err(e) => Err(Base64Error::InvalidUtf8(utf8_error_text(&e))),
    }
}

} // verus!

//! Characters and strings: contracts for the standard operations that the
//! codecs build on, and a few helpers over them.

use vstd::prelude::*;

verus! {

/// `String::push` appends one character and leaves the rest unchanged.
pub assume_specification[ String::push ](s: &mut String, c: char)
    ensures
        final(s)@ == old(s)@.push(c),
;

/// What `String::from_utf8` reports for bytes that are no UTF-8.
#[verifier::external_type_specification]
#[verifier::external_body]
pub struct ExFromUtf8Error(std::string::FromUtf8Error);

/// The text that the standard library describes bytes that are no UTF-8
/// with (the error's `Display`).
pub uninterp spec fn utf8_error_message(e: std::string::FromUtf8Error) -> Seq<char>;

/// The message of the error that `String::from_utf8` reports for `bytes`.
pub uninterp spec fn utf8_failure(bytes: Seq<u8>) -> Seq<char>;

/// `String::from_utf8` turns bytes into the string they encode, and fails
/// exactly where they are no valid UTF-8, with an error that depends on
/// the bytes alone.
pub assume_specification[ String::from_utf8 ](bytes: Vec<u8>) -> (r: Result<
    String,
    std::string::FromUtf8Error,
>)
    ensures
        match r {
            Ok(s) => vstd::utf8::valid_utf8(bytes@) && s@ == vstd::utf8::decode_utf8(bytes@),
            Err(e) => !vstd::utf8::valid_utf8(bytes@) && utf8_error_message(e) == utf8_failure(
                bytes@,
            ),
        },
;

/// The standard library's description of bytes that are no UTF-8 (the
/// error's `Display`).
#[verifier::external_body]
pub(crate) fn utf8_error_text(e: &std::string::FromUtf8Error) -> (text: String)
    ensures
        text@ == utf8_error_message(*e),
{
    e.to_string()
}

/// `String::into_bytes` hands out the string's content, which is its
/// characters in UTF-8.
pub assume_specification[ String::into_bytes ](s: String) -> (bytes: Vec<u8>)
    ensures
        bytes@ == vstd::utf8::encode_utf8(s@),
;

/// `char::from_u32` gives the character with the given code, and `None`
/// for a code that is no Unicode scalar value (a surrogate, or a number
/// above `0x10FFFF`).
pub assume_specification[ char::from_u32 ](code: u32) -> (c: Option<char>)
    ensures
        c == (if vstd::utf8::is_scalar(code) {
            Some(code as char)
        } else {
            None
        }),
;

/// The code of a character.
pub fn char_code(c: char) -> (code: u32)
    ensures
        code == c as nat,
        vstd::utf8::is_scalar(code),
{
    c as u32
}

/// The characters of `text`, in order.
pub fn chars_of(text: &str) -> (chars: Vec<char>)
    ensures
        chars@ == text@,
{
    let mut chars: Vec<char> = Vec::new();
    for c in it: text.chars()
        invariant
            it.seq() == text@,
            chars@ == it.seq().take(it.index() as int),
    {
        chars.push(c);
    }
    chars
}

/// Appends the characters of `chars` from `from` up to `to` to `out`.
pub fn append_chars(out: &mut String, chars: &Vec<char>, from: usize, to: usize)
    requires
        from <= to <= chars@.len(),
    ensures
        final(out)@ == old(out)@ + chars@.subrange(from as int, to as int),
{
    let mut i: usize = from;
    while i < to
        invariant
            from <= i <= to <= chars@.len(),
            out@ == old(out)@ + chars@.subrange(from as int, i as int),
        decreases to - i,
    {
        out.push(chars[i]);
        i = i + 1;
    }
}

} // verus!

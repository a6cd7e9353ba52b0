//! Unicode escape sequences: `\u` followed by the code of a character in
//! hexadecimal.

use vstd::prelude::*;
use vstd::string::StringExecFns;
use vstd::utf8::is_scalar;
use crate::radix::{append_hex, hex_text, parse_u32, parsed_u32};
use crate::text::{append_chars, char_code, chars_of};

verus! {

/// The escape sequence of a character: a backslash, `u`, and the code in
/// upper-case hexadecimal with at least four digits.
pub open spec fn unicode_escape(c: char) -> Seq<char> {
    seq!['\\', 'u'] + hex_text(c as nat, 4)
}

/// The text with every character written as its escape sequence.
pub open spec fn unicode_encoded(text: Seq<char>) -> Seq<char>
    decreases text.len(),
{
    if text.len() == 0 {
        Seq::empty()
    } else {
        unicode_encoded(text.drop_last()) + unicode_escape(text.last())
    }
}

/// Why a text with escape sequences cannot be decoded, as a mathematical
/// value.
pub enum UnicodeFailure {
    /// Fewer than four characters follow a `\u`.
    Incomplete,
    /// The four characters are a number, but not the code of a character.
    InvalidCodePoint(Seq<char>),
    /// The four characters are no hexadecimal number.
    InvalidHex(Seq<char>),
}

/// `decoded` put in front of what decoding the rest gave.
pub open spec fn after(decoded: Seq<char>, rest: Result<Seq<char>, UnicodeFailure>) -> Result<
    Seq<char>,
    UnicodeFailure,
> {
    match rest {
        Ok(tail) => Ok(decoded + tail),
        Err(failure) => Err(failure),
    }
}

/// The text from `from` on with its escape sequences replaced, or the
/// first failure from the left. A sequence is `\u` and the next four
/// characters, read as a hexadecimal number; every other character,
/// a backslash without `u` included, stands for itself.
pub open spec fn unicode_decoded_from(s: Seq<char>, from: int) -> Result<Seq<char>, UnicodeFailure>
    decreases s.len() - from,
{
    if from < 0 || from >= s.len() {
        Ok(Seq::empty())
    } else if s[from] == '\\' && from + 1 < s.len() && s[from + 1] == 'u' {
        if from + 6 > s.len() {
            Err(UnicodeFailure::Incomplete)
        } else {
            let digits = s.subrange(from + 2, from + 6);
            match parsed_u32(digits, 16) {
                None => Err(UnicodeFailure::InvalidHex(digits)),
                Some(code) => if is_scalar(code) {
                    after(seq![code as char], unicode_decoded_from(s, from + 6))
                } else {
                    Err(UnicodeFailure::InvalidCodePoint(digits))
                },
            }
        }
    } else {
        after(seq![s[from]], unicode_decoded_from(s, from + 1))
    }
}

/// The text with its escape sequences replaced, or the first failure.
pub open spec fn unicode_decoded(s: Seq<char>) -> Result<Seq<char>, UnicodeFailure> {
    unicode_decoded_from(s, 0)
}

/// The message that a failure is reported with.
pub open spec fn unicode_failure_message(failure: UnicodeFailure) -> Seq<char> {
    match failure {
        UnicodeFailure::Incomplete => "不完整的Unicode转义序列"@,
        UnicodeFailure::InvalidCodePoint(digits) => "无效的Unicode码点: U+"@ + digits,
        UnicodeFailure::InvalidHex(digits) => "无效的16进制数: "@ + digits,
    }
}

/// Why a text with escape sequences cannot be decoded.
#[derive(Clone, Debug, PartialEq, Eq)]
pub enum UnicodeError {
    /// Fewer than four characters follow a `\u`.
    Incomplete,
    /// The four characters are a number, but not the code of a character.
    InvalidCodePoint(String),
    /// The four characters are no hexadecimal number.
    InvalidHex(String),
}

impl View for UnicodeError {
    type V = UnicodeFailure;

    open spec fn view(&self) -> UnicodeFailure {
        match self {
            UnicodeError::Incomplete => UnicodeFailure::Incomplete,
            UnicodeError::InvalidCodePoint(digits) => UnicodeFailure::InvalidCodePoint(digits@),
            UnicodeError::InvalidHex(digits) => UnicodeFailure::InvalidHex(digits@),
        }
    }
}

impl UnicodeError {
    /// The message that the failure is reported with.
    pub fn message(&self) -> (text: String)
        ensures
            text@ == unicode_failure_message(self@),
    {
        match self {
            UnicodeError::Incomplete => String::from_str("不完整的Unicode转义序列"),
            UnicodeError::InvalidCodePoint(digits) => {
                let mut text = String::from_str("无效的Unicode码点: U+");
                text.append(digits.as_str());
                text
            },
            UnicodeError::InvalidHex(digits) => {
                let mut text = String::from_str("无效的16进制数: ");
                text.append(digits.as_str());
                text
            },
        }
    }
}

/// What a decoding returns, as a mathematical value.
pub open spec fn outcome_view(r: Result<String, UnicodeError>) -> Result<Seq<char>, UnicodeFailure> {
    match r {
        Ok(text) => Ok(text@),
        Err(e) => Err(e@),
    }
}

proof fn lemma_after_push(decoded: Seq<char>, c: char, rest: Result<Seq<char>, UnicodeFailure>)
    ensures
        after(decoded, after(seq![c], rest)) == after(decoded.push(c), rest),
{
    if let Ok(tail) = rest {
        assert(decoded + (seq![c] + tail) == decoded.push(c) + tail);
    }
}

/// Writes every character of `text` as its escape sequence.
pub fn encode_unicode(text: &str) -> (encoded: String)
    ensures
        encoded@ == unicode_encoded(text@),
{
    let chars = chars_of(text);
    let mut out = String::new();
    let mut i: usize = 0;
    while i < chars.len()
        invariant
            i <= chars@.len(),
            chars@ == text@,
            out@ == unicode_encoded(chars@.take(i as int)),
        decreases chars@.len() - i,
    {
        proof {
            assert(chars@.take(i + 1).drop_last() == chars@.take(i as int));
        }
        let ghost before = out@;
        let c: char = chars[i];
        let code: u32 = char_code(c);
        out.push('\\');
        out.push('u');
        append_hex(&mut out, code, 4);
        assert(out@ =~= before + (seq!['\\', 'u'] + hex_text(c as nat, 4)));
        i = i + 1;
    }
    assert(chars@.take(i as int) == chars@);
    out
}

/// Replaces the escape sequences of `text` by their characters, or
/// reports the first sequence that is cut short or is no character.
pub fn decode_unicode(text: &str) -> (r: Result<String, UnicodeError>)
    ensures
        outcome_view(r) == unicode_decoded(text@),
{
    let chars = chars_of(text);
    let mut out = String::new();
    let mut i: usize = 0;
    while i < chars.len()
        invariant
            i <= chars@.len(),
            chars@ == text@,
            unicode_decoded(text@) == after(out@, unicode_decoded_from(chars@, i as int)),
        decreases chars@.len() - i,
    {
        if chars[i] == '\\' && i + 1 < chars.len() && chars[i + 1] == 'u' {
            if chars.len() - i < 6 {
                return Err(UnicodeError::Incomplete);
            }
            let mut digits = String::new();
            append_chars(&mut digits, &chars, i + 2, i + 6);
            match parse_u32(&chars, i + 2, i + 6, 16) {
                None => {
                    return Err(UnicodeError::InvalidHex(digits));
                },
                Some(code) => match char::from_u32(code) {
                    Some(c) => {
                        proof {
                            lemma_after_push(out@, c, unicode_decoded_from(chars@, i + 6));
                        }
                        out.push(c);
                    },
                    None => {
                        return Err(UnicodeError::InvalidCodePoint(digits));
                    },
                },
            }
            i = i + 6;
        } else {
            proof {
                lemma_after_push(out@, chars@[i as int], unicode_decoded_from(chars@, i + 1));
            }
            out.push(chars[i]);
            i = i + 1;
        }
    }
    assert(out@ + Seq::<char>::empty() == out@);
    Ok(out)
}

} // verus!

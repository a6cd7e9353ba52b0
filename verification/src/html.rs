//! HTML entities: escaping the characters that markup reserves, and
//! replacing entities by the characters they stand for.

use vstd::prelude::*;
use vstd::string::StringExecFns;
use vstd::utf8::is_scalar;
use crate::radix::{parse_u32, parsed_u32};
use crate::text::{append_chars, chars_of};

verus! {

/// What a character is written as: the five reserved characters and the
/// space as entities, every other character as itself.
pub open spec fn html_escape(c: char) -> Seq<char> {
    if c == '&' {
        "&amp;"@
    } else if c == '<' {
        "&lt;"@
    } else if c == '>' {
        "&gt;"@
    } else if c == '"' {
        "&quot;"@
    } else if c == '\'' {
        "&#39;"@
    } else if c == ' ' {
        "&nbsp;"@
    } else {
        seq![c]
    }
}

/// The text with every character escaped.
pub open spec fn html_encoded(text: Seq<char>) -> Seq<char>
    decreases text.len(),
{
    if text.len() == 0 {
        Seq::empty()
    } else {
        html_encoded(text.drop_last()) + html_escape(text.last())
    }
}

/// The number of characters from `from` on that come before the next
/// semicolon, or before the end where there is none.
pub open spec fn run_before_semicolon(s: Seq<char>, from: int) -> nat
    decreases s.len() - from,
{
    if from < 0 || from >= s.len() || s[from] == ';' {
        0
    } else {
        1 + run_before_semicolon(s, from + 1)
    }
}

/// The character of a named entity, given the name between `&` and `;`.
pub open spec fn named_entity(name: Seq<char>) -> Option<char> {
    if name == "amp"@ {
        Some('&')
    } else if name == "lt"@ {
        Some('<')
    } else if name == "gt"@ {
        Some('>')
    } else if name == "quot"@ {
        Some('"')
    } else if name == "apos"@ {
        Some('\'')
    } else if name == "nbsp"@ {
        Some(' ')
    } else {
        None
    }
}

/// The character of a numeric entity, given what stands between `&` and
/// `;`, which begins with `#`: hexadecimal after `#x` or `#X`, decimal
/// otherwise; `None` where that is no number that fits in 32 bits, or no
/// code of a character.
pub open spec fn numeric_entity(name: Seq<char>) -> Option<char> {
    let code = if name.len() >= 2 && (name[1] == 'x' || name[1] == 'X') {
        parsed_u32(name.skip(2), 16)
    } else {
        parsed_u32(name.skip(1), 10)
    };
    match code {
        Some(c) => if is_scalar(c) {
            Some(c as char)
        } else {
            None
        },
        None => None,
    }
}

/// The character that an entity stands for, if it is a known one.
pub open spec fn entity_char(name: Seq<char>) -> Option<char> {
    match named_entity(name) {
        Some(c) => Some(c),
        None => if name.len() > 0 && name[0] == '#' {
            numeric_entity(name)
        } else {
            None
        },
    }
}

/// The text from `from` on with its entities replaced. An entity runs from
/// an ampersand to the next semicolon; one that is not known stays as it
/// is, and so does an ampersand with no semicolon after it.
pub open spec fn html_decoded_from(s: Seq<char>, from: int) -> Seq<char>
    decreases s.len() - from,
{
    if from < 0 || from >= s.len() {
        Seq::empty()
    } else {
        let end = from + 1 + run_before_semicolon(s, from + 1);
        if s[from] == '&' && end < s.len() {
            (match entity_char(s.subrange(from + 1, end)) {
                Some(c) => seq![c],
                None => s.subrange(from, end + 1),
            }) + html_decoded_from(s, end + 1)
        } else {
            seq![s[from]] + html_decoded_from(s, from + 1)
        }
    }
}

/// The text with its entities replaced.
pub open spec fn html_decoded(s: Seq<char>) -> Seq<char> {
    html_decoded_from(s, 0)
}

proof fn lemma_run_bounds(s: Seq<char>, from: int)
    requires
        0 <= from <= s.len(),
    ensures
        from + run_before_semicolon(s, from) <= s.len(),
        from + run_before_semicolon(s, from) < s.len() ==> s[from + run_before_semicolon(s, from)]
            == ';',
    decreases s.len() - from,
{
    if from < s.len() && s[from] != ';' {
        lemma_run_bounds(s, from + 1);
    }
}

/// Escapes the reserved characters and the space of `text`.
pub fn encode_html(text: &str) -> (encoded: String)
    ensures
        encoded@ == html_encoded(text@),
{
    let chars = chars_of(text);
    let mut out = String::new();
    let mut i: usize = 0;
    while i < chars.len()
        invariant
            i <= chars@.len(),
            chars@ == text@,
            out@ == html_encoded(chars@.take(i as int)),
        decreases chars@.len() - i,
    {
        let c = chars[i];
        proof {
            assert(chars@.take(i + 1).drop_last() == chars@.take(i as int));
        }
        if c == '&' {
            out.append("&amp;");
        } else if c == '<' {
            out.append("&lt;");
        } else if c == '>' {
            out.append("&gt;");
        } else if c == '"' {
            out.append("&quot;");
        } else if c == '\'' {
            out.append("&#39;");
        } else if c == ' ' {
            out.append("&nbsp;");
        } else {
            out.push(c);
        }
        i = i + 1;
    }
    assert(chars@.take(i as int) == chars@);
    out
}

/// The position of the first semicolon from `from` on, or the length of
/// `chars` where there is none.
fn find_semicolon(chars: &Vec<char>, from: usize) -> (end: usize)
    requires
        from <= chars@.len(),
    ensures
        end == from + run_before_semicolon(chars@, from as int),
        end <= chars@.len(),
{
    let mut end: usize = from;
    while end < chars.len() && chars[end] != ';'
        invariant
            from <= end <= chars@.len(),
            end + run_before_semicolon(chars@, end as int) == from + run_before_semicolon(
                chars@,
                from as int,
            ),
        decreases chars@.len() - end,
    {
        end = end + 1;
    }
    end
}

/// Whether the characters from `from` up to `to` spell `word`.
fn spells(chars: &Vec<char>, from: usize, to: usize, word: &str) -> (same: bool)
    requires
        from <= to <= chars@.len(),
    ensures
        same == (chars@.subrange(from as int, to as int) == word@),
{
    let letters = chars_of(word);
    if letters.len() != to - from {
        return false;
    }
    let mut i: usize = 0;
    while i < letters.len()
        invariant
            from <= to <= chars@.len(),
            letters@ == word@,
            letters@.len() == to - from,
            i <= letters@.len(),
            forall|j: int| 0 <= j < i ==> chars@[from + j] == letters@[j],
        decreases letters@.len() - i,
    {
        if chars[from + i] != letters[i] {
            assert(chars@.subrange(from as int, to as int)[i as int] != letters@[i as int]);
            return false;
        }
        i = i + 1;
    }
    assert(chars@.subrange(from as int, to as int) =~= letters@);
    true
}

/// The character that the entity between `from` and `to` stands for.
fn read_entity(chars: &Vec<char>, from: usize, to: usize) -> (c: Option<char>)
    requires
        from <= to <= chars@.len(),
    ensures
        c == entity_char(chars@.subrange(from as int, to as int)),
{
    let ghost name = chars@.subrange(from as int, to as int);
    if spells(chars, from, to, "amp") {
        Some('&')
    } else if spells(chars, from, to, "lt") {
        Some('<')
    } else if spells(chars, from, to, "gt") {
        Some('>')
    } else if spells(chars, from, to, "quot") {
        Some('"')
    } else if spells(chars, from, to, "apos") {
        Some('\'')
    } else if spells(chars, from, to, "nbsp") {
        Some(' ')
    } else if from < to && chars[from] == '#' {
        let code = if to - from >= 2 && (chars[from + 1] == 'x' || chars[from + 1] == 'X') {
            assert(name.skip(2) == chars@.subrange(from + 2, to as int));
            parse_u32(chars, from + 2, to, 16)
        } else {
            assert(name.skip(1) == chars@.subrange(from + 1, to as int));
            parse_u32(chars, from + 1, to, 10)
        };
        match code {
            Some(code) => char::from_u32(code),
            None => None,
        }
    } else {
        None
    }
}

/// Replaces the entities of `text` by the characters they stand for.
pub fn decode_html(text: &str) -> (decoded: String)
    ensures
        decoded@ == html_decoded(text@),
{
    let chars = chars_of(text);
    let mut out = String::new();
    let mut i: usize = 0;
    while i < chars.len()
        invariant
            i <= chars@.len(),
            chars@ == text@,
            html_decoded(text@) == out@ + html_decoded_from(chars@, i as int),
        decreases chars@.len() - i,
    {
        let end: usize = if chars[i] == '&' {
            find_semicolon(&chars, i + 1)
        } else {
            chars.len()
        };
        if chars[i] == '&' && end < chars.len() {
            match read_entity(&chars, i + 1, end) {
                Some(c) => {
                    out.push(c);
                },
                None => {
                    append_chars(&mut out, &chars, i, end + 1);
                },
            }
            i = end + 1;
        } else {
            proof {
                lemma_run_bounds(chars@, i + 1);
            }
            out.push(chars[i]);
            i = i + 1;
        }
    }
    out
}

} // verus!

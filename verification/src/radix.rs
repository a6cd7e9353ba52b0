//! Numbers in decimal and hexadecimal notation: reading them from
//! characters and writing them in upper-case hexadecimal.

use vstd::prelude::*;

verus! {

/// The value of `c` as a digit in the given radix (10 or 16), if it is one.
/// Hexadecimal digits are accepted in either case.
pub open spec fn digit_value(c: char, radix: nat) -> Option<nat> {
    if '0' <= c <= '9' {
        Some((c as nat - 48) as nat)
    } else if radix == 16 && 'a' <= c <= 'f' {
        Some((c as nat - 87) as nat)
    } else if radix == 16 && 'A' <= c <= 'F' {
        Some((c as nat - 55) as nat)
    } else {
        None
    }
}

/// The number that a sequence of digits stands for, most significant digit
/// first; `None` where a character is no digit. No digits stand for zero.
pub open spec fn digits_value(s: Seq<char>, radix: nat) -> Option<nat>
    decreases s.len(),
{
    if s.len() == 0 {
        Some(0)
    } else {
        match (digits_value(s.drop_last(), radix), digit_value(s.last(), radix)) {
            (Some(v), Some(d)) => Some(v * radix + d),
            _ => None,
        }
    }
}

/// The number that `s` stands for as an unsigned number of 32 bits: an
/// optional plus sign and at least one digit, with a value that fits.
/// Anything else, white space included, stands for no number.
pub open spec fn parsed_u32(s: Seq<char>, radix: nat) -> Option<u32> {
    let digits = if s.len() > 0 && s[0] == '+' {
        s.skip(1)
    } else {
        s
    };
    if digits.len() == 0 {
        None
    } else {
        match digits_value(digits, radix) {
            Some(v) => if v <= u32::MAX {
                Some(v as u32)
            } else {
                None
            },
            None => None,
        }
    }
}

/// The upper-case character of a hexadecimal digit.
pub open spec fn hex_digit_char(d: nat) -> char
    recommends
        d < 16,
{
    if d < 10 {
        (48 + d) as char
    } else {
        (55 + d) as char
    }
}

/// `n` in upper-case hexadecimal with at least `width` digits, padded with
/// zeros on the left, and at least one digit.
pub open spec fn hex_text(n: nat, width: nat) -> Seq<char>
    decreases n + width,
{
    if n < 16 && width <= 1 {
        seq![hex_digit_char(n)]
    } else {
        hex_text(n / 16, if width > 0 {
            (width - 1) as nat
        } else {
            0
        }).push(hex_digit_char(n % 16))
    }
}

/// A prefix of digits stands for a number no larger than the whole, and a
/// prefix that is no number makes the whole none.
pub proof fn lemma_digits_prefix(s: Seq<char>, radix: nat, i: int)
    requires
        0 <= i <= s.len(),
        radix >= 1,
    ensures
        digits_value(s.take(i), radix) is None ==> digits_value(s, radix) is None,
        digits_value(s, radix) is Some ==> digits_value(s.take(i), radix) is Some
            && digits_value(s.take(i), radix)->0 <= digits_value(s, radix)->0,
    decreases s.len(),
{
    if i == s.len() {
        assert(s.take(i) == s);
    } else {
        assert(s.drop_last().take(i) == s.take(i));
        lemma_digits_prefix(s.drop_last(), radix, i);
        if digits_value(s, radix) is Some {
            let v = digits_value(s.drop_last(), radix)->0;
            assert(v <= v * radix) by (nonlinear_arith)
                requires
                    radix >= 1,
            ;
        }
    }
}

/// The value of `c` as a digit, if it is one.
pub fn read_digit(c: char, radix: u32) -> (d: Option<u32>)
    requires
        radix == 10 || radix == 16,
    ensures
        d matches Some(v) ==> digit_value(c, radix as nat) == Some(v as nat) && v < radix,
        d is None ==> digit_value(c, radix as nat) is None,
{
    let code: u32 = c as u32;
    if '0' <= c && c <= '9' {
        Some(code - 48)
    } else if radix == 16 && 'a' <= c && c <= 'f' {
        Some(code - 87)
    } else if radix == 16 && 'A' <= c && c <= 'F' {
        Some(code - 55)
    } else {
        None
    }
}

/// Reads the characters of `chars` from `from` up to `to` as an unsigned
/// number of 32 bits.
pub fn parse_u32(chars: &Vec<char>, from: usize, to: usize, radix: u32) -> (r: Option<u32>)
    requires
        from <= to <= chars@.len(),
        radix == 10 || radix == 16,
    ensures
        r == parsed_u32(chars@.subrange(from as int, to as int), radix as nat),
{
    let ghost s = chars@.subrange(from as int, to as int);
    let mut start: usize = from;
    if from < to && chars[from] == '+' {
        start = from + 1;
    }
    let ghost digits = chars@.subrange(start as int, to as int);
    assert(digits == if s.len() > 0 && s[0] == '+' {
        s.skip(1)
    } else {
        s
    });
    if start == to {
        return None;
    }
    let ghost goal = parsed_u32(s, radix as nat);
    let mut value: u64 = 0;
    let mut i: usize = start;
    while i < to
        invariant
            start <= i <= to <= chars@.len(),
            radix == 10 || radix == 16,
            digits == chars@.subrange(start as int, to as int),
            goal == parsed_u32(chars@.subrange(from as int, to as int), radix as nat),
            goal == match digits_value(digits, radix as nat) {
                Some(v) => if v <= u32::MAX {
                    Some(v as u32)
                } else {
                    None
                },
                None => None,
            },
            digits_value(digits.take(i - start), radix as nat) == Some(value as nat),
            value <= u32::MAX,
        decreases to - i,
    {
        let ghost before = digits.take(i - start);
        let ghost after = digits.take(i - start + 1);
        proof {
            assert(after.drop_last() == before);
            assert(after.last() == chars@[i as int]);
            lemma_digits_prefix(digits, radix as nat, i - start + 1);
        }
        match read_digit(chars[i], radix) {
            None => {
                assert(digits_value(after, radix as nat) is None);
                return None;
            },
            Some(d) => {
                assert(value * radix <= 0xffff_ffff * 16) by (nonlinear_arith)
                    requires
                        value <= 0xffff_ffff,
                        radix <= 16,
                ;
                let next: u64 = value * (radix as u64) + (d as u64);
                assert(digits_value(after, radix as nat) == Some(next as nat));
                if next > 0xffff_ffff {
                    return None;
                }
                value = next;
            },
        }
        i = i + 1;
    }
    assert(digits.take(to - start) == digits);
    Some(value as u32)
}

/// The upper-case character of a hexadecimal digit.
pub fn hex_digit_to_char(d: u8) -> (c: char)
    requires
        d < 16,
    ensures
        c == hex_digit_char(d as nat),
{
    let b: u8 = if d < 10 {
        48 + d
    } else {
        55 + d
    };
    b as char
}

/// Appends `n` in upper-case hexadecimal with at least `width` digits.
pub fn append_hex(out: &mut String, n: u32, width: u32)
    ensures
        final(out)@ == old(out)@ + hex_text(n as nat, width as nat),
    decreases n + width,
{
    if n >= 16 || width > 1 {
        append_hex(out, n / 16, if width > 0 {
            width - 1
        } else {
            0
        });
    }
    out.push(hex_digit_to_char((n % 16) as u8));
}

} // verus!

use convert_tools::radix::{append_hex, hex_digit_to_char, parse_u32, read_digit};
use convert_tools::decimal::digit_to_char;
use convert_tools::text::{append_chars, char_code, chars_of};

fn parse(text: &str, radix: u32) -> Option<u32> {
    let chars: Vec<char> = text.chars().collect();
    parse_u32(&chars, 0, chars.len(), radix)
}

#[test]
fn numbers_are_read_as_the_standard_library_reads_them() {
    for text in [
        "", "0", "7", "123", "+7", "+", "-1", "++1", "+-1", "4294967295", "4294967296",
        "99999999999999999999", "00000000000000000001", "ff", "FF", "fF", "fg", "g", "ffffffff",
        "100000000", "+ffffffff", " 1", "1 ", "1_000", "0x10", "１", "٣", "a", "A",
    ] {
        assert_eq!(parse(text, 10), u32::from_str_radix(text, 10).ok(), "{:?} in 10", text);
        assert_eq!(parse(text, 16), u32::from_str_radix(text, 16).ok(), "{:?} in 16", text);
    }
}

#[test]
fn numbers_of_chosen_texts() {
    assert_eq!(parse("123", 10), Some(123));
    assert_eq!(parse("+42", 10), Some(42));
    assert_eq!(parse("4294967295", 10), Some(u32::MAX));
    assert_eq!(parse("4294967296", 10), None);
    assert_eq!(parse("ff", 16), Some(255));
    assert_eq!(parse("FFFFFFFF", 16), Some(u32::MAX));
    assert_eq!(parse("ff", 10), None);
    assert_eq!(parse("", 10), None);
    assert_eq!(parse("+", 16), None);
}

#[test]
fn numbers_are_read_from_a_range() {
    let chars: Vec<char> = "ab12cd".chars().collect();
    assert_eq!(parse_u32(&chars, 2, 4, 10), Some(12));
    assert_eq!(parse_u32(&chars, 0, 6, 16), Some(0xab12cd));
    assert_eq!(parse_u32(&chars, 0, 6, 10), None);
    assert_eq!(parse_u32(&chars, 3, 3, 10), None);
}

#[test]
fn digits_are_read() {
    assert_eq!(read_digit('0', 10), Some(0));
    assert_eq!(read_digit('9', 16), Some(9));
    assert_eq!(read_digit('a', 16), Some(10));
    assert_eq!(read_digit('F', 16), Some(15));
    assert_eq!(read_digit('a', 10), None);
    assert_eq!(read_digit('g', 16), None);
    assert_eq!(read_digit('/', 10), None);
    assert_eq!(read_digit(':', 16), None);
}

#[test]
fn hexadecimal_notation() {
    let hex = |n: u32, width: u32| {
        let mut out = String::new();
        append_hex(&mut out, n, width);
        out
    };
    assert_eq!(hex(0, 4), "0000");
    assert_eq!(hex(0x41, 4), "0041");
    assert_eq!(hex(0x1F600, 4), "1F600");
    assert_eq!(hex(0xABCDEF, 4), "ABCDEF");
    assert_eq!(hex(5, 0), "5");
    assert_eq!(hex(0, 0), "0");
    assert_eq!(hex(255, 1), "FF");
    assert_eq!(hex(u32::MAX, 4), "FFFFFFFF");
    assert_eq!(hex(0xabc, 8), "00000ABC");
}

#[test]
fn digit_characters() {
    assert_eq!(digit_to_char(0), '0');
    assert_eq!(digit_to_char(9), '9');
    assert_eq!(hex_digit_to_char(9), '9');
    assert_eq!(hex_digit_to_char(10), 'A');
    assert_eq!(hex_digit_to_char(15), 'F');
}

#[test]
fn characters_of_a_text() {
    assert_eq!(chars_of("a中\u{1F600}"), vec!['a', '中', '\u{1F600}']);
    assert_eq!(chars_of(""), Vec::<char>::new());
    assert_eq!(char_code('A'), 65);
    assert_eq!(char_code('\u{10FFFF}'), 0x10FFFF);
    let mut out = String::from(">");
    append_chars(&mut out, &vec!['a', 'b', 'c', 'd'], 1, 3);
    assert_eq!(out, ">bc");
}

use base64::Engine;
use convert_tools::base64_codec::{
    can_encode, decode_base64, encode_base64, try_encode_base64, Base64Error,
};
use convert_tools::greeting::greet;
use convert_tools::html::{decode_html, encode_html};
use convert_tools::unicode_escape::{decode_unicode, encode_unicode, UnicodeError};
use convert_tools::url::{decode_url, encode_url};

#[test]
fn greeting_names_the_guest() {
    assert_eq!(greet("Ada"), "Hello, Ada! You've been greeted from Rust!");
    assert_eq!(greet(""), "Hello, ! You've been greeted from Rust!");
}

#[test]
fn html_reserved_characters_are_escaped() {
    assert_eq!(
        encode_html("<a href=\"x\">Tom & Jerry's</a>"),
        "&lt;a&nbsp;href=&quot;x&quot;&gt;Tom&nbsp;&amp;&nbsp;Jerry&#39;s&lt;/a&gt;"
    );
    assert_eq!(encode_html(""), "");
    assert_eq!(encode_html("plain-text_中文"), "plain-text_中文");
    assert_eq!(encode_html("&amp;"), "&amp;amp;");
}

#[test]
fn html_named_entities_are_replaced() {
    assert_eq!(decode_html("&lt;b&gt;"), "<b>");
    assert_eq!(decode_html("&amp;&quot;&apos;&nbsp;."), "&\"' .");
    assert_eq!(decode_html("no entities"), "no entities");
    assert_eq!(decode_html(""), "");
}

#[test]
fn html_numeric_entities_are_replaced() {
    assert_eq!(decode_html("&#65;&#x42;&#X43;"), "ABC");
    assert_eq!(decode_html("&#39;"), "'");
    assert_eq!(decode_html("&#x1F600;"), "\u{1F600}");
    assert_eq!(decode_html("&#x4e2d;&#x4E2D;&#20013;"), "中中中");
    assert_eq!(decode_html("&#0;"), "\0");
    assert_eq!(decode_html("&#+65;&#x+41;"), "AA");
    assert_eq!(decode_html("&#x10FFFF;"), "\u{10FFFF}");
}

#[test]
fn html_entities_that_are_none_stay() {
    for text in [
        "&unknown;",
        "&amp",
        "a & b; c",
        "&#xD800;",
        "&#xDFFF;",
        "&#1114112;",
        "&#99999999999;",
        "&#;",
        "&#x;",
        "&#-1;",
        "&# 65;",
        "&#6 5;",
        "&#xg;",
        "&;",
        "x&;y",
        "&&amp;",
        "&AMP;",
        "&#x110000;",
        "&",
        "&&&",
    ] {
        assert_eq!(decode_html(text), text, "{}", text);
    }
}

#[test]
fn html_entity_runs_to_the_next_semicolon() {
    assert_eq!(decode_html("&amp;amp;"), "&amp;");
    assert_eq!(decode_html("&lt;&lt"), "<&lt");
    assert_eq!(decode_html("a&b&gt;c"), "a&b&gt;c");
    assert_eq!(decode_html("&gt;;"), ">;");
    assert_eq!(decode_html("&#65&#66;"), "&#65&#66;");
}

#[test]
fn html_decoding_undoes_encoding() {
    for text in ["a < b && c > d", "'quoted' \"text\"", " & ; &amp; &#39; ", "中文 text"] {
        assert_eq!(decode_html(&encode_html(text)), text);
    }
}

#[test]
fn unicode_escapes_have_at_least_four_digits() {
    assert_eq!(encode_unicode("A"), "\\u0041");
    assert_eq!(encode_unicode("A中\u{1F600}"), "\\u0041\\u4E2D\\u1F600");
    assert_eq!(encode_unicode("\0\u{10FFFF}"), "\\u0000\\u10FFFF");
    assert_eq!(encode_unicode(""), "");
    assert_eq!(encode_unicode("\\u"), "\\u005C\\u0075");
    for c in ['\0', 'z', '\u{ff}', '\u{fff}', '\u{ffff}', '\u{10000}', '\u{abcde}'] {
        assert_eq!(encode_unicode(&c.to_string()), format!("\\u{:04X}", c as u32));
    }
}

#[test]
fn unicode_escapes_are_replaced() {
    assert_eq!(decode_unicode("\\u0041\\u4e2d\\u4E2D"), Ok("A中中".to_string()));
    assert_eq!(decode_unicode("x\\u0041y"), Ok("xAy".to_string()));
    assert_eq!(decode_unicode("plain"), Ok("plain".to_string()));
    assert_eq!(decode_unicode(""), Ok(String::new()));
    assert_eq!(decode_unicode("\\u1F600"), Ok("\u{1F60}0".to_string()));
    assert_eq!(decode_unicode("\\u+041"), Ok("A".to_string()));
    assert_eq!(decode_unicode("a\\b\\"), Ok("a\\b\\".to_string()));
    assert_eq!(decode_unicode("\\\\u0041"), Ok("\\A".to_string()));
    assert_eq!(decode_unicode("\\U0041"), Ok("\\U0041".to_string()));
    assert_eq!(decode_unicode(&encode_unicode("héllo 中")), Ok("héllo 中".to_string()));
}

#[test]
fn unicode_escape_cut_short_is_incomplete() {
    for text in ["\\u", "\\u1", "\\u12", "\\u123", "ok\\u0041\\u00"] {
        let err = decode_unicode(text).unwrap_err();
        assert_eq!(err, UnicodeError::Incomplete);
        assert_eq!(err.message(), "不完整的Unicode转义序列");
    }
}

#[test]
fn unicode_escape_of_a_surrogate_is_no_character() {
    let err = decode_unicode("a\\uD800b").unwrap_err();
    assert_eq!(err, UnicodeError::InvalidCodePoint("D800".to_string()));
    assert_eq!(err.message(), "无效的Unicode码点: U+D800");
    assert_eq!(
        decode_unicode("\\udfff"),
        Err(UnicodeError::InvalidCodePoint("dfff".to_string()))
    );
}

#[test]
fn unicode_escape_needs_hexadecimal_digits() {
    let err = decode_unicode("\\uZZZZ").unwrap_err();
    assert_eq!(err, UnicodeError::InvalidHex("ZZZZ".to_string()));
    assert_eq!(err.message(), "无效的16进制数: ZZZZ");
    assert_eq!(decode_unicode("\\u00 1"), Err(UnicodeError::InvalidHex("00 1".to_string())));
    assert_eq!(decode_unicode("\\u-001"), Err(UnicodeError::InvalidHex("-001".to_string())));
    assert_eq!(decode_unicode("\\u中中中中"), Err(UnicodeError::InvalidHex("中中中中".to_string())));
    assert_eq!(
        decode_unicode("\\uZZZZ\\uD800"),
        Err(UnicodeError::InvalidHex("ZZZZ".to_string()))
    );
}

#[test]
fn url_encoding_keeps_unreserved_bytes() {
    assert_eq!(encode_url("hello world!"), "hello%20world%21");
    assert_eq!(encode_url("a-b_c.d~e"), "a-b_c.d~e");
    assert_eq!(encode_url("AZaz09"), "AZaz09");
    assert_eq!(encode_url("中"), "%E4%B8%AD");
    assert_eq!(encode_url("a+b=c&d/e?f"), "a%2Bb%3Dc%26d%2Fe%3Ff");
    assert_eq!(encode_url("%"), "%25");
    assert_eq!(encode_url(""), "");
}

#[test]
fn url_decoding_replaces_escapes() {
    assert_eq!(decode_url("hello%20world%21").unwrap(), "hello world!");
    assert_eq!(decode_url("%E4%B8%AD").unwrap(), "中");
    assert_eq!(decode_url("%e4%b8%ad").unwrap(), "中");
    assert_eq!(decode_url("a+b").unwrap(), "a+b");
    assert_eq!(decode_url("plain").unwrap(), "plain");
    assert_eq!(decode_url("").unwrap(), "");
    assert_eq!(decode_url(&encode_url("a b/c?d=中&e")).unwrap(), "a b/c?d=中&e");
}

#[test]
fn url_decoding_leaves_broken_escapes() {
    assert_eq!(decode_url("%zz").unwrap(), "%zz");
    assert_eq!(decode_url("%4").unwrap(), "%4");
    assert_eq!(decode_url("%").unwrap(), "%");
    assert_eq!(decode_url("100%").unwrap(), "100%");
    assert_eq!(decode_url("%4%41").unwrap(), "%4A");
    assert_eq!(decode_url("%%41").unwrap(), "%A");
    assert_eq!(decode_url("%4g%41").unwrap(), "%4gA");
    assert_eq!(decode_url("%g4").unwrap(), "%g4");
    assert_eq!(decode_url("%41%").unwrap(), "A%");
    assert_eq!(decode_url("%41%4").unwrap(), "A%4");
}

#[test]
fn url_decoding_to_bytes_that_are_no_text_fails() {
    assert!(decode_url("%FF").is_err());
    assert!(decode_url("%C3").is_err());
    assert!(decode_url("ok%E4%B8").is_err());
    assert!(!decode_url("%80").unwrap_err().detail.is_empty());
}

#[test]
fn url_decoding_failure_carries_the_description_of_the_bytes() {
    assert_eq!(
        decode_url("ok%E4%B8").unwrap_err().detail,
        String::from_utf8(vec![b'o', b'k', 0xE4, 0xB8]).unwrap_err().to_string()
    );
    assert_eq!(
        decode_url("%FF").unwrap_err().detail,
        String::from_utf8(vec![0xFF]).unwrap_err().to_string()
    );
}

#[test]
fn base64_failure_carries_the_description() {
    for text in ["aGVsbG8", "YR==", "a GVs", "=YQ=", "Y"] {
        let theirs = base64::engine::general_purpose::STANDARD.decode(text).unwrap_err().to_string();
        assert_eq!(decode_base64(text), Err(Base64Error::Malformed(theirs)), "{}", text);
    }
    assert_eq!(
        decode_base64("/w=="),
        Err(Base64Error::InvalidUtf8(String::from_utf8(vec![0xFF]).unwrap_err().to_string()))
    );
}

#[test]
fn base64_encoding_pads_the_last_group() {
    assert_eq!(encode_base64(""), "");
    assert_eq!(encode_base64("a"), "YQ==");
    assert_eq!(encode_base64("ab"), "YWI=");
    assert_eq!(encode_base64("abc"), "YWJj");
    assert_eq!(encode_base64("hello"), "aGVsbG8=");
    assert_eq!(encode_base64("中"), "5Lit");
    assert_eq!(encode_base64("\u{3ff}\u{3fe}?"), "z7/Pvj8=");
    assert_eq!(try_encode_base64("hello"), Some("aGVsbG8=".to_string()));
    assert!(can_encode(0));
    assert!(can_encode(5));
    assert!(!can_encode(usize::MAX));
}

#[test]
fn base64_decoding_undoes_encoding() {
    assert_eq!(decode_base64("").unwrap(), "");
    assert_eq!(decode_base64("YQ==").unwrap(), "a");
    assert_eq!(decode_base64("YWI=").unwrap(), "ab");
    assert_eq!(decode_base64("aGVsbG8=").unwrap(), "hello");
    assert_eq!(decode_base64("5Lit").unwrap(), "中");
    for text in ["", "x", "xy", "xyz", "héllo wörld", "中文 text"] {
        assert_eq!(decode_base64(&encode_base64(text)).unwrap(), text);
    }
}

#[test]
fn base64_decoding_accepts_only_the_canonical_form() {
    for text in ["aGVsbG8", "YQ=", "YQ", "Y", "YR==", "YWJ=", "a GVs", "YQ==\n", "=YQ=", "YQ==YQ==", "中中", "YW-_"] {
        assert!(matches!(decode_base64(text), Err(Base64Error::Malformed(_))), "{}", text);
    }
}

#[test]
fn base64_of_bytes_that_are_no_text_fails() {
    assert!(matches!(decode_base64("/w=="), Err(Base64Error::InvalidUtf8(_))));
    assert!(matches!(decode_base64("5Lg="), Err(Base64Error::InvalidUtf8(_))));
}

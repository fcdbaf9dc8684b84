use bochumoxide::error::ErrorKind;
use bochumoxide::misc::fiddling::{
    base64dec, base64enc, char_code, enhex, to_bytes, to_str, try_base64dec, try_unhex, unhex,
    urldecode, urlencode,
};

#[test]
fn test_enhex() {
    assert_eq!(
        enhex(&vec![72, 101, 108, 108, 111, 44, 32, 87, 111, 114, 108, 100, 33]),
        "48656C6C6F2C20576F726C6421"
    );
}

#[test]
fn test_unhex_standard() {
    assert_eq!(
        unhex("48656C6C6F2C20576F726C6421").unwrap(),
        vec![72, 101, 108, 108, 111, 44, 32, 87, 111, 114, 108, 100, 33]
    );
}

#[test]
fn test_unhex_whitespaces() {
    assert_eq!(
        unhex("   48656C6C6F2C20576F726C6421 ").unwrap(),
        vec![72, 101, 108, 108, 111, 44, 32, 87, 111, 114, 108, 100, 33]
    );
}

#[test]
fn test_unhex_odd() {
    assert_eq!(
        unhex("148656C6C6F2C20576F726C6421 ").unwrap(),
        vec![1, 72, 101, 108, 108, 111, 44, 32, 87, 111, 114, 108, 100, 33]
    );
}

#[test]
fn test_base64_encoding() {
    assert_eq!(base64enc(b"testing"), "dGVzdGluZw==");
}

#[test]
fn test_base64_decoding() {
    assert_eq!(base64dec("dGVzdGluZw==").unwrap(), b"testing");
}

#[test]
fn test_urlencode() {
    assert_eq!(
        urlencode("https://bochumoxid.com"),
        "%68%74%74%70%73%3a%2f%2f%62%6f%63%68%75%6d%6f%78%69%64%2e%63%6f%6d"
    );
}

#[test]
fn test_urldecode() {
    assert_eq!(
        urldecode("%68%74%74%70%73%3a%2f%2f%62%6f%63%68%75%6d%6f%78%69%64%2e%63%6f%6d").unwrap(),
        "https://bochumoxid.com"
    );
}

#[test]
fn hex_covers_every_byte() {
    let all: Vec<u8> = (0..=255).collect();
    let text = enhex(&all);
    assert_eq!(text.len(), 512);
    assert!(text.starts_with("000102"));
    assert!(text.ends_with("FDFEFF"));
    assert_eq!(unhex(&text).unwrap(), all);
    assert_eq!(unhex(&text.to_lowercase()).unwrap(), all);
    assert_eq!(enhex(b""), "");
    assert_eq!(unhex("").unwrap(), Vec::<u8>::new());
}

#[test]
fn hex_text_that_is_no_hex_is_refused() {
    assert_eq!(try_unhex("zz"), None);
    assert_eq!(try_unhex("12 3g"), None);
    assert_eq!(try_unhex("\u{e9}\u{e9}"), None);
    assert_eq!(try_unhex("a\tb\n c"), Some(vec![0x0a, 0xbc]));
    assert_eq!(try_unhex("\u{2003}ff\u{a0}"), Some(vec![0xff]));
}

#[test]
fn base64_round_trips_and_refuses() {
    assert_eq!(base64enc(b""), "");
    assert_eq!(base64enc(b"f"), "Zg==");
    assert_eq!(base64enc(&[0xfb, 0xff]), "+/8=");
    assert_eq!(try_base64dec("+/8="), Some(vec![0xfb, 0xff]));
    assert_eq!(try_base64dec("not base64!"), None);
    assert_eq!(try_base64dec("Z"), None);
}

#[test]
fn text_and_bytes() {
    assert_eq!(to_bytes("h\u{e9}llo"), vec![0x68, 0xc3, 0xa9, 0x6c, 0x6c, 0x6f]);
    assert_eq!(to_str(&[0x68, 0xc3, 0xa9, 0x6c, 0x6c, 0x6f]).unwrap(), "h\u{e9}llo");
    assert_eq!(to_str(b"").unwrap(), "");
    assert_eq!(char_code('\u{20ac}'), 0x20ac);
}

#[test]
fn urlencode_writes_the_code_without_padding() {
    assert_eq!(urlencode(""), "");
    assert_eq!(urlencode("\n"), "%a");
    assert_eq!(urlencode("a b"), "%61%20%62");
    assert_eq!(urlencode("\u{e9}"), "%e9");
    assert_eq!(urlencode("\u{20ac}"), "%20ac");
    assert_eq!(urlencode("\u{10ffff}"), "%10ffff");
    assert_eq!(urlencode("\u{0}"), "%0");
}

#[test]
fn urldecode_reads_both_cases_and_refuses_the_rest() {
    assert_eq!(urldecode("plain").unwrap(), "plain");
    assert_eq!(urldecode("").unwrap(), "");
    assert_eq!(urldecode("a%2Fb%2fc").unwrap(), "a/b/c");
    assert_eq!(urldecode("%e9").unwrap(), "\u{e9}");
    assert_eq!(urldecode("%41%zz"), Err(ErrorKind::InvalidUrlEncoding));
    assert_eq!(urldecode("%4g "), Err(ErrorKind::InvalidUrlEncoding));
    assert_eq!(ErrorKind::InvalidUrlEncoding.message(), "Invalid input to urldecode");
}

#[test]
fn white_space_is_the_unicode_property() {
    let spaces = [
        '\u{9}', '\u{a}', '\u{b}', '\u{c}', '\u{d}', '\u{20}', '\u{85}', '\u{a0}', '\u{1680}',
        '\u{2000}', '\u{2001}', '\u{2002}', '\u{2003}', '\u{2004}', '\u{2005}', '\u{2006}',
        '\u{2007}', '\u{2008}', '\u{2009}', '\u{200a}', '\u{2028}', '\u{2029}', '\u{202f}',
        '\u{205f}', '\u{3000}',
    ];
    for c in spaces {
        let text = format!("4{}1", c);
        assert_eq!(try_unhex(&text), Some(vec![0x41]), "{:x}", c as u32);
    }
    for c in ['\u{8}', '\u{e}', '\u{1f}', '\u{180e}', '\u{200b}', '\u{2060}', '\u{feff}'] {
        let text = format!("4{}1", c);
        assert_eq!(try_unhex(&text), None, "{:x}", c as u32);
    }
}

#[test]
fn no_other_character_is_white_space() {
    let mut passed_over: Vec<u32> = Vec::new();
    let mut text = String::new();
    for code in 0..=0x10ffff_u32 {
        let c = match char::from_u32(code) {
            Some(c) => c,
            None => continue,
        };
        if c.is_ascii_hexdigit() {
            continue;
        }
        text.clear();
        text.push('4');
        text.push(c);
        text.push('1');
        if try_unhex(&text).is_some() {
            passed_over.push(code);
        }
    }
    let mut expected: Vec<u32> = vec![0x9, 0xa, 0xb, 0xc, 0xd, 0x20, 0x85, 0xa0, 0x1680];
    expected.extend(0x2000..=0x200a_u32);
    expected.extend([0x2028, 0x2029, 0x202f, 0x205f, 0x3000]);
    assert_eq!(passed_over, expected);
}

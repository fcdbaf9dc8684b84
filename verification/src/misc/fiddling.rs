//! Small encodings of bytes and text: hexadecimal, base64, UTF-8, URLs.

use crate::error::ErrorKind;
use crate::text::{hex, push_char, push_hex, utf8_text};
use regex::Regex;
use vstd::prelude::*;
use vstd::std_specs::iter::IteratorSpec;
use vstd::string::StrSliceExecFns;
use vstd::string::StringExecFns;
use vstd::string::StringSliceAdditionalSpecFns;
use vstd::utf8::{decode_utf8, encode_utf8, valid_utf8};

verus! {

/// The bytes of a string: its UTF-8 encoding.
pub fn to_bytes(string: &str) -> (bytes: Vec<u8>)
    ensures
        bytes@ == encode_utf8(string@),
{
    string.as_bytes_vec()
}

/// Each character of `url` as a percent sign and its code in lower-case
/// hexadecimal, without padding.
pub open spec fn url_encoded(url: Seq<char>) -> Seq<char>
    decreases url.len(),
{
    if url.len() == 0 {
        Seq::empty()
    } else {
        url_encoded(url.drop_last()) + seq!['%'] + hex(url.last() as nat)
    }
}

/// The code point of a character.
pub fn char_code(c: char) -> (code: u32)
    ensures
        code == c as nat,
        code <= 0x10FFFF,
{
    c as u32
}

/// URL-encodes every character of a string.
pub fn urlencode(url: &str) -> (encoded: String)
    ensures
        encoded@ == url_encoded(url@),
{
    broadcast use vstd::string::group_string_axioms;

    let mut encoded = String::new();
    let mut rest = url.chars();
    let ghost mut done: Seq<char> = Seq::empty();
    loop
        invariant
            rest.obeys_prophetic_iter_laws(),
            rest.decrease() is Some,
            url@ == done + rest.remaining(),
            encoded@ == url_encoded(done),
        ensures
            encoded@ == url_encoded(url@),
        decreases rest.decrease()->0,
    {
        match rest.next() {
            Some(c) => {
                proof {
                    reveal_strlit("%");
                    assert(done.push(c).drop_last() =~= done);
                }
                encoded.append("%");
                push_hex(&mut encoded, char_code(c) as usize);
                proof {
                    done = done.push(c);
                }
            },
            None => {
                break ;
            },
        }
    }
    encoded
}

/// The upper-case hexadecimal digit for a value below sixteen.
pub open spec fn upper_digit(d: nat) -> char {
    if d < 10 {
        (48 + d) as char
    } else {
        (55 + d) as char
    }
}

/// Each byte as two upper-case hexadecimal digits, high digit first.
pub open spec fn upper_hex(bytes: Seq<u8>) -> Seq<char>
    decreases bytes.len(),
{
    if bytes.len() == 0 {
        Seq::empty()
    } else {
        upper_hex(bytes.drop_last()) + seq![
            upper_digit(bytes.last() as nat / 16),
            upper_digit(bytes.last() as nat % 16),
        ]
    }
}

/// Encodes bytes as upper-case hexadecimal text.
///
/// Calls `hex::encode_upper`.  The contract claims what that function
/// documents: two upper-case digits per byte, the high digit first.
#[verifier::external_body]
pub fn enhex(bytes: &[u8]) -> (text: String)
    ensures
        text@ == upper_hex(bytes@),
{
    hex::encode_upper(bytes)
}

/// The value of a hexadecimal digit in either case, given as a byte.
pub open spec fn hex_value(b: u8) -> Option<u8> {
    if 48 <= b <= 57 {
        Some((b - 48) as u8)
    } else if 65 <= b <= 70 {
        Some((b - 55) as u8)
    } else if 97 <= b <= 102 {
        Some((b - 87) as u8)
    } else {
        None
    }
}

/// The bytes that hexadecimal text stands for: one for each pair of digits.
/// Text of odd length, or with a byte that is no digit, stands for nothing.
pub open spec fn hex_decoded(text: Seq<u8>) -> Option<Seq<u8>>
    decreases text.len(),
{
    if text.len() == 0 {
        Some(Seq::empty())
    } else if text.len() == 1 {
        None
    } else {
        match (
            hex_decoded(text.subrange(0, text.len() - 2)),
            hex_value(text[text.len() - 2]),
            hex_value(text[text.len() - 1]),
        ) {
            (Some(front), Some(high), Some(low)) => Some(front.push((16 * high + low) as u8)),
            _ => None,
        }
    }
}

/// Calls `hex::decode`, which reads two digits of either case per byte and
/// fails on text of odd length or with any other byte.
#[verifier::external_body]
fn hex_decode(text: &[u8]) -> (bytes: Option<Vec<u8>>)
    ensures
        match bytes {
            Some(b) => hex_decoded(text@) == Some(b@),
            None => hex_decoded(text@) is None,
        },
{
    hex::decode(text).ok()
}

/// The characters with the Unicode property `White_Space`: the controls
/// from tab to carriage return, the space, the next-line control, the
/// no-break spaces, the Ogham space mark, the spaces of fixed width, the
/// line and paragraph separators, and the ideographic space.
pub open spec fn white_space(c: char) -> bool {
    let code: u32 = c as u32;
    ||| 0x09 <= code <= 0x0d
    ||| code == 0x20
    ||| code == 0x85
    ||| code == 0xa0
    ||| code == 0x1680
    ||| 0x2000 <= code <= 0x200a
    ||| code == 0x2028
    ||| code == 0x2029
    ||| code == 0x202f
    ||| code == 0x205f
    ||| code == 0x3000
}

/// Calls `char::is_whitespace`, which tests the Unicode property
/// `White_Space`; the contract lists the characters that have it.
#[verifier::external_body]
fn is_whitespace(c: char) -> (b: bool)
    ensures
        b == white_space(c),
{
    c.is_whitespace()
}

/// The text without its white space.
pub open spec fn stripped(text: Seq<char>) -> Seq<char>
    decreases text.len(),
{
    if text.len() == 0 {
        Seq::empty()
    } else if white_space(text.last()) {
        stripped(text.drop_last())
    } else {
        stripped(text.drop_last()).push(text.last())
    }
}

/// The hexadecimal digits that a text holds, as bytes: its white space is
/// dropped, and a zero is put in front where the rest has odd length.
pub open spec fn hex_digits(text: Seq<char>) -> Seq<u8> {
    let digits = encode_utf8(stripped(text));
    if digits.len() % 2 != 0 {
        seq![48u8] + digits
    } else {
        digits
    }
}

fn read_hex_digits(hex_string: &str) -> (digits: Vec<u8>)
    ensures
        digits@ == hex_digits(hex_string@),
{
    broadcast use vstd::string::group_string_axioms;

    let mut kept = String::new();
    let mut rest = hex_string.chars();
    let ghost mut done: Seq<char> = Seq::empty();
    loop
        invariant
            rest.obeys_prophetic_iter_laws(),
            rest.decrease() is Some,
            hex_string@ == done + rest.remaining(),
            kept@ == stripped(done),
        ensures
            kept@ == stripped(hex_string@),
        decreases rest.decrease()->0,
    {
        match rest.next() {
            Some(c) => {
                proof {
                    assert(done.push(c).drop_last() =~= done);
                }
                if !is_whitespace(c) {
                    push_char(&mut kept, c);
                }
                proof {
                    done = done.push(c);
                }
            },
            None => {
                break ;
            },
        }
    }
    let mut digits = kept.as_str().as_bytes_vec();
    if digits.len() % 2 != 0 {
        digits.insert(0, 48);
    }
    digits
}

/// Decodes hexadecimal text, in either case, into bytes.  White space is
/// passed over, and text with an odd number of digits is read as if a zero
/// stood in front.  Whatever is left must be digits.
pub fn unhex(hex_string: &str) -> (bytes: Result<Vec<u8>, ErrorKind>)
    requires
        hex_decoded(hex_digits(hex_string@)) is Some,
    ensures
        bytes is Ok,
        bytes.unwrap()@ == hex_decoded(hex_digits(hex_string@)).unwrap(),
{
    let digits = read_hex_digits(hex_string);
    match hex_decode(digits.as_slice()) {
        Some(bytes) => Ok(bytes),
        None => Ok(Vec::new()),
    }
}

/// Decodes hexadecimal text like [`unhex`], where it consists of digits and
/// white space; `None` where it does not.
pub fn try_unhex(hex_string: &str) -> (bytes: Option<Vec<u8>>)
    ensures
        match bytes {
            Some(b) => hex_decoded(hex_digits(hex_string@)) == Some(b@),
            None => hex_decoded(hex_digits(hex_string@)) is None,
        },
{
    let digits = read_hex_digits(hex_string);
    match hex_decode(digits.as_slice()) {
        Some(_) => match unhex(hex_string) {
            Ok(bytes) => Some(bytes),
            Err(_) => None,
        },
        None => None,
    }
}

/// The standard base64 text of bytes, as `base64::encode` gives it.
pub uninterp spec fn base64_text(bytes: Seq<u8>) -> Seq<char>;

/// The bytes that `base64::decode` reads from a text, or `None` where it
/// refuses the text.
pub uninterp spec fn base64_bytes(text: Seq<char>) -> Option<Seq<u8>>;

/// Encodes bytes as base64 text.
///
/// Calls `base64::encode`, which encodes with the standard alphabet and
/// padding.  The contract names its result.
#[verifier::external_body]
pub fn base64enc(bytes: &[u8]) -> (text: String)
    ensures
        text@ == base64_text(bytes@),
{
    base64::encode(bytes)
}

/// Calls `base64::decode`.  The contract names its result, `None` standing
/// for a refusal.
#[verifier::external_body]
fn base64_decode(text: &str) -> (bytes: Option<Vec<u8>>)
    ensures
        match bytes {
            Some(b) => base64_bytes(text@) == Some(b@),
            None => base64_bytes(text@) is None,
        },
{
    base64::decode(text).ok()
}

/// Decodes base64 text into bytes.  The text must be valid base64.
pub fn base64dec(bytes: &str) -> (decoded: Result<Vec<u8>, ErrorKind>)
    requires
        base64_bytes(bytes@) is Some,
    ensures
        decoded is Ok,
        decoded.unwrap()@ == base64_bytes(bytes@).unwrap(),
{
    match base64_decode(bytes) {
        Some(decoded) => Ok(decoded),
        None => Ok(Vec::new()),
    }
}

/// Decodes base64 text like [`base64dec`], where the text is valid; `None`
/// where it is not.
pub fn try_base64dec(text: &str) -> (decoded: Option<Vec<u8>>)
    ensures
        match decoded {
            Some(d) => base64_bytes(text@) == Some(d@),
            None => base64_bytes(text@) is None,
        },
{
    match base64_decode(text) {
        Some(_) => match base64dec(text) {
            Ok(decoded) => Some(decoded),
            Err(_) => None,
        },
        None => None,
    }
}

/// Decodes UTF-8 bytes into a string.  The bytes must be valid UTF-8.
pub fn to_str(bytes: &[u8]) -> (text: Result<String, ErrorKind>)
    requires
        valid_utf8(bytes@),
    ensures
        text is Ok,
        text.unwrap()@ == decode_utf8(bytes@),
{
    match utf8_text(bytes) {
        Some(text) => Ok(text.to_owned()),
        None => Ok(String::new()),
    }
}

/// A hexadecimal digit in either case.
pub open spec fn hex_digit(c: char) -> bool {
    ('0' <= c <= '9') || ('a' <= c <= 'f') || ('A' <= c <= 'F')
}

/// Two hexadecimal digits stand at `i` in `text`.
pub open spec fn hex_pair_at(text: Seq<char>, i: int) -> bool {
    0 <= i && i + 2 <= text.len() && hex_digit(text[i]) && hex_digit(text[i + 1])
}

/// The text that the leftmost match of a pattern covers in a text, as
/// `regex::Regex::captures` finds it; `None` where the pattern does not
/// compile or matches nowhere.
pub uninterp spec fn regex_match(pattern: Seq<char>, text: Seq<char>) -> Option<Seq<char>>;

/// Compiles `pattern` with `regex::Regex::new`, calls `Regex::captures` on
/// `text` and takes the whole match.  The contract names the outcome.
#[verifier::external_body]
fn first_match(pattern: &str, text: &str) -> (found: Option<String>)
    ensures
        match found {
            Some(m) => regex_match(pattern@, text@) == Some(m@),
            None => regex_match(pattern@, text@) is None,
        },
{
    let check = Regex::new(pattern).ok()?;
    check.captures(text).map(|found| found.get(0).unwrap().as_str().to_string())
}

/// The pattern of two hexadecimal digits.
pub open spec fn hex_pair_pattern() -> Seq<char> {
    "[0-9a-fA-F]{2}"@
}

/// An escape stands at `from`: the two characters after the percent sign are
/// hexadecimal digits, and the pattern of two hexadecimal digits matches in
/// them.
pub open spec fn escaped_at(url: Seq<char>, from: int) -> bool {
    hex_pair_at(url, from + 1) && regex_match(
        hex_pair_pattern(),
        url.subrange(from + 1, from + 3),
    ) is Some
}

fn is_hex_byte(b: u8) -> (hex: bool)
    ensures
        hex == hex_digit(b as char),
{
    (b >= 48 && b <= 57) || (b >= 97 && b <= 102) || (b >= 65 && b <= 70)
}

/// The value of a hexadecimal digit in either case.
pub open spec fn digit_value(c: char) -> nat {
    if '0' <= c <= '9' {
        (c as nat - 48) as nat
    } else if 'a' <= c <= 'f' {
        (c as nat - 87) as nat
    } else {
        (c as nat - 55) as nat
    }
}

fn digit_of(b: u8) -> (v: u8)
    requires
        hex_digit(b as char),
    ensures
        v == digit_value(b as char),
        v < 16,
{
    if b >= 48 && b <= 57 {
        b - 48
    } else if b >= 97 && b <= 102 {
        b - 87
    } else {
        b - 55
    }
}

/// The decoding of `url` from index `from` on, appended to `decoded`: a
/// percent sign with the two hexadecimal digits after it stands for the
/// character of that code, any other character for itself.  A percent sign
/// that no such escape follows fails the decoding.
pub open spec fn url_decoded(decoded: Seq<char>, url: Seq<char>, from: int) -> Result<
    Seq<char>,
    ErrorKind,
>
    decreases url.len() - from,
{
    if from < 0 || from >= url.len() {
        Ok(decoded)
    } else if url[from] != '%' {
        url_decoded(decoded.push(url[from]), url, from + 1)
    } else if escaped_at(url, from) {
        url_decoded(
            decoded.push((16 * digit_value(url[from + 1]) + digit_value(url[from + 2])) as char),
            url,
            from + 3,
        )
    } else {
        Err(ErrorKind::InvalidUrlEncoding)
    }
}

/// Every percent sign that the decoding comes to has two characters after it.
pub open spec fn percent_complete(url: Seq<char>, from: int) -> bool
    decreases url.len() - from,
{
    if from < 0 || from >= url.len() {
        true
    } else if url[from] != '%' {
        percent_complete(url, from + 1)
    } else {
        from + 3 <= url.len() && (escaped_at(url, from) ==> percent_complete(url, from + 3))
    }
}

/// URL-decodes an ASCII string.
pub fn urldecode(url: &str) -> (decoded: Result<String, ErrorKind>)
    requires
        url.is_ascii(),
        percent_complete(url@, 0),
    ensures
        match decoded {
            Ok(d) => url_decoded(Seq::empty(), url@, 0) == Ok::<Seq<char>, ErrorKind>(d@),
            Err(e) => url_decoded(Seq::empty(), url@, 0) == Err::<Seq<char>, ErrorKind>(e),
        },
{
    broadcast use vstd::string::group_string_axioms;

    let mut url_decoded_text = String::new();
    let len = url.unicode_len();
    let mut n: usize = 0;
    while n < len
        invariant
            n <= len,
            len == url@.len(),
            url.is_ascii(),
            percent_complete(url@, n as int),
            url_decoded(Seq::empty(), url@, 0) == url_decoded(url_decoded_text@, url@, n as int),
        decreases len - n,
    {
        let b = url.get_ascii(n);
        if b != 37 {
            push_char(&mut url_decoded_text, b as char);
            n += 1;
        } else {
            let cur = url.substring_ascii(n + 1, n + 3);
            let matched = first_match("[0-9a-fA-F]{2}", cur).is_some();
            let first = url.get_ascii(n + 1);
            let second = url.get_ascii(n + 2);
            if matched && is_hex_byte(first) && is_hex_byte(second) {
                let e: u8 = digit_of(first) * 16 + digit_of(second);
                push_char(&mut url_decoded_text, e as char);
                n += 3;
            } else {
                return Err(ErrorKind::InvalidUrlEncoding);
            }
        }
    }
    Ok(url_decoded_text)
}

} // verus!

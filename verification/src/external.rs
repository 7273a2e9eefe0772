//! The calls this library makes into std functions and outside crates that carry no
//! specification of their own, each with the contract that the library relies on.

use vstd::prelude::*;
use vstd::string::StringSliceAdditionalSpecFns;
use vstd::utf8::valid_utf8;

verus! {

/// The error `std::str::from_utf8` reports.
#[verifier::external_type_specification]
#[verifier::external_body]
pub struct ExUtf8Error(std::str::Utf8Error);

/// What `str::to_lowercase` makes of a string: the Unicode lowercase mapping of each
/// character.
pub uninterp spec fn lowercase(s: Seq<char>) -> Seq<char>;

/// Calls `std::str::from_utf8`: it succeeds exactly on valid UTF-8, and then the string
/// holds the very same bytes.
#[verifier::external_body]
pub(crate) fn str_from_utf8(v: &[u8]) -> (r: Result<&str, std::str::Utf8Error>)
    ensures
        r is Ok <==> valid_utf8(v@),
        r matches Ok(s) ==> s.spec_bytes() == v@,
{
    std::str::from_utf8(v)
}

/// Whether every character of a text is ASCII.
pub open spec fn ascii_text(s: Seq<char>) -> bool {
    forall|i: int| 0 <= i < s.len() ==> (#[trigger] s[i] as u32) < 128
}

/// A character with `A` to `Z` mapped to `a` to `z`.
pub open spec fn ascii_lower_char(c: char) -> char {
    if 'A' <= c && c <= 'Z' {
        ((c as u32) + 32) as char
    } else {
        c
    }
}

/// A text with each character put through [ascii_lower_char].
pub open spec fn ascii_lower(s: Seq<char>) -> Seq<char> {
    s.map_values(|c: char| ascii_lower_char(c))
}

/// A text lowercased: ASCII text by [ascii_lower], any other by [lowercase].
pub open spec fn lowered(s: Seq<char>) -> Seq<char> {
    if ascii_text(s) {
        ascii_lower(s)
    } else {
        lowercase(s)
    }
}

/// Calls `str::to_lowercase`; the result is named [lowercase]. Of an ASCII text it is the
/// text with `A` to `Z` mapped to `a` to `z`.
#[verifier::external_body]
pub(crate) fn str_to_lowercase(s: &str) -> (r: String)
    ensures
        r@ == lowercase(s@),
        ascii_text(s@) ==> r@ == ascii_lower(s@),
{
    s.to_lowercase()
}

/// The error `hex::decode` reports.
#[verifier::external_type_specification]
#[verifier::external_body]
pub struct ExFromHexError(hex::FromHexError);

/// The value of one hexadecimal digit, either case; `None` for any other byte.
pub open spec fn hex_digit_value(c: u8) -> Option<u8> {
    if 48 <= c <= 57 {
        Some((c - 48) as u8)
    } else if 65 <= c <= 70 {
        Some((c - 55) as u8)
    } else if 97 <= c <= 102 {
        Some((c - 87) as u8)
    } else {
        None
    }
}

/// Whether every byte of `s` is a hexadecimal digit.
pub open spec fn all_hex_digits(s: Seq<u8>) -> bool {
    forall|i: int| 0 <= i < s.len() ==> (#[trigger] hex_digit_value(s[i])) is Some
}

/// The bytes that a string of hexadecimal digit pairs spells out.
pub open spec fn hex_decoded(s: Seq<u8>) -> Seq<u8> {
    Seq::new(
        s.len() / 2,
        |i: int|
            (hex_digit_value(s[2 * i])->0 * 16 + hex_digit_value(s[2 * i + 1])->0) as u8,
    )
}

/// Calls `hex::decode`: it succeeds exactly when the input has an even number of bytes,
/// all of them hexadecimal digits of either case, and then each pair of digits, high
/// digit first, gives one byte.
#[verifier::external_body]
pub(crate) fn hex_decode(data: &str) -> (r: Result<Vec<u8>, hex::FromHexError>)
    ensures
        r is Ok <==> (data.spec_bytes().len() % 2 == 0 && all_hex_digits(data.spec_bytes())),
        r matches Ok(v) ==> v@ == hex_decoded(data.spec_bytes()),
{
    hex::decode(data)
}

/// Whether a character is an ASCII decimal digit.
pub open spec fn is_decimal_digit(c: char) -> bool {
    '0' <= c && c <= '9'
}

/// The number that a string of decimal digits denotes.
pub open spec fn decimal_value(s: Seq<char>) -> int
    decreases s.len(),
{
    if s.len() == 0 {
        0
    } else {
        decimal_value(s.drop_last()) * 10 + (s.last() as int - '0' as int)
    }
}

/// The value of an unsigned decimal numeral: an optional `+` followed by at least one
/// decimal digit and nothing else.
pub open spec fn unsigned_numeral(s: Seq<char>) -> Option<int> {
    let digits = if s.len() > 0 && s[0] == '+' {
        s.drop_first()
    } else {
        s
    };
    if digits.len() > 0 && forall|i: int| 0 <= i < digits.len() ==> is_decimal_digit(#[trigger] digits[i]) {
        Some(decimal_value(digits))
    } else {
        None
    }
}

/// The error the integer parsers of std report.
#[verifier::external_type_specification]
#[verifier::external_body]
pub struct ExParseIntError(std::num::ParseIntError);

/// Calls `u16::from_str`: an unsigned decimal numeral (see [unsigned_numeral]) whose
/// value fits in 16 bits.
#[verifier::external_body]
pub(crate) fn parse_u16(s: &str) -> (r: Result<u16, std::num::ParseIntError>)
    ensures
        r is Ok <==> (unsigned_numeral(s@) matches Some(v) && v <= u16::MAX),
        r matches Ok(v) ==> unsigned_numeral(s@) == Some(v as int),
{
    <u16 as std::str::FromStr>::from_str(s)
}

/// Calls `u8::from_str`: an unsigned decimal numeral (see [unsigned_numeral]) whose
/// value fits in 8 bits.
#[verifier::external_body]
pub(crate) fn parse_u8(s: &str) -> (r: Result<u8, std::num::ParseIntError>)
    ensures
        r is Ok <==> (unsigned_numeral(s@) matches Some(v) && v <= u8::MAX),
        r matches Ok(v) ==> unsigned_numeral(s@) == Some(v as int),
{
    <u8 as std::str::FromStr>::from_str(s)
}

/// Calls `String::push`: the character is appended.
#[verifier::external_body]
pub(crate) fn string_push(s: &mut String, c: char)
    ensures
        final(s)@ == old(s)@.push(c),
{
    s.push(c)
}

/// A compiled `regex::Regex`.
#[verifier::external_type_specification]
#[verifier::external_body]
pub struct ExRegex(regex::Regex);

/// The error `regex::Regex::new` reports.
#[verifier::external_type_specification]
#[verifier::external_body]
pub struct ExRegexError(regex::Error);

/// Whether `regex::Regex::new` accepts the pattern (with its default size limits).
pub uninterp spec fn regex_compiles(pattern: Seq<char>) -> bool;

/// Calls `regex::Regex::new`; whether the pattern compiles is named [regex_compiles].
#[verifier::external_body]
pub(crate) fn regex_new(pattern: &str) -> (r: Result<regex::Regex, regex::Error>)
    ensures
        r is Ok <==> regex_compiles(pattern@),
{
    regex::Regex::new(pattern)
}

/// Whether the regular expression `pattern` matches anywhere in `text`, as
/// `regex::Regex::is_match` decides it.
pub uninterp spec fn regex_matches(pattern: Seq<char>, text: Seq<char>) -> bool;

/// The text of the named capture group `group` in the leftmost-first match of `pattern`
/// in `text`, as `regex::Regex::captures` finds it; `None` when there is no match or the
/// group took no part in it.
pub uninterp spec fn regex_group(pattern: Seq<char>, text: Seq<char>, group: Seq<char>) -> Option<
    Seq<char>,
>;

/// Calls `Regex::is_match` on the pattern's compiled regex; the outcome is named
/// [regex_matches], over the text the pattern was compiled from.
#[verifier::external_body]
pub(crate) fn pattern_is_match(p: &crate::pattern::Pattern, text: &str) -> (r: bool)
    ensures
        r == regex_matches(p.source(), text@),
{
    p.compiled().is_match(text)
}

/// Calls `Regex::captures` on the pattern's compiled regex and takes the text of the
/// named group out of the result; the outcome is named [regex_group].
#[verifier::external_body]
pub(crate) fn pattern_group(p: &crate::pattern::Pattern, text: &str, group: &str) -> (r: Option<String>)
    ensures
        match regex_group(p.source(), text@, group@) {
            Some(g) => r matches Some(x) && x@ == g,
            None => r is None,
        },
{
    match p.compiled().captures(text) {
        Some(caps) => match caps.name(group) {
            Some(m) => Some(m.as_str().to_string()),
            None => None,
        },
        None => None,
    }
}

} // verus!

//! Text conversions of `std` that vstd gives no specification.

use std::string::FromUtf8Error;
use vstd::prelude::*;
use vstd::utf8::*;

verus! {

/// `std::string::FromUtf8Error`, returned when bytes are not UTF-8.
#[verifier::external_type_specification]
#[verifier::external_body]
pub struct ExFromUtf8Error(FromUtf8Error);

/// `String::from_utf8`: succeeds exactly on well-formed UTF-8, and then holds
/// the characters that the bytes encode.
#[verifier::external_body]
pub(crate) fn string_from_utf8(bytes: Vec<u8>) -> (r: Result<String, FromUtf8Error>)
    ensures
        r is Ok <==> valid_utf8(bytes@),
        r matches Ok(s) ==> s@ == decode_utf8(bytes@),
{
    String::from_utf8(bytes)
}

/// `std::str::from_utf8`: a view of the bytes as text exactly when they are
/// well-formed UTF-8.
#[verifier::external_body]
pub(crate) fn str_from_utf8(bytes: &[u8]) -> (r: Option<&str>)
    ensures
        r is Some <==> valid_utf8(bytes@),
        r matches Some(s) ==> s@ == decode_utf8(bytes@),
{
    std::str::from_utf8(bytes).ok()
}

/// The text that `String::from_utf8_lossy` makes of a byte sequence: each
/// ill-formed part becomes U+FFFD.
pub uninterp spec fn utf8_lossy(bytes: Seq<u8>) -> Seq<char>;

/// `String::from_utf8_lossy`, made owned.
#[verifier::external_body]
pub(crate) fn string_from_utf8_lossy(bytes: &[u8]) -> (r: String)
    ensures
        r@ == utf8_lossy(bytes@),
        valid_utf8(bytes@) ==> r@ == decode_utf8(bytes@),
{
    String::from_utf8_lossy(bytes).into_owned()
}

} // verus!

verus! {

/// The text that `<str as Debug>::fmt` makes of a string: the characters in
/// double quotes, with quotes, backslashes, control and unprintable
/// characters escaped.
pub uninterp spec fn str_debug(s: Seq<char>) -> Seq<char>;

/// A character that `<str as Debug>::fmt` writes as it is: printable ASCII
/// other than the double quote, the backslash and the single quote.
pub open spec fn debug_plain_char(c: char) -> bool {
    ' ' <= c <= '~' && c != '"' && c != '\\' && c != '\''
}

/// `format!("{:?}", s)` for a string. Where every character is plain
/// printable ASCII, the result is the text in double quotes.
#[verifier::external_body]
pub(crate) fn str_debug_string(s: &str) -> (r: String)
    ensures
        r@ == str_debug(s@),
        (forall|i: int| 0 <= i < s@.len() ==> debug_plain_char(#[trigger] s@[i])) ==> r@ == "\""@
            + s@ + "\""@,
{
    format!("{:?}", s)
}

} // verus!

verus! {

/// `String::from_iter` over characters: the string of exactly these
/// characters, in order.
#[verifier::external_body]
pub(crate) fn string_from_chars(chars: &[char]) -> (r: String)
    ensures
        r@ == chars@,
{
    chars.iter().collect::<String>()
}

/// The text that `str::to_lowercase` makes of a string, by the Unicode
/// `Lowercase` mapping.
pub uninterp spec fn lowercase_text(s: Seq<char>) -> Seq<char>;

/// ASCII lowercase of one character.
pub open spec fn ascii_lower(c: char) -> char {
    if 'A' <= c <= 'Z' {
        ((c as u32) + 32) as char
    } else {
        c
    }
}

/// `str::to_lowercase`. On ASCII text it lowers `A`..`Z` and leaves every
/// other character as it is.
#[verifier::external_body]
pub(crate) fn str_to_lowercase(s: &str) -> (r: String)
    ensures
        r@ == lowercase_text(s@),
        (forall|i: int| 0 <= i < s@.len() ==> (#[trigger] s@[i]) <= '\u{7f}') ==> r@ == s@.map_values(
            |c: char| ascii_lower(c),
        ),
{
    s.to_lowercase()
}

} // verus!

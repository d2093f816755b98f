//! The standard library's text functions that the engine relies on.
//!
//! Each function here makes one call into `std` and states what that call
//! returns. These contracts are taken on trust; everything else in the crate
//! is proved from them.

use vstd::prelude::*;
use vstd::utf8::*;

verus! {

/// The text that `String::from_utf8_lossy` produces for `bytes`.
pub uninterp spec fn lossy_text(bytes: Seq<u8>) -> Seq<char>;

/// The text of a line that holds `bytes`: the characters that the bytes
/// encode where they are well-formed UTF-8, else what lossy decoding makes
/// of them.
pub open spec fn line_text(bytes: Seq<u8>) -> Seq<char> {
    if valid_utf8(bytes) {
        decode_utf8(bytes)
    } else {
        lossy_text(bytes)
    }
}

/// The text that `str::to_lowercase` produces for `text`.
pub uninterp spec fn lowercase_text(text: Seq<char>) -> Seq<char>;

/// `c` is white space: one of the characters with the Unicode property
/// White_Space.
pub open spec fn is_white_space(c: char) -> bool {
    let n = c as u32;
    ||| 0x09 <= n <= 0x0d
    ||| n == 0x20
    ||| n == 0x85
    ||| n == 0xa0
    ||| n == 0x1680
    ||| 0x2000 <= n <= 0x200a
    ||| n == 0x2028
    ||| n == 0x2029
    ||| n == 0x202f
    ||| n == 0x205f
    ||| n == 0x3000
}

/// `text` without the white space at its start.
pub open spec fn without_leading_space(text: Seq<char>) -> Seq<char>
    decreases text.len(),
{
    if text.len() > 0 && is_white_space(text[0]) {
        without_leading_space(text.drop_first())
    } else {
        text
    }
}

/// `text` without the white space at its end.
pub open spec fn without_trailing_space(text: Seq<char>) -> Seq<char>
    decreases text.len(),
{
    if text.len() > 0 && is_white_space(text.last()) {
        without_trailing_space(text.drop_last())
    } else {
        text
    }
}

/// `text` without the white space at its start and at its end.
pub open spec fn trimmed_text(text: Seq<char>) -> Seq<char> {
    without_trailing_space(without_leading_space(text))
}

/// `needle` occurs in `hay` as a contiguous run of characters.
pub open spec fn is_substring(needle: Seq<char>, hay: Seq<char>) -> bool {
    exists|i: int|
        0 <= i && i + needle.len() <= hay.len() && #[trigger] hay.subrange(
            i,
            i + needle.len(),
        ) == needle
}

/// `c` with an ASCII capital letter made small.
pub open spec fn ascii_lower(c: char) -> char {
    if 'A' <= c <= 'Z' {
        ((c as u32) + 32) as char
    } else {
        c
    }
}

/// `a` and `b` are equal but for the case of ASCII letters.
pub open spec fn same_ignoring_ascii_case(a: Seq<char>, b: Seq<char>) -> bool {
    &&& a.len() == b.len()
    &&& forall|i: int| 0 <= i < a.len() ==> ascii_lower(#[trigger] a[i]) == ascii_lower(b[i])
}

/// The character of the decimal digit `d`.
pub open spec fn digit_char(d: nat) -> char {
    ((48 + d) as u8) as char
}

/// `n` written in decimal digits.
pub open spec fn decimal_text(n: nat) -> Seq<char>
    decreases n,
{
    if n < 10 {
        seq![digit_char(n)]
    } else {
        decimal_text(n / 10).push(digit_char(n % 10))
    }
}

/// `text` without the characters `c` at its end.
pub open spec fn without_trailing(text: Seq<char>, c: char) -> Seq<char>
    decreases text.len(),
{
    if text.len() > 0 && text.last() == c {
        without_trailing(text.drop_last(), c)
    } else {
        text
    }
}

/// Decodes `bytes` with `String::from_utf8_lossy`.
///
/// Trusted: the result is a function of the bytes alone, and well-formed
/// UTF-8 decodes to exactly the characters it encodes.
#[verifier::external_body]
pub(crate) fn decode_lossy(bytes: &[u8]) -> (text: String)
    ensures
        text@ == lossy_text(bytes@),
        valid_utf8(bytes@) ==> text@ == decode_utf8(bytes@),
{
    String::from_utf8_lossy(bytes).into_owned()
}

/// Decodes `bytes` with `String::from_utf8`.
///
/// Trusted: the call succeeds exactly on well-formed UTF-8 and then yields
/// the characters that the bytes encode.
#[verifier::external_body]
pub(crate) fn decode_strict(bytes: Vec<u8>) -> (text: Option<String>)
    ensures
        text is Some <==> valid_utf8(bytes@),
        text is Some ==> text->0@ == decode_utf8(bytes@),
{
    String::from_utf8(bytes).ok()
}

/// Lowercases `text` with `str::to_lowercase`.
///
/// Trusted: the result is a function of the text alone, and the empty text
/// stays empty.
#[verifier::external_body]
pub(crate) fn to_lowercase(text: &str) -> (lower: String)
    ensures
        lower@ == lowercase_text(text@),
        text@.len() == 0 ==> lower@.len() == 0,
{
    text.to_lowercase()
}

/// Strips leading and trailing whitespace with `str::trim`.
///
/// Trusted: the result is the text without the characters of the Unicode
/// property White_Space at its start and at its end.
#[verifier::external_body]
pub(crate) fn trim(text: &str) -> (inner: &str)
    ensures
        inner@ == trimmed_text(text@),
{
    text.trim()
}

/// Substring test with `str::contains`.
///
/// Trusted: the call reports whether `needle` occurs in `hay`.
#[verifier::external_body]
pub(crate) fn contains(hay: &str, needle: &str) -> (found: bool)
    ensures
        found == is_substring(needle@, hay@),
{
    hay.contains(needle)
}

/// Compares two texts with `str::eq_ignore_ascii_case`.
///
/// Trusted: the call reports whether the texts are equal once the ASCII
/// capital letters of both are made small.
#[verifier::external_body]
pub(crate) fn eq_ignore_ascii_case(a: &str, b: &str) -> (same: bool)
    ensures
        same == same_ignoring_ascii_case(a@, b@),
{
    a.eq_ignore_ascii_case(b)
}

/// Compares two texts with `==` on `str`.
///
/// Trusted: the call reports whether both hold the same characters.
#[verifier::external_body]
pub(crate) fn str_eq(a: &str, b: &str) -> (same: bool)
    ensures
        same == (a@ == b@),
{
    a == b
}

/// Tests the first character with `str::starts_with`.
///
/// Trusted: the call reports whether the text is not empty and starts with
/// `c`.
#[verifier::external_body]
pub(crate) fn starts_with_char(text: &str, c: char) -> (starts: bool)
    ensures
        starts == (text@.len() > 0 && text@[0] == c),
{
    text.starts_with(c)
}

/// Strips a repeated character from the end with `str::trim_end_matches`.
///
/// Trusted: the result is the text without the run of `c` at its end.
#[verifier::external_body]
pub(crate) fn trim_end_matches_char(text: &str, c: char) -> (inner: &str)
    ensures
        inner@ == without_trailing(text@, c),
{
    text.trim_end_matches(c)
}

/// Writes a number in decimal with `u64::to_string`.
///
/// Trusted: the result holds the decimal digits of `n`, without sign or
/// leading zeros.
#[verifier::external_body]
pub(crate) fn decimal_string(n: u64) -> (digits: String)
    ensures
        digits@ == decimal_text(n as nat),
{
    n.to_string()
}

/// Appends a character with `String::push`.
///
/// Trusted: afterwards the text is what it was, followed by `c`.
#[verifier::external_body]
pub(crate) fn push_char(text: &mut String, c: char)
    ensures
        final(text)@ == old(text)@.push(c),
{
    text.push(c)
}

} // verus!

//! The encodings that the proxies borrow from other crates: base64, SHA-1,
//! percent-encoding and UTF-8.

use base64::engine::general_purpose::STANDARD;
use base64::Engine;
use sha1::{Digest, Sha1};
use vstd::prelude::*;
use vstd::utf8::{decode_utf8, valid_utf8};

verus! {

/// What the standard base64 engine, with padding, decodes the input to; `None`
/// where the engine refuses the input.
pub uninterp spec fn base64_decoded(input: Seq<u8>) -> Option<Seq<u8>>;

/// The text that the standard base64 engine, with padding, encodes the input
/// to.
pub uninterp spec fn base64_encoded(input: Seq<u8>) -> Seq<char>;

/// The SHA-1 digest of the input.
pub uninterp spec fn sha1_digest(input: Seq<u8>) -> Seq<u8>;

/// The characters that Unicode counts as white space.
pub open spec fn is_white_space(c: char) -> bool {
    let n = c as u32;
    (0x09 <= n && n <= 0x0d) || n == 0x20 || n == 0x85 || n == 0xa0 || n == 0x1680 || (0x2000 <= n
        && n <= 0x200a) || n == 0x2028 || n == 0x2029 || n == 0x202f || n == 0x205f || n == 0x3000
}

/// The number of white-space characters that `s` begins with.
pub open spec fn white_lead(s: Seq<char>) -> nat
    decreases s.len(),
{
    if s.len() > 0 && is_white_space(s[0]) {
        1 + white_lead(s.drop_first())
    } else {
        0
    }
}

/// The number of white-space characters that `s` ends with.
pub open spec fn white_tail(s: Seq<char>) -> nat
    decreases s.len(),
{
    if s.len() > 0 && is_white_space(s.last()) {
        1 + white_tail(s.drop_last())
    } else {
        0
    }
}

/// The text without the white space, as Unicode defines it, at its two ends.
pub open spec fn unicode_trimmed(text: Seq<char>) -> Seq<char> {
    let rest = text.skip(white_lead(text) as int);
    rest.take(rest.len() - white_tail(rest))
}

/// The text in lower case, as Unicode defines it.
pub uninterp spec fn unicode_lowercase(text: Seq<char>) -> Seq<char>;

/// The value of a hexadecimal digit of either case, as a byte.
pub open spec fn hex_byte(b: u8) -> Option<u8> {
    if 48 <= b && b <= 57 {
        Some((b - 48) as u8)
    } else if 97 <= b && b <= 102 {
        Some((b - 87) as u8)
    } else if 65 <= b && b <= 70 {
        Some((b - 55) as u8)
    } else {
        None
    }
}

/// The bytes with every `%` that two hexadecimal digits follow replaced,
/// together with the digits, by the byte that the digits spell. Every other
/// byte, a `%` without two such digits too, stands as it is.
pub open spec fn percent_decoded(input: Seq<u8>) -> Seq<u8>
    decreases input.len(),
{
    if input.len() == 0 {
        input
    } else if input[0] == 37 && input.len() >= 3 && hex_byte(input[1]) is Some && hex_byte(
        input[2],
    ) is Some {
        seq![(hex_byte(input[1])->0 * 16 + hex_byte(input[2])->0) as u8] + percent_decoded(
            input.skip(3),
        )
    } else {
        seq![input[0]] + percent_decoded(input.skip(1))
    }
}

/// Decodes with `base64::engine::general_purpose::STANDARD.decode`. The
/// outcome is a function of the input bytes alone.
#[verifier::external_body]
pub(crate) fn base64_decode(input: &Vec<u8>) -> (r: Option<Vec<u8>>)
    ensures
        match r {
            Some(bytes) => base64_decoded(input@) == Some(bytes@),
            None => base64_decoded(input@) is None,
        },
{
    STANDARD.decode(input).ok()
}

/// Encodes with `base64::engine::general_purpose::STANDARD.encode`. The
/// outcome is a function of the input bytes alone.
#[verifier::external_body]
pub(crate) fn base64_encode(input: &Vec<u8>) -> (r: String)
    ensures
        r@ == base64_encoded(input@),
{
    STANDARD.encode(input)
}

/// Hashes with `Sha1::digest`. The outcome is a function of the input bytes
/// alone.
#[verifier::external_body]
pub(crate) fn sha1(input: &Vec<u8>) -> (r: Vec<u8>)
    ensures
        r@ == sha1_digest(input@),
{
    Sha1::digest(input).to_vec()
}

/// Decodes with `percent_encoding::percent_decode`, which replaces each `%`
/// that two hexadecimal digits follow and leaves everything else alone.
#[verifier::external_body]
pub(crate) fn percent_decode(input: &Vec<u8>) -> (r: Vec<u8>)
    ensures
        r@ == percent_decoded(input@),
{
    percent_encoding::percent_decode(input).collect()
}

/// `String::from_utf8` turns bytes into the text they encode, and refuses
/// bytes that are not UTF-8.
#[verifier::external_body]
pub(crate) fn utf8_text(bytes: Vec<u8>) -> (r: Option<String>)
    ensures
        match r {
            Some(text) => valid_utf8(bytes@) && text@ == decode_utf8(bytes@),
            None => !valid_utf8(bytes@),
        },
{
    String::from_utf8(bytes).ok()
}

/// `str::trim` takes the white space off the two ends of a text. White space
/// is what the Unicode property `White_Space` holds of.
#[verifier::external_body]
pub(crate) fn trim_text(text: &str) -> (r: &str)
    ensures
        r@ == unicode_trimmed(text@),
{
    text.trim()
}

/// `str::to_lowercase` gives the lower-case equivalent of a text, as Unicode
/// defines it.
#[verifier::external_body]
pub(crate) fn lowercase_text(text: &str) -> (r: String)
    ensures
        r@ == unicode_lowercase(text@),
{
    text.to_lowercase()
}

} // verus!

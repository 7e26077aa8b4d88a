//! Windows-1252 decoding and Unicode case folding of plugin strings.

use vstd::prelude::*;

verus! {

/// The character that the windows-1252 encoding assigns to byte `b`.
/// Bytes below 0x80 are ASCII; bytes from 0xA0 up map to the Unicode code
/// point of the same value; the bytes in between follow the windows-1252
/// table, under which every byte has a mapping.
pub open spec fn win1252_char(b: u8) -> char {
    if b < 0x80 || b >= 0xA0 {
        b as char
    } else if b == 0x80 {
        '\u{20AC}'
    } else if b == 0x82 {
        '\u{201A}'
    } else if b == 0x83 {
        '\u{0192}'
    } else if b == 0x84 {
        '\u{201E}'
    } else if b == 0x85 {
        '\u{2026}'
    } else if b == 0x86 {
        '\u{2020}'
    } else if b == 0x87 {
        '\u{2021}'
    } else if b == 0x88 {
        '\u{02C6}'
    } else if b == 0x89 {
        '\u{2030}'
    } else if b == 0x8A {
        '\u{0160}'
    } else if b == 0x8B {
        '\u{2039}'
    } else if b == 0x8C {
        '\u{0152}'
    } else if b == 0x8E {
        '\u{017D}'
    } else if b == 0x91 {
        '\u{2018}'
    } else if b == 0x92 {
        '\u{2019}'
    } else if b == 0x93 {
        '\u{201C}'
    } else if b == 0x94 {
        '\u{201D}'
    } else if b == 0x95 {
        '\u{2022}'
    } else if b == 0x96 {
        '\u{2013}'
    } else if b == 0x97 {
        '\u{2014}'
    } else if b == 0x98 {
        '\u{02DC}'
    } else if b == 0x99 {
        '\u{2122}'
    } else if b == 0x9A {
        '\u{0161}'
    } else if b == 0x9B {
        '\u{203A}'
    } else if b == 0x9C {
        '\u{0153}'
    } else if b == 0x9E {
        '\u{017E}'
    } else if b == 0x9F {
        '\u{0178}'
    } else {
        // 0x81, 0x8D, 0x8F, 0x90 and 0x9D map to the code point of the
        // same value, like the bytes from 0xA0 up.
        b as char
    }
}

/// The text that the windows-1252 encoding assigns to a byte string.
pub open spec fn win1252_seq(s: Seq<u8>) -> Seq<char> {
    s.map_values(|b: u8| win1252_char(b))
}

/// Relies on encoding_rs's WINDOWS_1252 decoder: it maps each byte to the
/// character that the windows-1252 table assigns to it, and it never fails,
/// because that table has a mapping for every byte.
#[verifier::external_body]
pub(crate) fn decode_windows_1252(bytes: &[u8]) -> (r: Option<String>)
    ensures
        r is Some,
        r matches Some(s) ==> s@ == win1252_seq(bytes@),
{
    encoding_rs::WINDOWS_1252.decode_without_bom_handling_and_without_replacement(bytes).map(
        |s| s.into_owned(),
    )
}

/// The UTF-8 bytes of the Unicode case folding of a text, as
/// UniCase::to_folded_case computes it.
pub uninterp spec fn fold_key_of(s: Seq<char>) -> Seq<u8>;

/// Relies on UniCase::to_folded_case: it maps each character of the text to
/// its Unicode case folding, a function of the characters alone, so that two
/// texts differing only in letter case fold to the same result. The folded
/// text is returned as its UTF-8 bytes.
#[verifier::external_body]
pub(crate) fn fold_case(s: &str) -> (r: Vec<u8>)
    ensures
        r@ == fold_key_of(s@),
{
    unicase::UniCase::new(s).to_folded_case().into_bytes()
}

} // verus!

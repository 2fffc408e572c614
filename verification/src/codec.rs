//! Text encodings of byte strings: lowercase hexadecimal (the `hex` crate),
//! standard padded Base64 (the `base64` crate) and UTF-8 decoding.

use vstd::prelude::*;
use base64::Engine as _;
use vstd::utf8::{valid_utf8, decode_utf8};

verus! {

/// The character that stands for a nibble (`0..16`) in lowercase hex.
pub open spec fn hex_digit(n: int) -> char {
    if n < 10 {
        (48 + n) as char
    } else {
        (87 + n) as char
    }
}

/// Lowercase hex encoding: two characters per byte, high nibble first.
pub open spec fn hex_encode_spec(bytes: Seq<u8>) -> Seq<char>
    decreases bytes.len(),
{
    if bytes.len() == 0 {
        Seq::empty()
    } else {
        seq![hex_digit(bytes[0] as int / 16), hex_digit(bytes[0] as int % 16)] + hex_encode_spec(
            bytes.drop_first(),
        )
    }
}

/// Hex encoding gives two characters per byte.
pub proof fn lemma_hex_encode_len(bytes: Seq<u8>)
    ensures
        hex_encode_spec(bytes).len() == 2 * bytes.len(),
    decreases bytes.len(),
{
    if bytes.len() > 0 {
        lemma_hex_encode_len(bytes.drop_first());
    }
}

/// A hex digit in either case.
pub open spec fn is_hex_char(c: char) -> bool {
    ('0' <= c && c <= '9') || ('a' <= c && c <= 'f') || ('A' <= c && c <= 'F')
}

/// The value of a hex digit.
pub open spec fn hex_value(c: char) -> int {
    if '0' <= c && c <= '9' {
        c as int - 48
    } else if 'a' <= c && c <= 'f' {
        c as int - 87
    } else {
        c as int - 55
    }
}

/// Hex decoding: defined exactly when the text has an even number of
/// characters, all of them hex digits (either case); each pair gives a byte.
pub open spec fn hex_decode_spec(s: Seq<char>) -> Option<Seq<u8>> {
    if s.len() % 2 == 0 && forall|i: int| 0 <= i < s.len() ==> #[trigger] is_hex_char(s[i]) {
        Some(Seq::new((s.len() / 2) as nat, |i: int| (hex_value(s[2 * i]) * 16 + hex_value(s[2 * i + 1])) as u8))
    } else {
        None
    }
}

/// Calls `hex::encode`: lowercase hex of `bytes`, as the crate's
/// documentation and source (`HEX_CHARS_LOWER`, high nibble first) show.
#[verifier::external_body]
pub(crate) fn hex_encode(bytes: &[u8]) -> (s: String)
    ensures
        s@ == hex_encode_spec(bytes@),
{
    hex::encode(bytes)
}

/// Calls `hex::decode` on the UTF-8 bytes of `s`: the crate accepts an even
/// number of hex digits in either case and fails on anything else (odd length
/// or a byte that is not a hex digit; a non-ASCII character is never one).
#[verifier::external_body]
pub(crate) fn hex_decode(s: &str) -> (r: Option<Vec<u8>>)
    ensures
        match r {
            Some(v) => hex_decode_spec(s@) == Some(v@),
            None => hex_decode_spec(s@) is None,
        },
{
    hex::decode(s).ok()
}

/// What `base64::engine::general_purpose::STANDARD.encode` gives for a
/// byte string (RFC 4648 alphabet, `=` padding).
pub uninterp spec fn base64_encode_spec(bytes: Seq<u8>) -> Seq<char>;

/// What `base64::engine::general_purpose::STANDARD.decode` gives for the
/// UTF-8 bytes of a text: the decoded bytes, or `None` when it reports an error.
pub uninterp spec fn base64_decode_spec(text: Seq<char>) -> Option<Seq<u8>>;

/// Calls `STANDARD.encode`. The crate panics when the encoded length overflows
/// `usize`, which the bound on the input excludes.
#[verifier::external_body]
pub(crate) fn base64_encode(bytes: &[u8]) -> (s: String)
    requires
        bytes@.len() <= usize::MAX / 2,
    ensures
        s@ == base64_encode_spec(bytes@),
{
    base64::engine::general_purpose::STANDARD.encode(bytes)
}

/// Calls `STANDARD.decode`. Besides naming its result, states the documented
/// round trip: decoding what `STANDARD.encode` produced gives the bytes back.
#[verifier::external_body]
pub(crate) fn base64_decode(text: &str) -> (r: Option<Vec<u8>>)
    ensures
        match r {
            Some(v) => base64_decode_spec(text@) == Some(v@)
                && forall|b: Seq<u8>| text@ == #[trigger] base64_encode_spec(b) ==> v@ == b,
            None => base64_decode_spec(text@) is None
                && forall|b: Seq<u8>| text@ != #[trigger] base64_encode_spec(b),
        },
{
    base64::engine::general_purpose::STANDARD.decode(text).ok()
}

/// Calls `String::from_utf8`: succeeds exactly on valid UTF-8, and the string
/// then holds the decoded characters.
#[verifier::external_body]
pub(crate) fn utf8_to_string(bytes: Vec<u8>) -> (r: Option<String>)
    ensures
        match r {
            Some(s) => valid_utf8(bytes@) && s@ == decode_utf8(bytes@),
            None => !valid_utf8(bytes@),
        },
{
    String::from_utf8(bytes).ok()
}

} // verus!

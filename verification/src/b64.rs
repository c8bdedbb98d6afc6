//! Standard base64 (RFC 4648 alphabet, `=` padding), by the `base64` crate.

use base64::Engine;
use vstd::prelude::*;

verus! {

/// The character of a 6-bit value in the standard alphabet.
pub open spec fn b64_char(v: nat) -> char {
    if v < 26 {
        ('A' as nat + v) as char
    } else if v < 52 {
        ('a' as nat + (v - 26)) as char
    } else if v < 62 {
        ('0' as nat + (v - 52)) as char
    } else if v == 62 {
        '+'
    } else {
        '/'
    }
}

/// Standard base64 of `b`: every 3 bytes become 4 characters; a last group
/// of 1 or 2 bytes is padded with `=`.
pub open spec fn b64(b: Seq<u8>) -> Seq<char>
    decreases b.len(),
{
    if b.len() == 0 {
        Seq::empty()
    } else if b.len() == 1 {
        seq![b64_char(b[0] as nat / 4), b64_char((b[0] as nat % 4) * 16), '=', '=']
    } else if b.len() == 2 {
        seq![
            b64_char(b[0] as nat / 4),
            b64_char((b[0] as nat % 4) * 16 + b[1] as nat / 16),
            b64_char((b[1] as nat % 16) * 4),
            '=',
        ]
    } else {
        seq![
            b64_char(b[0] as nat / 4),
            b64_char((b[0] as nat % 4) * 16 + b[1] as nat / 16),
            b64_char((b[1] as nat % 16) * 4 + b[2] as nat / 64),
            b64_char(b[2] as nat % 64),
        ] + b64(b.subrange(3, b.len() as int))
    }
}

/// `base64::engine::general_purpose::STANDARD.encode(bytes)`.
#[verifier::external_body]
pub(crate) fn encode_base64(bytes: &[u8]) -> (r: String)
    ensures
        r@ == b64(bytes@),
{
    base64::engine::general_purpose::STANDARD.encode(bytes)
}

/// The text of the `base64` crate's error for a string that is not
/// standard base64.
pub uninterp spec fn b64_decode_error(s: Seq<char>) -> Seq<char>;

/// `base64::engine::general_purpose::STANDARD.decode(s)`: that engine
/// requires canonical padding and zero trailing bits, so it decodes exactly
/// the strings that encoding gives, back to the bytes they were made of.
#[verifier::external_body]
pub(crate) fn decode_base64(s: &str) -> (r: Result<Vec<u8>, String>)
    ensures
        match r {
            Ok(b) => b64(b@) == s@,
            Err(m) => (forall|b: Seq<u8>| b64(b) != s@) && m@ == b64_decode_error(s@),
        },
{
    base64::engine::general_purpose::STANDARD.decode(s).map_err(|e| e.to_string())
}

} // verus!

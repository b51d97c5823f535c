//! Trusted boundary around the `base64` crate.
//!
//! Continuation tokens travel through the transport's result-id and
//! button-payload fields, which only take short printable strings, so the
//! token bytes are wrapped in the standard padding-free base-64 encoding.
//! The encoding itself is done by the `base64` crate; this module gives its
//! two calls contracts over the uninterpreted name `b64_of`.

use vstd::prelude::*;

verus! {

/// The standard, padding-free base-64 encoding of a byte sequence.
/// The encoding depends on the input bytes alone.
pub uninterp spec fn b64_of(bytes: Seq<u8>) -> Seq<char>;

/// A character of the standard base-64 alphabet: printable ASCII, safe in
/// the transport's result-id and button-payload fields.
pub open spec fn spec_base64_char(c: char) -> bool {
    ('A' <= c && c <= 'Z') || ('a' <= c && c <= 'z') || ('0' <= c && c <= '9') || c == '+' || c
        == '/'
}

/// Relies on `base64::engine::general_purpose::STANDARD_NO_PAD`:
/// `Engine::encode` returns the standard base-64 encoding of the input,
/// without padding, as a pure function of the input bytes. Without padding
/// it writes four characters per three input bytes, rounded up, every one
/// of them from the standard alphabet (no `=` ever appears).
#[verifier::external_body]
pub(crate) fn b64_encode(bytes: &Vec<u8>) -> (r: String)
    ensures
        r@ == b64_of(bytes@),
        r@.len() == (4 * bytes@.len() + 2) / 3,
        forall|i: int| 0 <= i < r@.len() ==> spec_base64_char(#[trigger] r@[i]),
{
    base64::Engine::encode(&base64::prelude::BASE64_STANDARD_NO_PAD, bytes)
}

/// Relies on `base64::engine::general_purpose::STANDARD_NO_PAD`:
/// `Engine::decode` under this engine accepts exactly the strings that
/// `Engine::encode` produces (the configuration forbids padding characters
/// and non-zero trailing bits, so only canonical encodings pass) and
/// returns the bytes whose encoding the input is.
#[verifier::external_body]
pub(crate) fn b64_decode(s: &str) -> (r: Option<Vec<u8>>)
    ensures
        match r {
            Some(d) => s@ == b64_of(d@),
            None => forall|b: Seq<u8>| b64_of(b) != s@,
        },
        forall|b: Seq<u8>| s@ == b64_of(b) ==> r is Some && r->0@ == b,
{
    match base64::Engine::decode(&base64::prelude::BASE64_STANDARD_NO_PAD, s) {
        Ok(d) => Some(d),
        Err(_) => None,
    }
}

} // verus!

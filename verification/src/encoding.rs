//! Trusted boundary to the base64 crate: the two conversions the byte-array
//! commands rely on, each named as a function of its input alone.

use vstd::prelude::*;
use base64::Engine;

verus! {

/// The base64 text that the standard padded engine produces for a byte
/// sequence: a function of the bytes alone.
pub uninterp spec fn base64_of(bytes: Seq<u8>) -> Seq<char>;

/// The byte sequence that the standard padded engine decodes a text to, if it
/// accepts the text: a function of the text alone.
pub uninterp spec fn base64_decoded(text: Seq<char>) -> Option<Seq<u8>>;

/// Relies on base64's `Engine::encode` with the `STANDARD` engine: the result
/// depends on the input bytes alone. The length bound keeps the engine's
/// internal output-size computation from overflowing, which is the one input
/// on which it panics.
#[verifier::external_body]
pub(crate) fn base64_encode_bytes(bytes: &Vec<u8>) -> (r: String)
    requires
        bytes@.len() <= usize::MAX as nat / 4,
    ensures
        r@ == base64_of(bytes@),
{
    base64::engine::general_purpose::STANDARD.encode(bytes)
}

/// Relies on base64's `Engine::decode` with the `STANDARD` engine: whether a
/// text is accepted, and the bytes it decodes to, depend on the text alone.
#[verifier::external_body]
pub(crate) fn base64_decode_text(text: &String) -> (r: Option<Vec<u8>>)
    ensures
        match r {
            Some(b) => base64_decoded(text@) == Some(b@),
            None => base64_decoded(text@) is None,
        },
{
    match base64::engine::general_purpose::STANDARD.decode(text.as_str()) {
        Ok(bytes) => Some(bytes),
        Err(_) => None,
    }
}

} // verus!

//! Byte encodings: lowercase hex (`hex`), Base64 (`base64`) and MD5 digests
//! in hex (`md5`).

use base64::Engine;
use vstd::prelude::*;

verus! {

pub open spec fn hex_digits() -> Seq<char> {
    seq!['0', '1', '2', '3', '4', '5', '6', '7', '8', '9', 'a', 'b', 'c', 'd', 'e', 'f']
}

/// Lowercase hex: two digits per byte, high half first.
pub open spec fn spec_hex_lower(bytes: Seq<u8>) -> Seq<char>
    decreases bytes.len(),
{
    if bytes.len() == 0 {
        Seq::empty()
    } else {
        seq![hex_digits()[(bytes[0] / 16) as int], hex_digits()[(bytes[0] % 16) as int]]
            + spec_hex_lower(bytes.drop_first())
    }
}

/// Calls `hex::encode`: the bytes in lowercase hex, two digits per byte.
#[verifier::external_body]
pub(crate) fn hex_encode(bytes: &[u8]) -> (res: String)
    ensures
        res@ == spec_hex_lower(bytes@),
{
    hex::encode(bytes)
}

/// What `md5::compute` gives for a byte string: its MD5 digest.
pub uninterp spec fn spec_md5(data: Seq<u8>) -> Seq<u8>;

/// Calls `md5::compute` and formats the digest with `{:x}`, which writes each
/// of its bytes as two lowercase hex digits.
#[verifier::external_body]
pub(crate) fn md5_hex(data: &[u8]) -> (res: String)
    ensures
        res@ == spec_hex_lower(spec_md5(data@)),
{
    format!("{:x}", md5::compute(data))
}

/// What the standard Base64 engine of `base64` makes of a byte string.
pub uninterp spec fn spec_base64_encode(bytes: Seq<u8>) -> Seq<char>;

/// What the standard Base64 engine of `base64` decodes from a text, where it
/// is valid Base64.
pub uninterp spec fn spec_base64_decode(text: Seq<char>) -> Option<Seq<u8>>;

/// Calls `base64::engine::general_purpose::STANDARD.encode`. Decoding the
/// result with the same engine gives the bytes back. (The encoder panics
/// only where the encoded length overflows `usize`, which `requires` leaves out.)
#[verifier::external_body]
pub(crate) fn base64_encode(bytes: &[u8]) -> (res: String)
    requires
        bytes@.len() <= usize::MAX / 2,
    ensures
        res@ == spec_base64_encode(bytes@),
        spec_base64_decode(res@) == Some(bytes@),
{
    base64::engine::general_purpose::STANDARD.encode(bytes)
}

/// Calls `base64::engine::general_purpose::STANDARD.decode`: the bytes, or
/// `None` where the text is not valid Base64.
#[verifier::external_body]
pub(crate) fn base64_decode(text: &str) -> (res: Option<Vec<u8>>)
    ensures
        match res {
            Some(v) => spec_base64_decode(text@) == Some(v@),
            None => spec_base64_decode(text@) is None,
        },
{
    base64::engine::general_purpose::STANDARD.decode(text).ok()
}

} // verus!

use vstd::prelude::*;
use base64::Engine;
use blowfish::cipher::{BlockEncrypt, KeyInit};
use blowfish::cipher::generic_array::GenericArray;

verus! {

#[verifier::external_type_specification]
#[verifier::external_body]
pub struct ExInvalidLength(blowfish::cipher::InvalidLength);

/// What Blowfish (big-endian words) makes of one 8-byte block under `key`.
pub uninterp spec fn blowfish_block_of(key: Seq<u8>, block: Seq<u8>) -> Seq<u8>;

/// What the URL-safe, padded base64 engine makes of `b`.
pub uninterp spec fn base64_url_of(b: Seq<u8>) -> Seq<char>;

/// A character of the URL-safe base64 alphabet, or its padding character.
pub open spec fn is_base64_url_char(c: char) -> bool {
    ('A' <= c <= 'Z') || ('a' <= c <= 'z') || ('0' <= c <= '9') || c == '-' || c == '_' || c == '='
}

/// Relies on blowfish's `KeyInit::new_from_slice`, which refuses keys outside
/// 4..=56 bytes, and `BlockEncrypt::encrypt_block_b2b` on one 8-byte block.
#[verifier::external_body]
pub(crate) fn blowfish_encrypt_block(key: &[u8], block: &[u8]) -> (r: Result<Vec<u8>, blowfish::cipher::InvalidLength>)
    requires
        block@.len() == 8,
    ensures
        r is Ok <==> 4 <= key@.len() <= 56,
        r is Ok ==> r->Ok_0@ == blowfish_block_of(key@, block@),
        r is Ok ==> r->Ok_0@.len() == 8,
{
    let cipher = <blowfish::Blowfish as KeyInit>::new_from_slice(key)?;
    let mut out = [0u8; 8];
    cipher.encrypt_block_b2b(GenericArray::from_slice(block), GenericArray::from_mut_slice(&mut out));
    Ok(out.to_vec())
}

/// Relies on base64's `URL_SAFE` engine: padded output, four characters for
/// each started group of three bytes, drawn from the URL-safe alphabet, with
/// at most two `=` of padding at the end.
#[verifier::external_body]
pub(crate) fn base64_url(b: &[u8]) -> (r: String)
    ensures
        r@ == base64_url_of(b@),
        r@.len() == 4 * ((b@.len() + 2) / 3),
        forall|i: int| 0 <= i < r@.len() ==> is_base64_url_char(#[trigger] r@[i]),
        forall|i: int| 0 <= i < r@.len() && #[trigger] r@[i] == '=' ==> i + 2 >= r@.len(),
{
    base64::engine::general_purpose::URL_SAFE.encode(b)
}

} // verus!

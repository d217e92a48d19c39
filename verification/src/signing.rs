//! HMAC-SHA256 request signatures and their lowercase hex encoding.

use vstd::prelude::*;

use hmac::Mac;

verus! {

/// The HMAC-SHA256 tag of the UTF-8 bytes of `message` under the UTF-8 bytes of `key`.
pub uninterp spec fn hmac_sha256(key: Seq<char>, message: Seq<char>) -> Seq<u8>;

/// Calls `Hmac::<Sha256>::new_from_slice`, `Mac::update` and `Mac::finalize` (hmac, sha2).
/// Claimed: the tag is `hmac_sha256(key, message)` and is 32 bytes long. A key of any
/// length is accepted by `new_from_slice`, so the `expect` never fires.
#[verifier::external_body]
pub(crate) fn hmac_sha256_tag(key: &str, message: &str) -> (tag: Vec<u8>)
    ensures
        tag@ == hmac_sha256(key@, message@),
        tag@.len() == 32,
{
    let mut mac = hmac::Hmac::<sha2::Sha256>::new_from_slice(key.as_bytes())
        .expect("HMAC can take key of any size");
    mac.update(message.as_bytes());
    mac.finalize().into_bytes().to_vec()
}

/// Lowercase hex digit of a nibble.
pub open spec fn hex_digit(n: nat) -> char {
    if n < 10 {
        (n + 48) as char
    } else {
        (n + 87) as char
    }
}

/// Lowercase hex text of bytes: two digits per byte, high nibble first.
pub open spec fn hex_lower(bytes: Seq<u8>) -> Seq<char>
    decreases bytes.len(),
{
    if bytes.len() == 0 {
        Seq::empty()
    } else {
        hex_lower(bytes.drop_last()) + seq![
            hex_digit((bytes.last() / 16) as nat),
            hex_digit((bytes.last() % 16) as nat),
        ]
    }
}

/// Calls `hex::encode`. Claimed: the result is the lowercase hex text of the bytes, as
/// the crate's `HEX_CHARS_LOWER` table gives it.
#[verifier::external_body]
pub(crate) fn hex_encode(bytes: &[u8]) -> (r: String)
    ensures
        r@ == hex_lower(bytes@),
{
    hex::encode(bytes)
}

/// The lowercase hex text has two characters per byte.
pub proof fn lemma_hex_lower_len(bytes: Seq<u8>)
    ensures
        hex_lower(bytes).len() == 2 * bytes.len(),
    decreases bytes.len(),
{
    if bytes.len() > 0 {
        lemma_hex_lower_len(bytes.drop_last());
    }
}

} // verus!

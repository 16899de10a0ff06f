//! Keyed and plain SHA-256 digests, computed by the `hmac`, `sha2` and
//! `sha256` crates.

use vstd::prelude::*;
use hmac::Mac;

verus! {

/// The HMAC-SHA256 tag of `message` under `key`.
pub uninterp spec fn hmac_sha256_tag(key: Seq<u8>, message: Seq<u8>) -> Seq<u8>;

/// Computes HMAC-SHA256 with `hmac::Hmac::<sha2::Sha256>`. The contract names
/// the tag as a function of key and message and states its length: SHA-256
/// output is 32 bytes. `new_from_slice` accepts keys of every length (longer
/// keys are hashed first), so the `expect` never fires.
#[verifier::external_body]
pub(crate) fn hmac_sha256(key: &[u8], message: &[u8]) -> (tag: Vec<u8>)
    ensures
        tag@ == hmac_sha256_tag(key@, message@),
        tag@.len() == 32,
{
    let mut mac = hmac::Hmac::<sha2::Sha256>::new_from_slice(key)
        .expect("HMAC accepts keys of any length");
    mac.update(message);
    mac.finalize().into_bytes().to_vec()
}

/// The lowercase hex SHA-256 digest of the UTF-8 encoding of `text`.
pub uninterp spec fn sha256_hex_digest(text: Seq<char>) -> Seq<char>;

/// Digests through `sha256::digest`, which hex-encodes (lowercase, two
/// characters per byte) the 32-byte SHA-256 of the text's bytes. The contract
/// names the digest as a function of the text and states its length.
#[verifier::external_body]
pub(crate) fn sha256_hex(text: &str) -> (digest: String)
    ensures
        digest@ == sha256_hex_digest(text@),
        digest@.len() == 64,
{
    sha256::digest(text)
}

} // verus!

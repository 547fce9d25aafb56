//! The cryptographic boundary: hashing, signing and signature encoding, done
//! by sha2, ed25519-dalek and base64 behind trusted wrappers. The digest and
//! the encoding are functions of their inputs alone, so each gets an
//! uninterpreted name; of a signature only its documented length is stated,
//! since it depends on the (opaque) key.

use vstd::prelude::*;
use sha2::Digest;
use ed25519_dalek::ed25519::signature::Signer;

verus! {

#[verifier::external_type_specification]
#[verifier::external_body]
pub struct ExSigningKey(ed25519_dalek::SigningKey);

/// The SHA-256 digest of the UTF-8 bytes of `s`, written as 64 lowercase hex
/// digits.
pub uninterp spec fn sha256_hex_of(s: Seq<char>) -> Seq<char>;

/// Relies on sha2's `Sha256` (`Digest::update`, `Digest::finalize`): the
/// digest is a function of the input bytes alone, 32 bytes long, here
/// formatted as 64 lowercase hex digits.
#[verifier::external_body]
pub(crate) fn sha256_hex(s: &str) -> (r: String)
    ensures
        r@ == sha256_hex_of(s@),
        r@.len() == 64,
{
    let mut hasher = sha2::Sha256::default();
    hasher.update(s.as_bytes());
    format!("{:x}", hasher.finalize())
}

/// The standard base64 encoding, with padding, of `bytes`.
pub uninterp spec fn base64_std_of(bytes: Seq<u8>) -> Seq<char>;

/// Relies on base64's `Engine::encode` with the `STANDARD` engine: the
/// encoding is a function of the input bytes alone, four characters for
/// every three bytes, the last group padded.
#[verifier::external_body]
pub(crate) fn base64_encode(bytes: &Vec<u8>) -> (r: String)
    requires
        bytes@.len() <= 0x1000_0000_0000_0000,
    ensures
        r@ == base64_std_of(bytes@),
        r@.len() == 4 * ((bytes@.len() + 2) / 3),
{
    base64::Engine::encode(&base64::engine::general_purpose::STANDARD, bytes.as_slice())
}

/// Relies on ed25519-dalek's `Signer::sign` for `SigningKey`: Ed25519 signing
/// does not fail and produces a 64-byte signature.
#[verifier::external_body]
pub(crate) fn sign_bytes(key: &ed25519_dalek::SigningKey, msg: &str) -> (r: Vec<u8>)
    ensures
        r@.len() == 64,
{
    key.sign(msg.as_bytes()).to_bytes().to_vec()
}

/// Relies on ed25519-dalek's `SigningKey::verifying_key` and
/// `VerifyingKey::to_bytes`: the public key is 32 bytes.
#[verifier::external_body]
pub(crate) fn derive_pubkey(key: &ed25519_dalek::SigningKey) -> (r: [u8; 32])
    ensures
        r@.len() == 32,
{
    key.verifying_key().to_bytes()
}

} // verus!

//! Trusted wrappers around the cryptographic and encoding crates the
//! notification pipeline uses. Each result that has no short mathematical
//! statement is given a name (an uninterpreted spec function of the
//! arguments alone); the contracts of the verified callers are stated over
//! those names.

use base64::Engine;
use chacha20poly1305::aead::{Aead, Payload};
use hmac::Mac;
use sha2::Digest;
use vstd::prelude::*;

verus! {

/// The SHA-256 digest of `data`.
pub uninterp spec fn sha256_of(data: Seq<u8>) -> Seq<u8>;

/// The HMAC-SHA-256 of `msg` under `key`.
pub uninterp spec fn hmac_sha256_of(key: Seq<u8>, msg: Seq<u8>) -> Seq<u8>;

/// The first 32 bytes of HKDF-SHA-256 output for `ikm` and `info`, with no
/// salt.
pub uninterp spec fn hkdf_sha256_of(ikm: Seq<u8>, info: Seq<u8>) -> Seq<u8>;

/// ChaCha20-Poly1305 ciphertext with the 16-byte tag appended.
pub uninterp spec fn chacha20poly1305_of(
    key: Seq<u8>,
    nonce: Seq<u8>,
    msg: Seq<u8>,
    aad: Seq<u8>,
) -> Seq<u8>;

/// The standard (padded) base64 encoding of `data`.
pub uninterp spec fn base64_of(data: Seq<u8>) -> Seq<char>;

/// The CBOR encoding of the game-update notification payload: a three-tuple
/// of game id, board and turn byte.
pub uninterp spec fn cbor_game_update_of(game_id: Seq<char>, board: Seq<u8>, turn: u8) -> Seq<u8>;

/// Relies on sha2's Sha256: a 32-byte digest that depends on the input
/// bytes alone.
#[verifier::external_body]
pub fn sha256(data: &[u8]) -> (r: Vec<u8>)
    ensures
        r@ == sha256_of(data@),
        r@.len() == 32,
{
    sha2::Sha256::digest(data).to_vec()
}

/// Relies on hmac's Hmac<Sha256>: a 32-byte MAC that depends on key and
/// message alone. `new_from_slice` accepts keys of any length for an HMAC.
#[verifier::external_body]
pub fn hmac_sha256(key: &[u8], msg: &[u8]) -> (r: Vec<u8>)
    ensures
        r@ == hmac_sha256_of(key@, msg@),
        r@.len() == 32,
{
    match <hmac::Hmac<sha2::Sha256> as hmac::Mac>::new_from_slice(key) {
        Ok(mut mac) => {
            mac.update(msg);
            mac.finalize().into_bytes().to_vec()
        },
        Err(_) => Vec::new(),
    }
}

/// Relies on hkdf's Hkdf<Sha256>: 32 bytes of output keying material that
/// depend on the input keying material and the info bytes alone. Expanding
/// to 32 bytes never exceeds the HKDF output limit.
#[verifier::external_body]
pub fn hkdf_sha256(ikm: &[u8], info: &[u8]) -> (r: Vec<u8>)
    ensures
        r@ == hkdf_sha256_of(ikm@, info@),
        r@.len() == 32,
{
    let hk = hkdf::Hkdf::<sha2::Sha256>::new(None, ikm);
    let mut okm = [0u8; 32];
    match hk.expand(info, &mut okm) {
        Ok(()) => okm.to_vec(),
        Err(_) => Vec::new(),
    }
}

/// Relies on chacha20poly1305's ChaCha20Poly1305: ciphertext with the
/// 16-byte tag appended, a function of key, nonce, message and associated
/// data alone. Encryption fails only for messages of astronomical length,
/// which the precondition rules out; the key and nonce lengths are fixed by
/// the cipher.
#[verifier::external_body]
pub fn chacha20poly1305_seal(key: &[u8], nonce: &[u8], msg: &[u8], aad: &[u8]) -> (r: Vec<u8>)
    requires
        key@.len() == 32,
        nonce@.len() == 12,
        msg@.len() < 0x10000000,
    ensures
        r@ == chacha20poly1305_of(key@, nonce@, msg@, aad@),
        r@.len() == msg@.len() + 16,
{
    let cipher = <chacha20poly1305::ChaCha20Poly1305 as chacha20poly1305::KeyInit>::new(
        chacha20poly1305::Key::from_slice(key),
    );
    match cipher.encrypt(
        chacha20poly1305::Nonce::from_slice(nonce),
        Payload { msg, aad },
    ) {
        Ok(v) => v,
        Err(_) => Vec::new(),
    }
}

/// Relies on base64's standard engine: the padded base64 text of the input,
/// four characters for every three bytes.
#[verifier::external_body]
pub fn base64_encode(data: &[u8]) -> (r: String)
    ensures
        r@ == base64_of(data@),
        r@.len() == 4 * ((data@.len() + 2) / 3),
{
    base64::engine::general_purpose::STANDARD.encode(data)
}

/// Relies on minicbor_ser's to_vec: the CBOR bytes of the tuple, a function
/// of the three values alone. Encoding a string, a byte vector and an
/// integer into a growable buffer cannot fail. The length bound follows
/// from the definite-length encoding minicbor writes: one header of at
/// most nine bytes each for the tuple, the string and the byte vector, at
/// most four UTF-8 bytes per character, at most two bytes per board byte,
/// and at most two for the turn.
#[verifier::external_body]
pub fn cbor_encode_game_update(game_id: &String, board: &Vec<u8>, turn: u8) -> (r: Vec<u8>)
    ensures
        r@ == cbor_game_update_of(game_id@, board@, turn),
        r@.len() <= 32 + 4 * game_id@.len() + 2 * board@.len(),
{
    match minicbor_ser::to_vec(&(game_id, board, turn)) {
        Ok(v) => v,
        Err(_) => Vec::new(),
    }
}

} // verus!

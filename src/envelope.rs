//! The envelope cipher: XChaCha20-Poly1305 with a 256-bit key and 192-bit nonces.
use chacha20poly1305::aead::{Aead, AeadCore, KeyInit, OsRng};
use chacha20poly1305::XChaCha20Poly1305;
use vstd::prelude::*;

verus! {

/// Length of a session key, in bytes.
pub const KEY_LEN: usize = 32;

/// Length of a nonce, in bytes.
pub const NONCE_LEN: usize = 24;

/// Longest message the cipher takes: it refuses `64 * u32::MAX` bytes or more.
pub const MESSAGE_LIMIT: u64 = 274877906880;

/// What XChaCha20-Poly1305 makes of `msg` under `key` and `nonce`, tag included.
pub uninterp spec fn sealed(key: Seq<u8>, nonce: Seq<u8>, msg: Seq<u8>) -> Seq<u8>;

/// What authenticated decryption of `ct` under `key` and `nonce` gives back,
/// `None` where the tag does not match.
pub uninterp spec fn opened(key: Seq<u8>, nonce: Seq<u8>, ct: Seq<u8>) -> Option<Seq<u8>>;

/// Relies on `KeyInit::generate_key` with the operating system's random source.
#[verifier::external_body]
pub(crate) fn fresh_key() -> (r: Vec<u8>)
    ensures
        r@.len() == KEY_LEN,
{
    XChaCha20Poly1305::generate_key(&mut OsRng).to_vec()
}

/// Relies on `AeadCore::generate_nonce` with the operating system's random source.
#[verifier::external_body]
pub(crate) fn fresh_nonce() -> (r: Vec<u8>)
    ensures
        r@.len() == NONCE_LEN,
{
    XChaCha20Poly1305::generate_nonce(&mut OsRng).to_vec()
}

/// Relies on `Aead::encrypt` of XChaCha20-Poly1305: it fails only on a message
/// of `64 * u32::MAX` bytes or more, and decrypting its output under the same
/// key and nonce gives the message back.
#[verifier::external_body]
pub(crate) fn seal(key: &[u8], nonce: &[u8], msg: &[u8]) -> (r: Option<Vec<u8>>)
    requires
        key@.len() == KEY_LEN,
        nonce@.len() == NONCE_LEN,
        msg@.len() < MESSAGE_LIMIT,
    ensures
        r is Some,
        r is Some ==> r->0@ == sealed(key@, nonce@, msg@),
        r is Some ==> opened(key@, nonce@, r->0@) == Some(msg@),
{
    XChaCha20Poly1305::new(key.into()).encrypt(nonce.into(), msg).ok()
}

/// Relies on `Aead::decrypt` of XChaCha20-Poly1305: the message when the tag
/// matches, an error otherwise.
#[verifier::external_body]
pub(crate) fn open(key: &[u8], nonce: &[u8], ct: &[u8]) -> (r: Option<Vec<u8>>)
    requires
        key@.len() == KEY_LEN,
        nonce@.len() == NONCE_LEN,
    ensures
        match r {
            Some(msg) => opened(key@, nonce@, ct@) == Some(msg@),
            None => opened(key@, nonce@, ct@) is None,
        },
{
    XChaCha20Poly1305::new(key.into()).decrypt(nonce.into(), ct).ok()
}

} // verus!

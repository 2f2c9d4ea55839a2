//! Authenticated encryption of the plaintext under a derived key.
//!
//! The cipher is ChaCha20-Poly1305 with an 8-byte nonce and no associated
//! data, as the `rust-crypto` crate computes it. The key stream and the tag
//! are named here, not defined. What this module proves is how sealing and
//! opening relate: which tag is accepted, what is handed out when it is, and
//! that nothing is handed out when it is not.

use crate::error::Error;
use crypto::aead::{AeadDecryptor, AeadEncryptor};
use vstd::prelude::*;

verus! {

/// Length in bytes of a nonce.
pub const NONCE_LEN: usize = 8;

/// Length in bytes of an authentication tag.
pub const TAG_LEN: usize = 16;

/// The most bytes that can be encrypted under one key and nonce: the key
/// stream counts its 64-byte blocks in 32 bits, gives its first block to the
/// tag, and does not go on once the count is used up.
pub const MAX_DATA_LEN: u64 = 274_877_906_816;

/// What `ChaCha20Poly1305` writes as output for `data` under this key and
/// nonce: `data` combined with the key stream. Sealing and opening write
/// their output through the same call.
pub uninterp spec fn chacha20_applied(key: Seq<u8>, nonce: Seq<u8>, data: Seq<u8>) -> Seq<u8>;

/// The tag that `ChaCha20Poly1305` computes over `ciphertext` under this key
/// and nonce, with empty associated data.
pub uninterp spec fn poly1305_tag(key: Seq<u8>, nonce: Seq<u8>, ciphertext: Seq<u8>) -> Seq<u8>;

/// The ciphertext and the tag that sealing `plaintext` gives.
pub open spec fn sealed(key: Seq<u8>, nonce: Seq<u8>, plaintext: Seq<u8>) -> (Seq<u8>, Seq<u8>) {
    let ciphertext = chacha20_applied(key, nonce, plaintext);
    (ciphertext, poly1305_tag(key, nonce, ciphertext))
}

/// What opening gives: the plaintext where `tag` is the tag of `ciphertext`,
/// and nothing otherwise. A tag has 16 bytes: one of another length, the
/// empty one too, opens nothing. Nor is a ciphertext opened that is longer
/// than anything that can be sealed.
pub open spec fn opened(key: Seq<u8>, nonce: Seq<u8>, ciphertext: Seq<u8>, tag: Seq<u8>) -> Option<
    Seq<u8>,
> {
    if ciphertext.len() <= MAX_DATA_LEN && tag.len() == TAG_LEN && tag == poly1305_tag(
        key,
        nonce,
        ciphertext,
    ) {
        Some(chacha20_applied(key, nonce, ciphertext))
    } else {
        None
    }
}

/// Calls `ChaCha20Poly1305::new` with empty associated data, then `encrypt`
/// into a buffer as long as the plaintext and a 16-byte tag buffer.
///
/// Believed of them, from their source: the ciphertext is the plaintext
/// passed through the key stream; the tag is computed from key, nonce and
/// ciphertext; both are functions of those alone; and passing the ciphertext
/// through the same key stream gives the plaintext back. Beyond the length
/// in the `requires` the key stream's block counter would wrap, and the call
/// would panic.
#[verifier::external_body]
fn chacha20poly1305_encrypt(key: &[u8], nonce: &[u8], plaintext: &[u8]) -> (out: (Vec<u8>, Vec<u8>))
    requires
        key@.len() == 16 || key@.len() == 32,
        nonce@.len() == 8,
        plaintext@.len() <= 274_877_906_816,
    ensures
        out.0@ == chacha20_applied(key@, nonce@, plaintext@),
        out.0@.len() == plaintext@.len(),
        out.1@ == poly1305_tag(key@, nonce@, out.0@),
        out.1@.len() == 16,
        chacha20_applied(key@, nonce@, out.0@) == plaintext@,
{
    let mut ciphertext = vec![0u8; plaintext.len()];
    let mut tag = vec![0u8; 16];
    let mut cipher = ::crypto::chacha20poly1305::ChaCha20Poly1305::new(key, nonce, &[]);
    cipher.encrypt(plaintext, &mut ciphertext, &mut tag);
    (ciphertext, tag)
}

/// Calls `ChaCha20Poly1305::new` with empty associated data, then `decrypt`
/// into a buffer as long as the ciphertext.
///
/// Believed of them, from their source: the tag over the ciphertext is
/// computed as in sealing and compared with `tag` as a whole (the computed
/// tag has 16 bytes, so a tag of another length never matches); only on a
/// match is the ciphertext passed through the key stream; without one the
/// buffer is not handed out. Beyond the length in the `requires` the key
/// stream's block counter would wrap on a match, and the call would panic.
#[verifier::external_body]
fn chacha20poly1305_decrypt(key: &[u8], nonce: &[u8], ciphertext: &[u8], tag: &[u8]) -> (out:
    Option<Vec<u8>>)
    requires
        key@.len() == 16 || key@.len() == 32,
        nonce@.len() == 8,
        ciphertext@.len() <= 274_877_906_816,
    ensures
        out is Some <==> tag@ == poly1305_tag(key@, nonce@, ciphertext@),
        out is Some ==> tag@.len() == 16,
        out matches Some(plaintext) ==> plaintext@ == chacha20_applied(key@, nonce@, ciphertext@)
            && plaintext@.len() == ciphertext@.len(),
{
    let mut plaintext = vec![0u8; ciphertext.len()];
    let mut cipher = ::crypto::chacha20poly1305::ChaCha20Poly1305::new(key, nonce, &[]);
    if cipher.decrypt(ciphertext, &mut plaintext, tag) {
        Some(plaintext)
    } else {
        None
    }
}

/// Tells whether so many bytes can be encrypted under one key and nonce.
pub fn fits_one_nonce(len: usize) -> (fits: bool)
    ensures
        fits == (len <= MAX_DATA_LEN),
{
    len as u64 <= MAX_DATA_LEN
}

/// Encrypts `plaintext` under a 32-byte key and an 8-byte nonce.
///
/// Returns the ciphertext, as long as the plaintext, and its 16-byte tag.
/// Opening them under the same key and nonce gives the plaintext back. The
/// only failure is a plaintext of more than [`MAX_DATA_LEN`] bytes, which is
/// [`Error::TooLong`].
pub fn seal(plaintext: &[u8], key: &[u8], nonce: &[u8]) -> (out: Result<(Vec<u8>, Vec<u8>), Error>)
    requires
        key@.len() == 32,
        nonce@.len() == NONCE_LEN,
    ensures
        match out {
            Ok((ciphertext, tag)) => {
                &&& plaintext@.len() <= MAX_DATA_LEN
                &&& (ciphertext@, tag@) == sealed(key@, nonce@, plaintext@)
                &&& ciphertext@.len() == plaintext@.len()
                &&& tag@.len() == TAG_LEN
                &&& opened(key@, nonce@, ciphertext@, tag@) == Some(plaintext@)
            },
            Err(e) => plaintext@.len() > MAX_DATA_LEN && e == Error::TooLong,
        },
{
    if !fits_one_nonce(plaintext.len()) {
        return Err(Error::TooLong);
    }
    Ok(chacha20poly1305_encrypt(key, nonce, plaintext))
}

/// Decrypts `ciphertext` under a 32-byte key and an 8-byte nonce, after
/// checking `tag`.
///
/// The plaintext is returned only where the tag is the one that belongs to
/// the ciphertext under this key and nonce. Otherwise the result is
/// [`Error::AuthenticationFailed`] and no byte of plaintext. A ciphertext of
/// more than [`MAX_DATA_LEN`] bytes cannot have been sealed, and fails alike.
pub fn open(ciphertext: &[u8], key: &[u8], nonce: &[u8], tag: &[u8]) -> (out: Result<
    Vec<u8>,
    Error,
>)
    requires
        key@.len() == 32,
        nonce@.len() == NONCE_LEN,
    ensures
        match out {
            Ok(plaintext) => opened(key@, nonce@, ciphertext@, tag@) == Some(plaintext@)
                && plaintext@.len() == ciphertext@.len() && tag@.len() == TAG_LEN,
            Err(e) => opened(key@, nonce@, ciphertext@, tag@) is None && e
                == Error::AuthenticationFailed,
        },
{
    if !fits_one_nonce(ciphertext.len()) {
        return Err(Error::AuthenticationFailed);
    }
    match chacha20poly1305_decrypt(key, nonce, ciphertext, tag) {
        Some(plaintext) => Ok(plaintext),
        None => Err(Error::AuthenticationFailed),
    }
}

/// A ciphertext has one tag: where opening succeeds with one tag, it fails
/// with every other, whatever the length or the bits in which they differ.
pub proof fn lemma_other_tag_rejected(
    key: Seq<u8>,
    nonce: Seq<u8>,
    ciphertext: Seq<u8>,
    tag: Seq<u8>,
    other: Seq<u8>,
)
    requires
        opened(key, nonce, ciphertext, tag) is Some,
        other != tag,
    ensures
        opened(key, nonce, ciphertext, other) is None,
{
}

/// A ciphertext that was changed and still opens under the tag that it had
/// before has met a collision: the two ciphertexts have the same tag.
/// That this does not happen is what is expected of the tag; it is not proved
/// here.
pub proof fn lemma_other_ciphertext_needs_collision(
    key: Seq<u8>,
    nonce: Seq<u8>,
    ciphertext: Seq<u8>,
    other: Seq<u8>,
    tag: Seq<u8>,
)
    requires
        opened(key, nonce, ciphertext, tag) is Some,
        opened(key, nonce, other, tag) is Some,
    ensures
        poly1305_tag(key, nonce, other) == poly1305_tag(key, nonce, ciphertext),
{
}

} // verus!

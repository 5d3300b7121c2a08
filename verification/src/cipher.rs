//! AES-256-GCM and the random generator, as OpenSSL provides them.
//!
//! What the cipher computes is not written out here. It is named: the two
//! functions [`aes_256_gcm_seal`] and [`aes_256_gcm_open`] stand for what
//! OpenSSL returns, and the rest of the library is proved for whatever they
//! are.

use openssl::error::ErrorStack;
use openssl::rand::rand_bytes;
use openssl::symm::{decrypt_aead, encrypt_aead, Cipher};
use vstd::prelude::*;

use crate::wire::{IV_LEN, KEY_LEN, TAG_LEN};

verus! {

/// The error that OpenSSL reports.
#[verifier::external_type_specification]
#[verifier::external_body]
pub struct ExErrorStack(ErrorStack);

/// What AES-256-GCM makes of a plaintext under a 32-byte key, a 12-byte nonce
/// and associated data, with a 16-byte tag asked for: the ciphertext and the
/// tag, or `None` where the cipher refuses.
pub uninterp spec fn aes_256_gcm_seal(
    key: Seq<u8>,
    iv: Seq<u8>,
    aad: Seq<u8>,
    plaintext: Seq<u8>,
) -> Option<(Seq<u8>, Seq<u8>)>;

/// What AES-256-GCM recovers from a ciphertext and its tag under a 32-byte
/// key, a 12-byte nonce and associated data: the plaintext, or `None` where
/// the tag does not authenticate them.
pub uninterp spec fn aes_256_gcm_open(
    key: Seq<u8>,
    iv: Seq<u8>,
    aad: Seq<u8>,
    ciphertext: Seq<u8>,
    tag: Seq<u8>,
) -> Option<Seq<u8>>;

/// The longest input that OpenSSL takes in one call: it counts lengths in a
/// C `int`, and the calls below panic on a longer key, nonce, associated
/// data, text or tag.
pub const MAX_INPUT: usize = 0x7fff_ffff;

/// `openssl::symm::encrypt_aead` with the cipher AES-256-GCM.
///
/// Believed of it: whether it succeeds, the ciphertext that it returns and
/// the tag that it writes to `tag` depend on the key, the nonce, the
/// associated data and the plaintext alone, and are what
/// [`aes_256_gcm_seal`] names. The tag buffer keeps its length.
#[verifier::external_body]
pub(crate) fn seal(key: &[u8], iv: &[u8], aad: &[u8], data: &[u8], tag: &mut Vec<u8>) -> (r: Result<
    Vec<u8>,
    ErrorStack,
>)
    requires
        key@.len() == KEY_LEN,
        iv@.len() == IV_LEN,
        old(tag)@.len() == TAG_LEN,
        aad@.len() <= MAX_INPUT,
        data@.len() <= MAX_INPUT,
    ensures
        final(tag)@.len() == TAG_LEN,
        match r {
            Ok(ct) => aes_256_gcm_seal(key@, iv@, aad@, data@) == Some((ct@, final(tag)@)),
            Err(_) => aes_256_gcm_seal(key@, iv@, aad@, data@) is None,
        },
{
    encrypt_aead(Cipher::aes_256_gcm(), key, Some(iv), aad, data, tag)
}

/// `openssl::symm::decrypt_aead` with the cipher AES-256-GCM.
///
/// Believed of it: whether it succeeds and the plaintext that it returns
/// depend on the key, the nonce, the associated data, the ciphertext and
/// the tag alone, and are what [`aes_256_gcm_open`] names. And decryption
/// undoes encryption: where the ciphertext and the tag are those that
/// sealing some plaintext under the same key, nonce and associated data
/// gives, it succeeds and returns that plaintext. So if it succeeds, nothing
/// but what it returns seals to them, and if it fails, nothing does.
#[verifier::external_body]
pub(crate) fn open(key: &[u8], iv: &[u8], aad: &[u8], data: &[u8], tag: &[u8]) -> (r: Result<
    Vec<u8>,
    ErrorStack,
>)
    requires
        key@.len() == KEY_LEN,
        iv@.len() == IV_LEN,
        tag@.len() == TAG_LEN,
        aad@.len() <= MAX_INPUT,
        data@.len() <= MAX_INPUT,
    ensures
        match r {
            Ok(pt) => {
                &&& aes_256_gcm_open(key@, iv@, aad@, data@, tag@) == Some(pt@)
                &&& forall|sealed: Seq<u8>| #[trigger]
                    aes_256_gcm_seal(key@, iv@, aad@, sealed) == Some((data@, tag@)) ==> sealed
                        == pt@
            },
            Err(_) => {
                &&& aes_256_gcm_open(key@, iv@, aad@, data@, tag@) is None
                &&& forall|sealed: Seq<u8>| #[trigger]
                    aes_256_gcm_seal(key@, iv@, aad@, sealed) != Some((data@, tag@))
            },
        },
{
    decrypt_aead(Cipher::aes_256_gcm(), key, Some(iv), aad, data, tag)
}

/// `openssl::rand::rand_bytes`: overwrites the buffer with random bytes, or
/// fails.
///
/// Believed of it: the buffer keeps its length. Nothing is said of the
/// bytes, nor of when it fails.
#[verifier::external_body]
pub(crate) fn random_fill(buf: &mut Vec<u8>) -> (r: Result<(), ErrorStack>)
    requires
        old(buf)@.len() <= MAX_INPUT,
    ensures
        final(buf)@.len() == old(buf)@.len(),
{
    rand_bytes(buf)
}

} // verus!

//! The sending half of the codec.
//!
//! Every payload leaves as one record, sealed under the current key. Inside
//! the record, before the payload, travels the key of the next record; once
//! the record is made, that key becomes the current one.

use vstd::prelude::*;
use vstd::slice::slice_to_vec;
use vstd::string::StringSliceAdditionalSpecFns;
use vstd::utf8::encode_utf8;

use crate::cipher::{aes_256_gcm_seal, random_fill, seal, MAX_INPUT};
use crate::error::CodecError;
use crate::wire::{
    frame_aad, frame_bytes, frame_ciphertext, frame_iv, frame_tag, is_frame, lemma_frame_parts,
    put_u64, AAD_LEN, HEAD_LEN, IV_LEN, KEY_LEN, TAG_LEN,
};

verus! {

/// `frame` is the record that carries `payload` and announces `next_key`,
/// sealed under `key` with the nonce `iv` and the associated data `aad`.
pub open spec fn is_sealing(
    key: Seq<u8>,
    iv: Seq<u8>,
    aad: Seq<u8>,
    next_key: Seq<u8>,
    payload: Seq<u8>,
    frame: Seq<u8>,
) -> bool {
    &&& key.len() == KEY_LEN
    &&& iv.len() == IV_LEN
    &&& aad.len() == AAD_LEN
    &&& next_key.len() == KEY_LEN
    &&& next_key.len() + payload.len() <= MAX_INPUT
    &&& aes_256_gcm_seal(key, iv, aad, next_key + payload) matches Some((ciphertext, tag))
    &&& tag.len() == TAG_LEN
    &&& ciphertext.len() <= MAX_INPUT
    &&& frame == frame_bytes(iv, tag, aad, ciphertext)
}

/// `frame` is a record that carries `payload` and announces `next_key`,
/// sealed under `key` with some nonce and some associated data.
pub open spec fn sealed(key: Seq<u8>, next_key: Seq<u8>, payload: Seq<u8>, frame: Seq<u8>) -> bool {
    exists|iv: Seq<u8>, aad: Seq<u8>| is_sealing(key, iv, aad, next_key, payload, frame)
}

/// A sealed record is one whole record, short enough for the cipher, and its
/// ciphertext and tag are those that the cipher gives for the key announced
/// and the payload, under the nonce and the associated data in its head.
pub proof fn lemma_sealing_parts(
    key: Seq<u8>,
    iv: Seq<u8>,
    aad: Seq<u8>,
    next_key: Seq<u8>,
    payload: Seq<u8>,
    frame: Seq<u8>,
)
    requires
        is_sealing(key, iv, aad, next_key, payload, frame),
    ensures
        is_frame(frame),
        frame.len() - HEAD_LEN <= MAX_INPUT,
        frame_iv(frame) == iv,
        frame_aad(frame) == aad,
        aes_256_gcm_seal(key, iv, aad, next_key + payload) == Some(
            (frame_ciphertext(frame), frame_tag(frame)),
        ),
{
    let sealing = aes_256_gcm_seal(key, iv, aad, next_key + payload);
    lemma_frame_parts(iv, sealing->Some_0.1, aad, sealing->Some_0.0);
}

/// Puts the four parts of a record together.
pub fn assemble(iv: &[u8], tag: &[u8], aad: &[u8], ciphertext: &[u8]) -> (frame: Vec<u8>)
    requires
        iv@.len() + tag@.len() + aad@.len() + 8 + ciphertext@.len() <= usize::MAX,
    ensures
        frame@ == frame_bytes(iv@, tag@, aad@, ciphertext@),
{
    let mut frame: Vec<u8> = Vec::new();
    frame.extend_from_slice(iv);
    frame.extend_from_slice(tag);
    frame.extend_from_slice(aad);
    put_u64(&mut frame, ciphertext.len() as u64);
    frame.extend_from_slice(ciphertext);
    frame
}

/// The sending half: the key under which the next record will be sealed.
pub struct Encryption {
    cur_key: Vec<u8>,
}

impl View for Encryption {
    type V = Seq<u8>;

    /// The current key.
    closed spec fn view(&self) -> Seq<u8> {
        self.cur_key@
    }
}

impl Encryption {
    /// A sending half whose first record is sealed under the bytes of `key`.
    pub fn new(key: String) -> (r: Encryption)
        ensures
            r@ == encode_utf8(key@),
    {
        Encryption { cur_key: slice_to_vec(key.as_str().as_bytes()) }
    }

    /// A fresh nonce.
    fn gen_vi(&self) -> (r: Result<Vec<u8>, CodecError>)
        ensures
            match r {
                Ok(iv) => iv@.len() == IV_LEN,
                Err(e) => e == CodecError::Random,
            },
    {
        let mut iv = vec![0u8; IV_LEN];
        match random_fill(&mut iv) {
            Ok(()) => Ok(iv),
            Err(_) => Err(CodecError::Random),
        }
    }

    /// Fresh associated data.
    fn gen_aad(&self) -> (r: Result<Vec<u8>, CodecError>)
        ensures
            match r {
                Ok(aad) => aad@.len() == AAD_LEN,
                Err(e) => e == CodecError::Random,
            },
    {
        let mut aad = vec![0u8; AAD_LEN];
        match random_fill(&mut aad) {
            Ok(()) => Ok(aad),
            Err(_) => Err(CodecError::Random),
        }
    }

    /// A fresh key for the record after this one.
    fn gen_key(&self) -> (r: Result<Vec<u8>, CodecError>)
        ensures
            match r {
                Ok(key) => key@.len() == KEY_LEN,
                Err(e) => e == CodecError::Random,
            },
    {
        let mut key = vec![0u8; KEY_LEN];
        match random_fill(&mut key) {
            Ok(()) => Ok(key),
            Err(_) => Err(CodecError::Random),
        }
    }

    /// Seals `data` into one record with the nonce, the associated data and
    /// the next key that the caller has chosen, and moves on to that key.
    ///
    /// Where the lengths are not those of the record layout, or the cipher
    /// refuses, no record is made and the key stays.
    pub fn seal_with(&mut self, iv: &[u8], aad: &[u8], next_key: Vec<u8>, data: &[u8]) -> (r:
        Result<Vec<u8>, CodecError>)
        ensures
            match r {
                Ok(frame) => {
                    &&& is_sealing(old(self)@, iv@, aad@, next_key@, data@, frame@)
                    &&& final(self)@ == next_key@
                },
                Err(e) => {
                    &&& e == CodecError::Seal
                    &&& final(self)@ == old(self)@
                    &&& forall|frame: Seq<u8>|
                        !is_sealing(old(self)@, iv@, aad@, next_key@, data@, frame)
                },
            },
    {
        if self.cur_key.len() != KEY_LEN || iv.len() != IV_LEN || aad.len() != AAD_LEN
            || next_key.len() != KEY_LEN || data.len() > MAX_INPUT - KEY_LEN {
            return Err(CodecError::Seal);
        }
        let mut plain: Vec<u8> = Vec::new();
        plain.extend_from_slice(next_key.as_slice());
        plain.extend_from_slice(data);
        assert(plain@ =~= next_key@ + data@);
        let mut tag = vec![0u8; TAG_LEN];
        match seal(self.cur_key.as_slice(), iv, aad, plain.as_slice(), &mut tag) {
            Err(_) => Err(CodecError::Seal),
            Ok(ciphertext) => {
                if ciphertext.len() > MAX_INPUT {
                    return Err(CodecError::Seal);
                }
                let frame = assemble(iv, tag.as_slice(), aad, ciphertext.as_slice());
                self.cur_key = next_key;
                Ok(frame)
            },
        }
    }

    /// Seals `data` into one record with a fresh nonce, fresh associated data
    /// and a fresh next key, and moves on to that key.
    fn en(&mut self, data: &[u8]) -> (r: Result<Vec<u8>, CodecError>)
        ensures
            match r {
                Ok(frame) => sealed(old(self)@, final(self)@, data@, frame@),
                Err(e) => final(self)@ == old(self)@ && e != CodecError::InvalidData,
            },
            old(self)@.len() != KEY_LEN || data@.len() + KEY_LEN > MAX_INPUT ==> r is Err,
    {
        let iv = self.gen_vi()?;
        let aad = self.gen_aad()?;
        let next_key = self.gen_key()?;
        self.seal_with(iv.as_slice(), aad.as_slice(), next_key, data)
    }

    /// The record to write for `buf`: the caller sends all of it, in order,
    /// before the next one.
    ///
    /// The record is sealed under the current key and announces a fresh one,
    /// which is the current key from then on. On failure the key stays. It
    /// fails where the random generator gives no bytes (`Random`) or the
    /// cipher makes no record (`Seal`), as it does under a key that is not
    /// 32 bytes long and for a payload that the cipher cannot take.
    pub fn encryption_write(&mut self, buf: &[u8]) -> (r: Result<Vec<u8>, CodecError>)
        ensures
            match r {
                Ok(frame) => sealed(old(self)@, final(self)@, buf@, frame@),
                Err(e) => final(self)@ == old(self)@ && e != CodecError::InvalidData,
            },
            old(self)@.len() != KEY_LEN || buf@.len() + KEY_LEN > MAX_INPUT ==> r is Err,
    {
        self.en(buf)
    }
}

} // verus!

//! The relay phase: what a pump does with what it has read.
//!
//! A session has two pumps, one for each direction. The pump that reads
//! plain bytes hands each chunk to [`outbound`] and writes the record that
//! comes back. The pump that reads records hands each to
//! [`Decryption::decryption_read`](crate::decryption::Decryption::decryption_read)
//! and writes the payload. Either stops at the first failure, and the first
//! also where a read returns no bytes: the stream has ended.

use vstd::prelude::*;

use crate::cipher::MAX_INPUT;
use crate::encryption::{sealed, Encryption};
use crate::error::CodecError;
use crate::wire::KEY_LEN;

verus! {

/// The most that a pump reads at once, and so the longest payload of a
/// record.
pub const STAGING_LEN: usize = 2048;

/// What to write for a chunk that the pump has read: `None` for an empty
/// chunk, which is the end of the stream, and else the record that seals
/// it.
///
/// The record is sealed under the current key of `en`, which moves on to
/// the key that the record announces. Where no record is made the key
/// stays.
pub fn outbound(en: &mut Encryption, chunk: &[u8]) -> (r: Result<Option<Vec<u8>>, CodecError>)
    ensures
        match r {
            Ok(None) => chunk@.len() == 0 && final(en)@ == old(en)@,
            Ok(Some(frame)) => chunk@.len() > 0 && sealed(old(en)@, final(en)@, chunk@, frame@),
            Err(e) => chunk@.len() > 0 && final(en)@ == old(en)@ && e != CodecError::InvalidData,
        },
        chunk@.len() > 0 && (old(en)@.len() != KEY_LEN || chunk@.len() + KEY_LEN > MAX_INPUT)
            ==> r is Err,
{
    if chunk.len() == 0 {
        return Ok(None);
    }
    match en.encryption_write(chunk) {
        Ok(frame) => Ok(Some(frame)),
        Err(e) => Err(e),
    }
}

} // verus!

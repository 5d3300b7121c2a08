//! The receiving half of the codec, and the reader that turns the payloads of
//! successive records back into a stream of bytes.
//!
//! A record is opened under the current key. The first 32 bytes of what it
//! held are the key of the next record; the rest is the payload.

use vstd::prelude::*;
use vstd::slice::slice_to_vec;
use vstd::utf8::encode_utf8;

use crate::cipher::{aes_256_gcm_open, aes_256_gcm_seal, open, MAX_INPUT};
use crate::encryption::{is_sealing, lemma_sealing_parts};
use crate::error::CodecError;
use crate::wire::{
    frame_aad, frame_body_len, frame_ciphertext, frame_iv, frame_tag, get_u64, is_frame,
    AAD_LEN, BODY_LEN_LEN, HEAD_LEN, IV_LEN, KEY_LEN, TAG_LEN,
};

verus! {

/// What a record held, taken apart: the key that it announces and its
/// payload. `None` where it is too short to announce a key.
pub open spec fn split_plain(plain: Seq<u8>) -> Option<(Seq<u8>, Seq<u8>)> {
    if plain.len() >= KEY_LEN {
        Some((plain.subrange(0, KEY_LEN as int), plain.subrange(KEY_LEN as int, plain.len() as int)))
    } else {
        None
    }
}

/// What the record `frame` gives under `key`: the key that it announces and
/// its payload. `None` where the bytes are not one whole record, where the
/// cipher cannot take them, where they do not authenticate under `key`, or
/// where they announce no key.
pub open spec fn open_record(key: Seq<u8>, frame: Seq<u8>) -> Option<(Seq<u8>, Seq<u8>)> {
    if key.len() == KEY_LEN && is_frame(frame) && frame.len() - HEAD_LEN <= MAX_INPUT {
        match aes_256_gcm_open(
            key,
            frame_iv(frame),
            frame_aad(frame),
            frame_ciphertext(frame),
            frame_tag(frame),
        ) {
            Some(plain) => split_plain(plain),
            None => None,
        }
    } else {
        None
    }
}

/// `outcome` is what reading the record `frame` under `key` comes to: what
/// [`open_record`] gives, which for a record that was sealed under `key` is
/// the key and the payload that were sealed.
pub open spec fn reads_as(key: Seq<u8>, frame: Seq<u8>, outcome: Option<(Seq<u8>, Seq<u8>)>) -> bool {
    &&& outcome == open_record(key, frame)
    &&& forall|iv: Seq<u8>, aad: Seq<u8>, next_key: Seq<u8>, payload: Seq<u8>| #[trigger]
        is_sealing(key, iv, aad, next_key, payload, frame) ==> outcome == Some((next_key, payload))
}

/// The number of bytes that an exact read moves in one step: as many as are
/// pending, or as many as the destination has room for from `offset` on,
/// whichever is less.
pub open spec fn spec_moved(pending: Seq<u8>, len: int, offset: int) -> int {
    if pending.len() < len - offset {
        pending.len() as int
    } else {
        len - offset
    }
}

/// The destination after one step of an exact read: from `offset` on, the
/// first pending bytes stand in place of what was there.
pub open spec fn spec_filled(dst: Seq<u8>, offset: int, pending: Seq<u8>) -> Seq<u8> {
    let n = spec_moved(pending, dst.len() as int, offset);
    dst.subrange(0, offset) + pending.subrange(0, n) + dst.subrange(offset + n, dst.len() as int)
}

/// What one step of an exact read reports: `Done` with the length of the
/// destination where the pending bytes reach its end, `More` with the count
/// reached where they do not.
pub open spec fn spec_progress(pending: Seq<u8>, len: int, offset: int) -> Progress {
    if offset + pending.len() >= len {
        Progress::Done(len as usize)
    } else {
        Progress::More((offset + pending.len()) as usize)
    }
}

/// Exact reads see one stream of bytes, whatever the records were. Where the
/// pending bytes do not fill the destination and the payload of the next
/// record is taken up, the two steps leave the destination, report the
/// progress and keep the rest as one step would have done with the pending
/// bytes followed by that payload.
pub proof fn lemma_exact_read_across_records(
    dst: Seq<u8>,
    offset: int,
    pending: Seq<u8>,
    payload: Seq<u8>,
)
    requires
        0 <= offset <= dst.len() <= usize::MAX,
        spec_progress(pending, dst.len() as int, offset) is More,
    ensures
        ({
            let len = dst.len() as int;
            let reached = offset + pending.len();
            let first = spec_filled(dst, offset, pending);
            let stream = pending + payload;
            &&& spec_progress(pending, len, offset) == Progress::More(reached as usize)
            &&& pending.skip(spec_moved(pending, len, offset)) == Seq::<u8>::empty()
            &&& spec_filled(first, reached, payload) == spec_filled(dst, offset, stream)
            &&& spec_progress(payload, len, reached) == spec_progress(stream, len, offset)
            &&& payload.skip(spec_moved(payload, len, reached)) == stream.skip(
                spec_moved(stream, len, offset),
            )
        }),
{
}

/// The receiving half as contracts see it.
pub struct DecryptionView {
    /// The key under which the next record will be opened.
    pub key: Seq<u8>,
    /// The bytes of the last payload that no exact read has handed out yet.
    pub pending: Seq<u8>,
}

/// How far an exact read has come.
#[derive(Debug, Clone, Copy, PartialEq, Eq, Structural)]
pub enum Progress {
    /// The destination is full; it holds this many bytes.
    Done(usize),
    /// The pending bytes are used up and the destination holds only this
    /// many: another record is needed.
    More(usize),
}

/// The receiving half: the current key, and the payload that exact reads are
/// drawing from.
pub struct Decryption {
    cur_key: Vec<u8>,
    buffer: Vec<u8>,
    buffer_offset: usize,
}

impl View for Decryption {
    type V = DecryptionView;

    closed spec fn view(&self) -> DecryptionView {
        DecryptionView {
            key: self.cur_key@,
            pending: self.buffer@.subrange(self.buffer_offset as int, self.buffer@.len() as int),
        }
    }
}

impl Decryption {
    #[verifier::type_invariant]
    spec fn consumed_within_buffer(self) -> bool {
        self.buffer_offset <= self.buffer@.len()
    }

    /// A receiving half whose first record is opened under the bytes of
    /// `first_key`, with nothing pending.
    pub fn new(first_key: String) -> (r: Decryption)
        ensures
            r@.key == encode_utf8(first_key@),
            r@.pending == Seq::<u8>::empty(),
    {
        Decryption {
            cur_key: slice_to_vec(first_key.as_str().as_bytes()),
            buffer: Vec::new(),
            buffer_offset: 0,
        }
    }

    /// The number of bytes that precede the ciphertext of a record.
    pub fn head_size(&self) -> (n: usize)
        ensures
            n == HEAD_LEN,
    {
        IV_LEN + TAG_LEN + AAD_LEN + BODY_LEN_LEN
    }

    /// The nonce in the head of a record.
    fn read_iv<'a>(&self, head: &'a [u8]) -> (iv: &'a [u8])
        requires
            head@.len() >= HEAD_LEN,
        ensures
            iv@ == frame_iv(head@),
    {
        &head[0..IV_LEN]
    }

    /// The tag in the head of a record.
    fn read_tag<'a>(&self, head: &'a [u8]) -> (tag: &'a [u8])
        requires
            head@.len() >= HEAD_LEN,
        ensures
            tag@ == frame_tag(head@),
    {
        &head[IV_LEN..IV_LEN + TAG_LEN]
    }

    /// The associated data in the head of a record.
    fn read_aad<'a>(&self, head: &'a [u8]) -> (aad: &'a [u8])
        requires
            head@.len() >= HEAD_LEN,
        ensures
            aad@ == frame_aad(head@),
    {
        let start: usize = IV_LEN + TAG_LEN;
        &head[start..start + AAD_LEN]
    }

    /// The length of the ciphertext that follows the head of a record: the
    /// number of bytes to read next.
    ///
    /// Fails where the head is short, or announces more than the cipher
    /// takes in one call.
    pub fn read_body_size(&self, head: &[u8]) -> (r: Result<usize, CodecError>)
        ensures
            match r {
                Ok(n) => head@.len() >= HEAD_LEN && n == frame_body_len(head@) && n <= MAX_INPUT,
                Err(e) => e == CodecError::InvalidData && (head@.len() < HEAD_LEN
                    || frame_body_len(head@) > MAX_INPUT),
            },
    {
        if head.len() < HEAD_LEN {
            return Err(CodecError::InvalidData);
        }
        let index: usize = IV_LEN + TAG_LEN + AAD_LEN;
        let announced: u64 = get_u64(&head[index..HEAD_LEN]);
        if announced > MAX_INPUT as u64 {
            return Err(CodecError::InvalidData);
        }
        Ok(announced as usize)
    }

    /// Takes what the cipher made of a record: moves on to the key that it
    /// announces and returns its payload.
    ///
    /// Where the cipher made nothing of it (`None`), or what it made is too
    /// short to announce a key, the record is refused and nothing changes.
    pub fn ratchet(&mut self, opened: Option<Vec<u8>>) -> (r: Result<Vec<u8>, CodecError>)
        ensures
            final(self)@.pending == old(self)@.pending,
            match r {
                Ok(payload) => {
                    &&& opened matches Some(plain)
                    &&& split_plain(plain@) == Some((final(self)@.key, payload@))
                },
                Err(e) => {
                    &&& e == CodecError::InvalidData
                    &&& final(self)@ == old(self)@
                    &&& opened matches Some(plain) ==> split_plain(plain@) is None
                },
            },
    {
        proof {
            use_type_invariant(&*self);
        }
        match opened {
            None => Err(CodecError::InvalidData),
            Some(plain) => {
                if plain.len() < KEY_LEN {
                    return Err(CodecError::InvalidData);
                }
                let mut next_key = plain;
                let payload = next_key.split_off(KEY_LEN);
                self.cur_key = next_key;
                Ok(payload)
            },
        }
    }

    /// Opens the record `frame` under the current key, moves on to the key
    /// that it announces and returns its payload.
    fn read(&mut self, frame: &[u8]) -> (r: Result<Vec<u8>, CodecError>)
        ensures
            final(self)@.pending == old(self)@.pending,
            r matches Err(e) ==> e == CodecError::InvalidData && final(self)@ == old(self)@,
            reads_as(
                old(self)@.key,
                frame@,
                match r {
                    Ok(payload) => Some((final(self)@.key, payload@)),
                    Err(_) => None,
                },
            ),
    {
        proof {
            assert forall|iv: Seq<u8>, aad: Seq<u8>, next_key: Seq<u8>, payload: Seq<u8>|
                #[trigger] is_sealing(self@.key, iv, aad, next_key, payload, frame@) implies {
                &&& self@.key.len() == KEY_LEN
                &&& is_frame(frame@)
                &&& frame@.len() - HEAD_LEN <= MAX_INPUT
                &&& aes_256_gcm_seal(self@.key, frame_iv(frame@), frame_aad(frame@), next_key + payload)
                    == Some((frame_ciphertext(frame@), frame_tag(frame@)))
            } by {
                lemma_sealing_parts(self@.key, iv, aad, next_key, payload, frame@);
            }
        }
        if self.cur_key.len() != KEY_LEN || frame.len() < HEAD_LEN {
            return Err(CodecError::InvalidData);
        }
        let head = &frame[0..HEAD_LEN];
        let body = &frame[HEAD_LEN..frame.len()];
        assert(frame@.subrange(44, 52) =~= head@.subrange(44, 52));
        assert(frame_iv(frame@) =~= frame_iv(head@));
        assert(frame_tag(frame@) =~= frame_tag(head@));
        assert(frame_aad(frame@) =~= frame_aad(head@));
        let announced: usize = match self.read_body_size(head) {
            Ok(n) => n,
            Err(e) => {
                return Err(e);
            },
        };
        if announced != body.len() {
            return Err(CodecError::InvalidData);
        }
        let iv = self.read_iv(head);
        let tag = self.read_tag(head);
        let aad = self.read_aad(head);
        let opened = match open(self.cur_key.as_slice(), iv, aad, body, tag) {
            Ok(plain) => Some(plain),
            Err(_) => None,
        };
        let ghost key_before = self@.key;
        let r = self.ratchet(opened);
        proof {
            assert forall|iv: Seq<u8>, aad: Seq<u8>, next_key: Seq<u8>, payload: Seq<u8>|
                #[trigger] is_sealing(key_before, iv, aad, next_key, payload, frame@) implies (
            r matches Ok(p) && p@ == payload && self@.key == next_key) by {
                let plain = next_key + payload;
                assert(plain.subrange(0, KEY_LEN as int) =~= next_key);
                assert(plain.subrange(KEY_LEN as int, plain.len() as int) =~= payload);
            }
        }
        r
    }

    /// The payload of the next record, whole, whatever is pending.
    ///
    /// `frame` is the record as it was received: its head, then as many
    /// bytes of ciphertext as [`Decryption::read_body_size`] found in the
    /// head. Where the bytes are not one whole record, or do not authenticate
    /// under the current key, the result is `InvalidData` and nothing
    /// changes. Otherwise the key that the record announces becomes the
    /// current key. A record that was sealed under the current key is always
    /// opened, and gives what was sealed.
    pub fn decryption_read(&mut self, frame: &[u8]) -> (r: Result<Vec<u8>, CodecError>)
        ensures
            final(self)@.pending == old(self)@.pending,
            r matches Err(e) ==> e == CodecError::InvalidData && final(self)@ == old(self)@,
            reads_as(
                old(self)@.key,
                frame@,
                match r {
                    Ok(payload) => Some((final(self)@.key, payload@)),
                    Err(_) => None,
                },
            ),
    {
        self.read(frame)
    }

    /// Moves pending bytes into `buffer` from `buf_offset` on: as many as are
    /// pending, or as many as there is room for, whichever is less. Returns
    /// their number.
    fn fill(&mut self, buffer: &mut [u8], buf_offset: usize) -> (n: usize)
        requires
            buf_offset <= old(buffer)@.len(),
        ensures
            n == spec_moved(old(self)@.pending, old(buffer)@.len() as int, buf_offset as int),
            final(buffer)@ == spec_filled(old(buffer)@, buf_offset as int, old(self)@.pending),
            final(self)@.key == old(self)@.key,
            final(self)@.pending == old(self)@.pending.skip(n as int),
    {
        proof {
            use_type_invariant(&*self);
        }
        let available: usize = self.buffer.len() - self.buffer_offset;
        let room: usize = buffer.len() - buf_offset;
        let n: usize = if available < room {
            available
        } else {
            room
        };
        let ghost pending = self@.pending;
        let ghost before = buffer@;
        let mut i: usize = 0;
        while i < n
            invariant
                i <= n,
                self.buffer_offset + n <= self.buffer@.len() <= usize::MAX,
                buf_offset + n <= buffer@.len() <= usize::MAX,
                buffer@.len() == before.len(),
                self@.pending == pending,
                pending == self.buffer@.subrange(
                    self.buffer_offset as int,
                    self.buffer@.len() as int,
                ),
                forall|j: int| 0 <= j < buf_offset ==> buffer@[j] == before[j],
                forall|j: int| buf_offset <= j < buf_offset + i ==> buffer@[j] == pending[j - buf_offset],
                forall|j: int| buf_offset + i <= j < before.len() ==> buffer@[j] == before[j],
            decreases n - i,
        {
            buffer[buf_offset + i] = self.buffer[self.buffer_offset + i];
            i = i + 1;
        }
        self.buffer_offset = self.buffer_offset + n;
        n
    }

    /// One step of reading exactly as many bytes as `buf` holds, of which
    /// `buf_offset` are there already: moves pending bytes into the rest of
    /// `buf`, and says whether that filled it.
    ///
    /// On `More`, the caller receives the next record, hands it to
    /// [`Decryption::refill`], and calls again with the count that `More`
    /// gave. On `Done` the read is complete.
    pub fn decryption_read_exact(&mut self, buf: &mut [u8], buf_offset: usize) -> (r: Progress)
        requires
            buf_offset <= old(buf)@.len(),
        ensures
            final(buf)@ == spec_filled(old(buf)@, buf_offset as int, old(self)@.pending),
            final(self)@.key == old(self)@.key,
            final(self)@.pending == old(self)@.pending.skip(
                spec_moved(old(self)@.pending, old(buf)@.len() as int, buf_offset as int),
            ),
            r == spec_progress(old(self)@.pending, old(buf)@.len() as int, buf_offset as int),
    {
        let len: usize = buf.len();
        let n: usize = self.fill(buf, buf_offset);
        let filled: usize = buf_offset + n;
        if filled >= len {
            Progress::Done(filled)
        } else {
            Progress::More(filled)
        }
    }

    /// Opens the record `frame` and makes its payload the pending bytes, in
    /// place of what was pending.
    ///
    /// Where the record is refused the result is `InvalidData` and nothing
    /// changes.
    pub fn refill(&mut self, frame: &[u8]) -> (r: Result<(), CodecError>)
        ensures
            r matches Err(e) ==> e == CodecError::InvalidData && final(self)@ == old(self)@,
            reads_as(
                old(self)@.key,
                frame@,
                match r {
                    Ok(_) => Some((final(self)@.key, final(self)@.pending)),
                    Err(_) => None,
                },
            ),
    {
        match self.read(frame) {
            Err(e) => Err(e),
            Ok(payload) => {
                proof {
                    use_type_invariant(&*self);
                }
                self.buffer_offset = 0;
                self.buffer = payload;
                assert(self@.pending =~= payload@);
                Ok(())
            },
        }
    }
}

} // verus!

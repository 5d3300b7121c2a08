//! The layout of a record on the wire, and the big-endian numbers in it.
//!
//! ```text
//! [ IV | TAG | AAD | BODY_LEN | CIPHERTEXT ]
//!   12   16    16       8          N
//! ```

use bytes::Buf;
use bytes::BufMut;
use vstd::prelude::*;

verus! {

/// Length of the nonce of AES-256-GCM.
pub const IV_LEN: usize = 12;

/// Length of the authentication tag.
pub const TAG_LEN: usize = 16;

/// Length of the associated data that accompanies every record.
pub const AAD_LEN: usize = 16;

/// Length of the field that holds the length of the ciphertext.
pub const BODY_LEN_LEN: usize = 8;

/// Length of everything that precedes the ciphertext.
pub const HEAD_LEN: usize = 52;

/// Length of an AES-256 key.
pub const KEY_LEN: usize = 32;

/// The byte of `n` that has weight `256^k`.
pub open spec fn byte_at(n: nat, k: nat) -> u8
    decreases k,
{
    if k == 0 {
        (n % 256) as u8
    } else {
        byte_at(n / 256, (k - 1) as nat)
    }
}

/// The eight bytes of `n`, most significant first.
pub open spec fn u64_be(n: u64) -> Seq<u8> {
    seq![
        byte_at(n as nat, 7),
        byte_at(n as nat, 6),
        byte_at(n as nat, 5),
        byte_at(n as nat, 4),
        byte_at(n as nat, 3),
        byte_at(n as nat, 2),
        byte_at(n as nat, 1),
        byte_at(n as nat, 0),
    ]
}

/// The number whose digits in base 256 are the first `width` bytes of `s`,
/// most significant first.
pub open spec fn be_value(s: Seq<u8>, width: nat) -> nat
    recommends
        s.len() >= width,
    decreases width,
{
    if width == 0 {
        0
    } else {
        be_value(s, (width - 1) as nat) * 256 + s[width - 1] as nat
    }
}

/// The number that the first eight bytes of `s` spell, most significant first.
pub open spec fn u64_from_be(s: Seq<u8>) -> u64
    recommends
        s.len() >= 8,
{
    be_value(s, 8) as u64
}

/// The number that the first two bytes of `s` spell, most significant first.
pub open spec fn u16_from_be(s: Seq<u8>) -> u16
    recommends
        s.len() >= 2,
{
    be_value(s, 2) as u16
}

/// Two bytes spell 256 times the first plus the second, and what eight
/// bytes spell fits in 64 bits.
pub proof fn lemma_be_value_bounds(s: Seq<u8>)
    ensures
        u16_from_be(s) == s[0] as nat * 256 + s[1] as nat,
        be_value(s, 8) <= u64::MAX,
{
    reveal_with_fuel(be_value, 9);
}

/// Reading back the eight bytes written for `n` gives `n`.
pub proof fn lemma_u64_be_round_trip(n: u64)
    ensures
        u64_be(n).len() == 8,
        u64_from_be(u64_be(n)) == n,
{
    reveal_with_fuel(be_value, 9);
    reveal_with_fuel(byte_at, 9);
}

/// A record as it travels: nonce, tag, associated data, the length of the
/// ciphertext in eight bytes, and the ciphertext.
pub open spec fn frame_bytes(iv: Seq<u8>, tag: Seq<u8>, aad: Seq<u8>, ciphertext: Seq<u8>) -> Seq<
    u8,
> {
    iv + tag + aad + u64_be(ciphertext.len() as u64) + ciphertext
}

/// The nonce of a record.
pub open spec fn frame_iv(frame: Seq<u8>) -> Seq<u8> {
    frame.subrange(0, 12)
}

/// The tag of a record.
pub open spec fn frame_tag(frame: Seq<u8>) -> Seq<u8> {
    frame.subrange(12, 28)
}

/// The associated data of a record.
pub open spec fn frame_aad(frame: Seq<u8>) -> Seq<u8> {
    frame.subrange(28, 44)
}

/// The length that a record announces for its ciphertext.
pub open spec fn frame_body_len(frame: Seq<u8>) -> u64 {
    u64_from_be(frame.subrange(44, 52))
}

/// The ciphertext of a record.
pub open spec fn frame_ciphertext(frame: Seq<u8>) -> Seq<u8> {
    frame.subrange(52, frame.len() as int)
}

/// The bytes are one whole record: a head, and as much ciphertext as the head
/// announces.
pub open spec fn is_frame(frame: Seq<u8>) -> bool {
    frame.len() >= HEAD_LEN && frame_body_len(frame) == frame.len() - HEAD_LEN
}

/// A record that was put together from its four parts is a whole record, and
/// taking it apart gives the four parts back.
pub proof fn lemma_frame_parts(iv: Seq<u8>, tag: Seq<u8>, aad: Seq<u8>, ciphertext: Seq<u8>)
    requires
        iv.len() == IV_LEN,
        tag.len() == TAG_LEN,
        aad.len() == AAD_LEN,
        ciphertext.len() <= u64::MAX,
    ensures
        is_frame(frame_bytes(iv, tag, aad, ciphertext)),
        frame_iv(frame_bytes(iv, tag, aad, ciphertext)) == iv,
        frame_tag(frame_bytes(iv, tag, aad, ciphertext)) == tag,
        frame_aad(frame_bytes(iv, tag, aad, ciphertext)) == aad,
        frame_ciphertext(frame_bytes(iv, tag, aad, ciphertext)) == ciphertext,
{
    let n = ciphertext.len() as u64;
    let frame = frame_bytes(iv, tag, aad, ciphertext);
    lemma_u64_be_round_trip(n);
    assert(frame.subrange(44, 52) =~= u64_be(n));
}

/// `bytes::BufMut::put_u64` on a `Vec<u8>`: the vector grows by the eight
/// bytes of `n`, most significant first, and keeps what it held.
#[verifier::external_body]
pub(crate) fn put_u64(buf: &mut Vec<u8>, n: u64)
    requires
        old(buf)@.len() + 8 <= usize::MAX,
    ensures
        final(buf)@ == old(buf)@ + u64_be(n),
{
    buf.put_u64(n);
}

/// `bytes::Buf::get_u64` on a byte slice: the first eight bytes read as one
/// number, most significant byte first.
#[verifier::external_body]
pub(crate) fn get_u64(buf: &[u8]) -> (n: u64)
    requires
        buf@.len() >= 8,
    ensures
        n == u64_from_be(buf@),
{
    let mut rest = buf;
    rest.get_u64()
}

/// `bytes::Buf::get_u16` on a byte slice: the first two bytes read as one
/// number, most significant byte first.
#[verifier::external_body]
pub(crate) fn get_u16(buf: &[u8]) -> (n: u16)
    requires
        buf@.len() >= 2,
    ensures
        n == u16_from_be(buf@),
{
    let mut rest = buf;
    rest.get_u16()
}

/// `bytes::Buf::get_u8` on a byte slice: its first byte.
#[verifier::external_body]
pub(crate) fn get_u8(buf: &[u8]) -> (n: u8)
    requires
        buf@.len() >= 1,
    ensures
        n == buf@[0],
{
    let mut rest = buf;
    rest.get_u8()
}

} // verus!

//! What holds of one direction of a session over any number of records.
//!
//! The sender seals record after record, each under the key that the record
//! before announced; the receiver opens them in the order in which they were
//! sealed, starting from the same key. The statements here follow from
//! what [`Encryption`](crate::encryption::Encryption) and
//! [`Decryption`](crate::decryption::Decryption) promise of a single record.

use vstd::prelude::*;

use crate::cipher::aes_256_gcm_open;
use crate::decryption::{open_record, reads_as, split_plain};
use crate::encryption::sealed;
use crate::wire::{frame_aad, frame_ciphertext, frame_iv, frame_tag, is_frame, KEY_LEN};

verus! {

/// The sender's side of a run: `keys[i]` is the key before record `i`,
/// `frames[i]` the record that was sealed for `payloads[i]`, and
/// `keys[i + 1]` the key that it announces.
pub open spec fn sender_run(
    keys: Seq<Seq<u8>>,
    payloads: Seq<Seq<u8>>,
    frames: Seq<Seq<u8>>,
) -> bool {
    &&& keys.len() == payloads.len() + 1
    &&& frames.len() == payloads.len()
    &&& forall|i: int|
        0 <= i < payloads.len() ==> sealed(keys[i], #[trigger] keys[i + 1], payloads[i], frames[i])
}

/// The key after a read with this outcome, where it was `key` before: the
/// one that the record announced, or the same where the record was refused.
pub open spec fn key_after(key: Seq<u8>, outcome: Option<(Seq<u8>, Seq<u8>)>) -> Seq<u8> {
    match outcome {
        Some((next_key, _)) => next_key,
        None => key,
    }
}

/// The receiver's side of a run: `keys[i]` is the key before record `i`,
/// `outcomes[i]` what reading `frames[i]` came to, and `keys[i + 1]` the key
/// after it.
pub open spec fn receiver_run(
    keys: Seq<Seq<u8>>,
    frames: Seq<Seq<u8>>,
    outcomes: Seq<Option<(Seq<u8>, Seq<u8>)>>,
) -> bool {
    &&& keys.len() == frames.len() + 1
    &&& outcomes.len() == frames.len()
    &&& forall|i: int|
        0 <= i < frames.len() ==> reads_as(keys[i], frames[i], outcomes[i]) && #[trigger] keys[i
            + 1] == key_after(keys[i], outcomes[i])
}

/// A record that is read under the key under which it was sealed gives the
/// payload that was sealed, and the key that it announced.
pub proof fn lemma_record_round_trip(
    key: Seq<u8>,
    next_key: Seq<u8>,
    payload: Seq<u8>,
    frame: Seq<u8>,
    outcome: Option<(Seq<u8>, Seq<u8>)>,
)
    requires
        sealed(key, next_key, payload, frame),
        reads_as(key, frame, outcome),
    ensures
        outcome == Some((next_key, payload)),
{
}

/// Round trip: where the receiver starts from the sender's first key and
/// reads the sender's records in order, every read gives the payload that
/// the sender sealed, and after every record the two hold the same key.
pub proof fn lemma_run_round_trip(
    sender_keys: Seq<Seq<u8>>,
    payloads: Seq<Seq<u8>>,
    frames: Seq<Seq<u8>>,
    receiver_keys: Seq<Seq<u8>>,
    outcomes: Seq<Option<(Seq<u8>, Seq<u8>)>>,
)
    requires
        sender_run(sender_keys, payloads, frames),
        receiver_run(receiver_keys, frames, outcomes),
        receiver_keys[0] == sender_keys[0],
    ensures
        receiver_keys == sender_keys,
        forall|i: int|
            0 <= i < payloads.len() ==> #[trigger] outcomes[i] == Some(
                (sender_keys[i + 1], payloads[i]),
            ),
{
    lemma_run_prefix(sender_keys, payloads, frames, receiver_keys, outcomes, payloads.len());
}

/// The first `n` records of a run, by induction on `n`.
proof fn lemma_run_prefix(
    sender_keys: Seq<Seq<u8>>,
    payloads: Seq<Seq<u8>>,
    frames: Seq<Seq<u8>>,
    receiver_keys: Seq<Seq<u8>>,
    outcomes: Seq<Option<(Seq<u8>, Seq<u8>)>>,
    n: nat,
)
    requires
        sender_run(sender_keys, payloads, frames),
        receiver_run(receiver_keys, frames, outcomes),
        receiver_keys[0] == sender_keys[0],
        n <= payloads.len(),
    ensures
        forall|i: int| 0 <= i <= n ==> #[trigger] receiver_keys[i] == sender_keys[i],
        forall|i: int|
            0 <= i < n ==> #[trigger] outcomes[i] == Some((sender_keys[i + 1], payloads[i])),
    decreases n,
{
    if n > 0 {
        let i = n - 1;
        lemma_run_prefix(sender_keys, payloads, frames, receiver_keys, outcomes, i as nat);
        assert(receiver_keys[i + 1] == key_after(receiver_keys[i], outcomes[i]));
        lemma_record_round_trip(
            sender_keys[i],
            sender_keys[i + 1],
            payloads[i],
            frames[i],
            outcomes[i],
        );
    }
}

/// Refusal: bytes that are not one whole record, and a record that the
/// cipher does not authenticate under the receiver's key, are refused, and
/// the key stays.
pub proof fn lemma_unauthenticated_record_is_refused(
    key: Seq<u8>,
    frame: Seq<u8>,
    outcome: Option<(Seq<u8>, Seq<u8>)>,
)
    requires
        reads_as(key, frame, outcome),
        !is_frame(frame) || aes_256_gcm_open(
            key,
            frame_iv(frame),
            frame_aad(frame),
            frame_ciphertext(frame),
            frame_tag(frame),
        ) is None,
    ensures
        outcome is None,
        key_after(key, outcome) == key,
{
}

/// Key progression: after a record has been read, the receiver's key is the
/// one that the record carried, the first 32 bytes of what the cipher opened
/// it to.
pub proof fn lemma_key_is_the_one_announced(
    key: Seq<u8>,
    frame: Seq<u8>,
    next_key: Seq<u8>,
    payload: Seq<u8>,
)
    requires
        reads_as(key, frame, Some((next_key, payload))),
    ensures
        aes_256_gcm_open(
            key,
            frame_iv(frame),
            frame_aad(frame),
            frame_ciphertext(frame),
            frame_tag(frame),
        ) matches Some(plain) && plain.len() >= KEY_LEN && next_key == plain.subrange(
            0,
            KEY_LEN as int,
        ) && payload == plain.subrange(KEY_LEN as int, plain.len() as int),
{
}

/// Key progression over a run: after `i` records that were all read, the
/// receiver's key is the one that record `i` carried, and before that the
/// one that the run started with.
pub proof fn lemma_run_keys(
    keys: Seq<Seq<u8>>,
    frames: Seq<Seq<u8>>,
    outcomes: Seq<Option<(Seq<u8>, Seq<u8>)>>,
    i: int,
)
    requires
        receiver_run(keys, frames, outcomes),
        1 <= i <= frames.len(),
        outcomes[i - 1] is Some,
    ensures
        open_record(keys[i - 1], frames[i - 1]) matches Some((announced, _)) && keys[i]
            == announced,
{
    assert(keys[(i - 1) + 1] == key_after(keys[i - 1], outcomes[i - 1]));
}

} // verus!

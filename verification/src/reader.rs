//! An exact read over any number of records.
//!
//! [`Decryption::decryption_read_exact`](crate::decryption::Decryption::decryption_read_exact)
//! is one step of an exact read, and says when the payload of another record
//! is needed. Here the steps are put end to end, and the outcome is held
//! against the payloads laid end to end: an exact read sees one stream of
//! bytes, and where one record ends and the next begins makes no difference
//! to it.

use vstd::prelude::*;

use crate::decryption::{
    lemma_exact_read_across_records, spec_filled, spec_moved, spec_progress, Progress,
};

verus! {

/// Payloads laid end to end.
pub open spec fn concat(payloads: Seq<Seq<u8>>) -> Seq<u8>
    decreases payloads.len(),
{
    if payloads.len() == 0 {
        Seq::empty()
    } else {
        payloads[0] + concat(payloads.drop_first())
    }
}

/// What an exact read came to.
pub struct ExactRead {
    /// The destination.
    pub dst: Seq<u8>,
    /// Whether the destination is full, and how many bytes it holds.
    pub progress: Progress,
    /// The bytes that are left pending.
    pub pending: Seq<u8>,
    /// The number of records whose payload was taken up.
    pub records: nat,
}

/// The exact read that fills `dst` from `offset` on, first from the pending
/// bytes and then from the payloads of the records that follow, one after
/// the other, for as long as the destination is not full and a record is
/// left.
pub open spec fn exact_read(
    dst: Seq<u8>,
    offset: int,
    pending: Seq<u8>,
    payloads: Seq<Seq<u8>>,
) -> ExactRead
    decreases payloads.len(),
{
    let len = dst.len() as int;
    let filled = spec_filled(dst, offset, pending);
    match spec_progress(pending, len, offset) {
        Progress::Done(n) => ExactRead {
            dst: filled,
            progress: Progress::Done(n),
            pending: pending.skip(spec_moved(pending, len, offset)),
            records: 0,
        },
        Progress::More(n) => if payloads.len() == 0 {
            ExactRead {
                dst: filled,
                progress: Progress::More(n),
                pending: Seq::empty(),
                records: 0,
            }
        } else {
            let rest = exact_read(filled, n as int, payloads[0], payloads.drop_first());
            ExactRead { records: rest.records + 1, ..rest }
        },
    }
}

/// The payloads of the first `k + 1` records are the first payload followed
/// by the payloads of the next `k`.
proof fn lemma_concat_take(payloads: Seq<Seq<u8>>, k: nat)
    requires
        k < payloads.len(),
    ensures
        concat(payloads.take(k as int + 1)) == payloads[0] + concat(payloads.drop_first().take(k as int)),
{
    assert(payloads.take(k as int + 1).drop_first() =~= payloads.drop_first().take(k as int));
}

/// An exact read takes up no more records than there are, goes on until the
/// destination is full or no record is left, and leaves the destination,
/// the progress and the pending bytes as one step would have done with all
/// the bytes that it took up pending at once.
pub proof fn lemma_exact_read_sees_one_stream(
    dst: Seq<u8>,
    offset: int,
    pending: Seq<u8>,
    payloads: Seq<Seq<u8>>,
)
    requires
        0 <= offset <= dst.len() <= usize::MAX,
    ensures
        ({
            let read = exact_read(dst, offset, pending, payloads);
            let stream = pending + concat(payloads.take(read.records as int));
            let len = dst.len() as int;
            &&& read.records <= payloads.len()
            &&& read.progress is Done || read.records == payloads.len()
            &&& read.dst == spec_filled(dst, offset, stream)
            &&& read.progress == spec_progress(stream, len, offset)
            &&& read.pending == stream.skip(spec_moved(stream, len, offset))
        }),
    decreases payloads.len(),
{
    if let Progress::More(n) = spec_progress(pending, dst.len() as int, offset) {
        if payloads.len() > 0 {
            let filled = spec_filled(dst, offset, pending);
            let rest = exact_read(filled, n as int, payloads[0], payloads.drop_first());
            lemma_exact_read_sees_one_stream(filled, n as int, payloads[0], payloads.drop_first());
            lemma_concat_take(payloads, rest.records);
            lemma_exact_read_across_records(
                dst,
                offset,
                pending,
                payloads[0] + concat(payloads.drop_first().take(rest.records as int)),
            );
        }
    }
}

} // verus!

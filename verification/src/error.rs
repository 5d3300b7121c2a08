//! Why the codec gives up on a record.

use vstd::prelude::*;

verus! {

/// Why a record could not be written or read.
#[derive(Debug, Clone, Copy, PartialEq, Eq, Structural)]
pub enum CodecError {
    /// What was received is not a record, or does not authenticate under the
    /// current key.
    InvalidData,
    /// The cipher did not seal the record.
    Seal,
    /// The random generator gave no bytes.
    Random,
}

} // verus!

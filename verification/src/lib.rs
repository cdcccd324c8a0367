//! Indexed ID list storage engine: an entry store keyed by positive 64-bit
//! identifiers, secondary bitmap indexes, exactness-tagged candidate sets for
//! query resolution, snapshot-isolated read transactions with a single
//! exclusive writer, and a read-only consistency verifier.

use vstd::prelude::*;

pub mod assoc;
pub mod bitrange;
pub mod idl;
pub mod types;
pub mod state;
pub mod txn;
pub mod consistency;

verus! {

/// The storage engine's error kinds.
///
/// `InvalidEntryId` marks a non-positive or out-of-range identifier at a
/// storage boundary; `EncodingError` a payload that could not be converted;
/// `StorageError` an underlying storage failure (also used when a second
/// write transaction is refused while one is open); `TransactionClosed` any
/// use of a write transaction after commit or abort; `IndexNotFound` a strict
/// lookup of an index that does not exist.
#[derive(Clone, Copy, Debug, PartialEq, Eq, Structural)]
pub enum OperationError {
    InvalidEntryId,
    EncodingError,
    StorageError,
    TransactionClosed,
    IndexNotFound,
}

} // verus!

//! Plain data carried through the engine: raw entry records, the signed
//! record form used at the storage boundary, index kinds, identities and the
//! timestamp watermark.

use vstd::prelude::*;
use crate::OperationError;

verus! {

/// The indexing strategies a secondary index can use. Each kind defines its
/// own key normalization but shares the same storage shape.
#[derive(Clone, Copy, Debug, PartialEq, Eq, Structural)]
pub enum IndexType {
    Equality,
    Presence,
    SubString,
}

/// A 128-bit identity, the engine's plain-value form of a UUID.
#[derive(Clone, Copy, Debug, PartialEq, Eq, Structural)]
pub struct Identity {
    pub value: u128,
}

/// The maximum-observed-timestamp watermark, as whole seconds and a
/// sub-second nanosecond remainder.
#[derive(Clone, Copy, Debug, PartialEq, Eq, Structural)]
pub struct DbTimestamp {
    pub secs: u64,
    pub nanos: u32,
}

/// A raw entry record as the store holds it: a positive 64-bit identifier
/// and an opaque serialized payload owned by the external encoding layer.
#[derive(Debug, PartialEq, Eq)]
pub struct IdRawEntry {
    pub id: u64,
    pub data: Vec<u8>,
}

/// An entry record in the signed form used at the storage boundary, where
/// identifiers travel as `i64` and non-positive values are invalid.
#[derive(Debug, PartialEq, Eq)]
pub struct IdXlsxEntry {
    pub id: i64,
    pub data: Vec<u8>,
}

/// Boundary conversion from a signed record to a raw record: a non-positive
/// identifier is rejected, any other converts unchanged.
pub open spec fn spec_raw_of_xlsx(id: i64, data: Seq<u8>) -> Result<(u64, Seq<u8>), OperationError> {
    if id <= 0 {
        Result::Err(OperationError::InvalidEntryId)
    } else {
        Result::Ok((id as u64, data))
    }
}

/// Boundary conversion from a raw record to a signed record: the zero
/// identifier and identifiers beyond `i64::MAX` are rejected, any other
/// converts unchanged.
pub open spec fn spec_xlsx_of_raw(id: u64, data: Seq<u8>) -> Result<(i64, Seq<u8>), OperationError> {
    if id == 0 || id > i64::MAX as u64 {
        Result::Err(OperationError::InvalidEntryId)
    } else {
        Result::Ok((id as i64, data))
    }
}

impl IdRawEntry {
    /// Convert a signed boundary record into a raw record, per
    /// [`spec_raw_of_xlsx`].
    pub fn try_from(value: IdXlsxEntry) -> (r: Result<IdRawEntry, OperationError>)
        ensures
            (match r {
                Result::Ok(v) => spec_raw_of_xlsx(value.id, value.data@) == Result::Ok::<
                    (u64, Seq<u8>),
                    OperationError,
                >((v.id, v.data@)),
                Result::Err(e) => spec_raw_of_xlsx(value.id, value.data@) == Result::Err::<
                    (u64, Seq<u8>),
                    OperationError,
                >(e),
            }),
    {
        if value.id <= 0 {
            Err(OperationError::InvalidEntryId)
        } else {
            Ok(IdRawEntry { id: value.id as u64, data: value.data })
        }
    }
}

impl IdXlsxEntry {
    /// Build a signed boundary record from its parts.
    pub fn new(id: i64, data: Vec<u8>) -> (r: IdXlsxEntry)
        ensures
            r.id == id,
            r.data@ == data@,
    {
        IdXlsxEntry { id, data }
    }

    /// Convert a raw record into a signed boundary record, per
    /// [`spec_xlsx_of_raw`].
    pub fn try_from(value: IdRawEntry) -> (r: Result<IdXlsxEntry, OperationError>)
        ensures
            (match r {
                Result::Ok(v) => spec_xlsx_of_raw(value.id, value.data@) == Result::Ok::<
                    (i64, Seq<u8>),
                    OperationError,
                >((v.id, v.data@)),
                Result::Err(e) => spec_xlsx_of_raw(value.id, value.data@) == Result::Err::<
                    (i64, Seq<u8>),
                    OperationError,
                >(e),
            }),
    {
        if value.id == 0 || value.id > i64::MAX as u64 {
            Err(OperationError::InvalidEntryId)
        } else {
            Ok(IdXlsxEntry { id: value.id as i64, data: value.data })
        }
    }
}

/// Identifier validity at the boundary: every conversion of a non-positive
/// identifier fails with `InvalidEntryId`, and every positive identifier
/// converts losslessly there and back, in both directions.
pub proof fn lemma_entry_id_round_trip(id: i64, uid: u64, data: Seq<u8>)
    ensures
        id <= 0 ==> spec_raw_of_xlsx(id, data) == Result::<(u64, Seq<u8>), OperationError>::Err(
            OperationError::InvalidEntryId,
        ),
        id > 0 ==> (spec_raw_of_xlsx(id, data) matches Result::Ok(p)
            && spec_xlsx_of_raw(p.0, p.1) == Result::<(i64, Seq<u8>), OperationError>::Ok(
            (id, data),
        )),
        uid == 0 ==> spec_xlsx_of_raw(uid, data) == Result::<(i64, Seq<u8>), OperationError>::Err(
            OperationError::InvalidEntryId,
        ),
        1 <= uid <= i64::MAX as u64 ==> (spec_xlsx_of_raw(uid, data) matches Result::Ok(q)
            && spec_raw_of_xlsx(q.0, q.1) == Result::<(u64, Seq<u8>), OperationError>::Ok(
            (uid, data),
        )),
{
}

} // verus!

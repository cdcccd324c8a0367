//! The consistency verifier's vocabulary.
//!
//! The verifier cross-checks the entry store against the secondary indexes.
//! Since entry payloads are opaque at this layer, the caller — the external
//! encoding layer that can decode them — supplies, for each live entry, the
//! `(attribute, kind, key)` triples its values should be indexed under. The
//! verifier then confirms both directions: every supplied triple of a live
//! entry with a created index is present in that index under the entry's
//! identifier, and every identifier an index binds belongs to a live entry
//! that claims the triple. Divergences are collected, never raised as a
//! first failure.

use vstd::prelude::*;
use crate::state::StoreView;
use crate::types::IndexType;

verus! {

/// A finding of the consistency verifier.
#[derive(Clone, Copy, Debug, PartialEq, Eq, Structural)]
pub enum ConsistencyError {
    /// A live entry's indexable value is missing from the created index it
    /// belongs in; the payload names the entry's identifier.
    EntryNotIndexed(u64),
    /// An index binds an identifier that no live entry claims under that
    /// key; the payload names the bound identifier.
    IndexedIdNotLive(u64),
}

/// One indexable value of an entry: the index key its value normalizes to.
pub struct IndexPair {
    pub attr: String,
    pub itype: IndexType,
    pub key: String,
}

/// The indexable values of one live entry, as the encoding layer extracted
/// them.
pub struct EntryPairs {
    pub id: u64,
    pub pairs: Vec<IndexPair>,
}

/// The index-map key an indexable value normalizes to.
pub open spec fn pair_key(p: IndexPair) -> (Seq<char>, IndexType, Seq<char>) {
    (p.attr@, p.itype, p.key@)
}

/// One indexable value of one entry is properly indexed: if an index was
/// created for its attribute and kind, the index binds its key and the
/// bound set holds the entry's identifier.
pub open spec fn spec_pair_ok(sv: StoreView, p: IndexPair, id: u64) -> bool {
    sv.idx_defs.contains((p.attr@, p.itype)) ==> (sv.idx.contains_key(pair_key(p))
        && sv.idx[pair_key(p)].contains(id))
}

/// Every supplied indexable value of every supplied entry is properly
/// indexed.
pub open spec fn spec_entries_indexed(sv: StoreView, eps: Seq<EntryPairs>) -> bool {
    forall|i: int, j: int|
        0 <= i < eps.len() && 0 <= j < eps[i].pairs@.len() ==> spec_pair_ok(
            sv,
            (#[trigger] eps[i].pairs@[j]),
            eps[i].id,
        )
}

/// Some supplied entry carries this identifier and claims this index key
/// among its indexable values.
pub open spec fn spec_entry_claims(
    eps: Seq<EntryPairs>,
    id: u64,
    t: (Seq<char>, IndexType, Seq<char>),
) -> bool {
    exists|i: int, j: int|
        0 <= i < eps.len() && 0 <= j < eps[i].pairs@.len() && eps[i].id == id && pair_key(
            (#[trigger] eps[i].pairs@[j]),
        ) == t
}

/// The identifier belongs to a live entry that claims the index key.
pub open spec fn spec_live_claim(
    sv: StoreView,
    eps: Seq<EntryPairs>,
    id: u64,
    t: (Seq<char>, IndexType, Seq<char>),
) -> bool {
    sv.entries.contains_key(id) && spec_entry_claims(eps, id, t)
}

/// Every identifier every index binds belongs to a live entry that claims
/// the binding.
pub open spec fn spec_index_backed(sv: StoreView, eps: Seq<EntryPairs>) -> bool {
    forall|t: (Seq<char>, IndexType, Seq<char>), id: u64|
        sv.idx.contains_key(t) && #[trigger] sv.idx[t].contains(id) ==> spec_live_claim(
            sv,
            eps,
            id,
            t,
        )
}

/// A store is consistent with the supplied extraction when both directions
/// hold: entries are fully indexed, and indexes are fully backed.
pub open spec fn spec_consistent(sv: StoreView, eps: Seq<EntryPairs>) -> bool {
    spec_entries_indexed(sv, eps) && spec_index_backed(sv, eps)
}

/// A genuine gap: some supplied indexable value of an entry with this
/// identifier is not properly indexed.
pub open spec fn spec_entry_gap(sv: StoreView, eps: Seq<EntryPairs>, id: u64) -> bool {
    exists|i: int, j: int|
        0 <= i < eps.len() && 0 <= j < eps[i].pairs@.len() && eps[i].id == id && !spec_pair_ok(
            sv,
            (#[trigger] eps[i].pairs@[j]),
            id,
        )
}

/// A genuine stale binding: some index binds this identifier though no live
/// entry claims it under that key.
pub open spec fn spec_stale_binding(sv: StoreView, eps: Seq<EntryPairs>, id: u64) -> bool {
    exists|t: (Seq<char>, IndexType, Seq<char>)|
        sv.idx.contains_key(t) && #[trigger] sv.idx[t].contains(id) && !spec_live_claim(
            sv,
            eps,
            id,
            t,
        )
}

/// Every finding a verifier report may hold is genuine for the store and
/// extraction it was produced from.
pub open spec fn spec_findings_genuine(
    sv: StoreView,
    eps: Seq<EntryPairs>,
    r: Seq<Result<(), ConsistencyError>>,
) -> bool {
    forall|n: int|
        0 <= n < r.len() ==> (match #[trigger] r[n] {
            Result::Ok(u) => false,
            Result::Err(e) => (match e {
                ConsistencyError::EntryNotIndexed(id) => spec_entry_gap(sv, eps, id),
                ConsistencyError::IndexedIdNotLive(id) => spec_stale_binding(sv, eps, id),
            }),
        })
}

} // verus!

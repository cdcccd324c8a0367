//! The transaction lifecycle around the store.
//!
//! A store hands out any number of read transactions, each over a snapshot
//! of the committed state taken when it opens: later commits never reach an
//! already open read transaction. At most one write transaction is open at a
//! time; a second request fails deterministically while the first holds the
//! writer. A write transaction works on its own copy of the state, so
//! dropping or aborting it leaves the store exactly as it was, and a commit
//! replaces the committed state atomically and releases the writer. A
//! committed or aborted write transaction refuses every further operation.

use vstd::prelude::*;
use idlset::v2::IDLBitRange;
use crate::OperationError;
use crate::bitrange::idl_spec;
use crate::idl::{IDL, IdlView};
use crate::state::{
    StoreState, StoreView, empty_store_view, entry_pairs, spec_idx_name, spec_is_idx_name_of,
    spec_listing_has, spec_max_after, spec_selected_listing, spec_upsert_all, spec_version_of,
};
use crate::types::{DbTimestamp, IdRawEntry, Identity, IndexType};
use crate::consistency::{ConsistencyError, EntryPairs, spec_consistent, spec_findings_genuine};

verus! {

/// Configuration for opening a store: the path its data lives under. An
/// empty path names a temporary, memory-only store.
#[derive(Clone, Debug)]
pub struct IdlXlsxConfig {
    path: String,
}

impl IdlXlsxConfig {
    /// The configured path.
    pub closed spec fn spec_path(&self) -> Seq<char> {
        self.path@
    }

    /// A configuration for a temporary, memory-only store.
    pub fn new_temporary() -> (r: IdlXlsxConfig)
        ensures
            r.spec_path() == Seq::<char>::empty(),
    {
        IdlXlsxConfig { path: String::new() }
    }

    /// A configuration for a store under the given path.
    pub fn new(path: &str) -> (r: IdlXlsxConfig)
        ensures
            r.spec_path() == path@,
    {
        IdlXlsxConfig { path: path.to_owned() }
    }
}

/// A store handle: the committed state and the single-writer latch.
pub struct IdlXlsx {
    state: StoreState,
    write_locked: bool,
}

impl View for IdlXlsx {
    type V = StoreView;

    closed spec fn view(&self) -> StoreView {
        self.state@
    }
}

impl IdlXlsx {
    /// The handle's invariant: its committed state is well formed.
    pub closed spec fn wf(self) -> bool {
        self.state.wf()
    }

    /// Whether a write transaction currently holds the writer.
    pub closed spec fn is_write_locked(self) -> bool {
        self.write_locked
    }

    /// Open a store under a configuration; the in-memory engine starts
    /// empty whatever the path names.
    pub fn new(_config: IdlXlsxConfig) -> (r: Result<IdlXlsx, OperationError>)
        ensures
            (r matches Result::Ok(s) && s.wf() && s@ == empty_store_view()
                && !s.is_write_locked()),
    {
        Ok(IdlXlsx { state: StoreState::new(), write_locked: false })
    }

    /// Open a read transaction over a snapshot of the committed state as of
    /// this call; commits that happen later do not reach it.
    pub fn read(&self) -> (r: IdlXlsxReadTransaction)
        requires
            self.wf(),
        ensures
            r.wf(),
            r@ == self@,
    {
        IdlXlsxReadTransaction::new(self.state.snapshot())
    }

    /// Open the write transaction. While one is already open the request
    /// fails deterministically with a storage error and nothing changes;
    /// otherwise the caller receives an open transaction seeded with the
    /// committed state, and the writer is held until it commits or aborts.
    pub fn write(&mut self) -> (r: Result<IdlXlsxWriteTransaction, OperationError>)
        requires
            old(self).wf(),
        ensures
            final(self).wf(),
            final(self)@ == old(self)@,
            (match r {
                Result::Ok(t) => !old(self).is_write_locked() && final(self).is_write_locked()
                    && t.wf() && t@ == old(self)@ && !t.is_closed(),
                Result::Err(e) => old(self).is_write_locked() && final(self).is_write_locked() && e
                    == OperationError::StorageError,
            }),
    {
        if self.write_locked {
            return Err(OperationError::StorageError);
        }
        self.write_locked = true;
        Ok(IdlXlsxWriteTransaction::new(self.state.snapshot()))
    }

    /// How many transactions the store serves at once on the write side:
    /// exactly one.
    pub fn get_pool_size(&self) -> (r: usize)
        ensures
            r == 1,
    {
        1
    }
}

/// A read transaction: a snapshot of the committed state at open time.
pub struct IdlXlsxReadTransaction {
    state: StoreState,
}

impl View for IdlXlsxReadTransaction {
    type V = StoreView;

    closed spec fn view(&self) -> StoreView {
        self.state@
    }
}

impl IdlXlsxReadTransaction {
    /// The transaction's invariant: its snapshot is well formed.
    pub closed spec fn wf(self) -> bool {
        self.state.wf()
    }

    /// A read transaction over the given snapshot.
    pub fn new(state: StoreState) -> (r: IdlXlsxReadTransaction)
        requires
            state.wf(),
        ensures
            r.wf(),
            r@ == state@,
    {
        IdlXlsxReadTransaction { state }
    }

    /// Retrieve the records a candidate set selects, per
    /// [`StoreState::get_identry_raw`].
    pub fn get_identry_raw(&self, idl: &IDL) -> (r: Result<Vec<IdRawEntry>, OperationError>)
        requires
            self.wf(),
        ensures
            (match r {
                Result::Ok(v) => (match idl@ {
                    IdlView::AllIds => spec_selected_listing(
                        entry_pairs(v@),
                        self@.entries,
                        Option::None,
                    ),
                    IdlView::Indexed(s) => spec_selected_listing(
                        entry_pairs(v@),
                        self@.entries,
                        Option::Some(s),
                    ),
                    IdlView::Partial(s) => spec_selected_listing(
                        entry_pairs(v@),
                        self@.entries,
                        Option::Some(s),
                    ),
                    IdlView::PartialThreshold(s) => spec_selected_listing(
                        entry_pairs(v@),
                        self@.entries,
                        Option::Some(s),
                    ),
                }),
                Result::Err(e) => false,
            }),
    {
        self.state.get_identry_raw(idl)
    }

    /// Whether an index exists for `(attr, itype)`.
    pub fn exists_idx(&self, attr: &str, itype: &IndexType) -> (r: Result<bool, OperationError>)
        requires
            self.wf(),
        ensures
            r == Result::<bool, OperationError>::Ok(self@.idx_defs.contains((attr@, *itype))),
    {
        Ok(self.state.exists_idx(attr, itype))
    }

    /// Look one key up in a secondary index, per [`StoreState::get_idl`].
    pub fn get_idl(&self, attr: &str, itype: &IndexType, idx_key: &str) -> (r: Result<
        Option<IDLBitRange>,
        OperationError,
    >)
        requires
            self.wf(),
        ensures
            (match r {
                Result::Ok(o) => (match o {
                    Option::Some(b) => self@.idx.contains_key((attr@, *itype, idx_key@))
                        && idl_spec(b) == self@.idx[(attr@, *itype, idx_key@)] && idl_spec(
                        b,
                    ).finite(),
                    Option::None => !self@.idx.contains_key((attr@, *itype, idx_key@)),
                }),
                Result::Err(e) => false,
            }),
    {
        Ok(self.state.get_idl(attr, itype, idx_key))
    }

    /// Resolve one query term, per [`StoreState::resolve_term`].
    pub fn resolve_term(
        &self,
        attr: &str,
        itype: &IndexType,
        idx_key: &str,
        threshold: usize,
    ) -> (r: IDL)
        requires
            self.wf(),
        ensures
            r.wf(),
            !self@.idx.contains_key((attr@, *itype, idx_key@)) ==> r@ == IdlView::AllIds,
            self@.idx.contains_key((attr@, *itype, idx_key@)) && self@.idx[(
                attr@,
                *itype,
                idx_key@,
            )].len() <= threshold ==> r@ == IdlView::Indexed(self@.idx[(attr@, *itype, idx_key@)]),
            self@.idx.contains_key((attr@, *itype, idx_key@)) && self@.idx[(
                attr@,
                *itype,
                idx_key@,
            )].len() > threshold ==> (r@ matches IdlView::PartialThreshold(s) && s.len()
                == threshold && s.subset_of(self@.idx[(attr@, *itype, idx_key@)])),
    {
        self.state.resolve_term(attr, itype, idx_key, threshold)
    }

    /// Resolve a name to its identity.
    pub fn name2uuid(&self, name: &str) -> (r: Result<Option<Identity>, OperationError>)
        requires
            self.wf(),
        ensures
            (match r {
                Result::Ok(o) => (match o {
                    Option::Some(u) => self@.name2uuid.contains_key(name@) && u
                        == self@.name2uuid[name@],
                    Option::None => !self@.name2uuid.contains_key(name@),
                }),
                Result::Err(e) => false,
            }),
    {
        Ok(self.state.name2uuid(name))
    }

    /// Resolve an identity to its display value.
    pub fn uuid2spn(&self, uuid: &Identity) -> (r: Result<Option<String>, OperationError>)
        requires
            self.wf(),
        ensures
            (match r {
                Result::Ok(o) => (match o {
                    Option::Some(s) => self@.uuid2spn.contains_key(*uuid) && s@
                        == self@.uuid2spn[*uuid],
                    Option::None => !self@.uuid2spn.contains_key(*uuid),
                }),
                Result::Err(e) => false,
            }),
    {
        Ok(self.state.uuid2spn(uuid))
    }

    /// Resolve an identity to its relative name.
    pub fn uuid2rdn(&self, uuid: &Identity) -> (r: Result<Option<String>, OperationError>)
        requires
            self.wf(),
        ensures
            (match r {
                Result::Ok(o) => (match o {
                    Option::Some(s) => self@.uuid2rdn.contains_key(*uuid) && s@
                        == self@.uuid2rdn[*uuid],
                    Option::None => !self@.uuid2rdn.contains_key(*uuid),
                }),
                Result::Err(e) => false,
            }),
    {
        Ok(self.state.uuid2rdn(uuid))
    }

    /// The server identity, if initialized.
    pub fn get_db_s_uuid(&self) -> (r: Result<Option<Identity>, OperationError>)
        ensures
            r == Result::<Option<Identity>, OperationError>::Ok(self@.s_uuid),
    {
        Ok(self.state.get_db_s_uuid())
    }

    /// The domain identity, if initialized.
    pub fn get_db_d_uuid(&self) -> (r: Result<Option<Identity>, OperationError>)
        ensures
            r == Result::<Option<Identity>, OperationError>::Ok(self@.d_uuid),
    {
        Ok(self.state.get_db_d_uuid())
    }

    /// The timestamp watermark, if set.
    pub fn get_db_ts_max(&self) -> (r: Result<Option<DbTimestamp>, OperationError>)
        ensures
            r == Result::<Option<DbTimestamp>, OperationError>::Ok(self@.ts_max),
    {
        Ok(self.state.get_db_ts_max())
    }

    /// Run the consistency verifier over this snapshot, per
    /// [`StoreState::verify`]: every finding is genuine and the report is
    /// empty exactly when store and extraction are consistent.
    pub fn verify(&self, eps: &Vec<EntryPairs>) -> (r: Vec<Result<(), ConsistencyError>>)
        requires
            self.wf(),
        ensures
            spec_findings_genuine(self@, eps@, r@),
            r@.len() == 0 <==> spec_consistent(self@, eps@),
    {
        self.state.verify(eps)
    }
}

/// The single write transaction: a working copy of the committed state, the
/// buffered mutations applied to it, and a latch that closes on commit.
pub struct IdlXlsxWriteTransaction {
    state: StoreState,
    committed: bool,
}

impl View for IdlXlsxWriteTransaction {
    type V = StoreView;

    closed spec fn view(&self) -> StoreView {
        self.state@
    }
}

impl IdlXlsxWriteTransaction {
    /// The transaction's invariant: its working state is well formed.
    pub closed spec fn wf(self) -> bool {
        self.state.wf()
    }

    /// Whether the transaction has been committed or aborted; every further
    /// operation on a closed transaction fails.
    pub closed spec fn is_closed(self) -> bool {
        self.committed
    }

    /// An open write transaction over the given working state.
    pub fn new(state: StoreState) -> (r: IdlXlsxWriteTransaction)
        requires
            state.wf(),
        ensures
            r.wf(),
            r@ == state@,
            !r.is_closed(),
    {
        IdlXlsxWriteTransaction { state, committed: false }
    }

    /// Commit: atomically replace the store's committed state with this
    /// transaction's state and release the writer. Commit is single-shot:
    /// on a transaction that was already committed it fails with
    /// `TransactionClosed` and touches nothing.
    pub fn commit(&mut self, store: &mut IdlXlsx) -> (r: Result<(), OperationError>)
        requires
            old(self).wf(),
            old(store).wf(),
        ensures
            final(self).wf(),
            final(store).wf(),
            (match r {
                Result::Ok(u) => !old(self).is_closed() && final(self).is_closed()
                    && final(store)@ == old(self)@ && !final(store).is_write_locked()
                    && final(self)@ == old(store)@,
                Result::Err(e) => old(self).is_closed() && e == OperationError::TransactionClosed
                    && *final(store) == *old(store) && *final(self) == *old(self),
            }),
    {
        if self.committed {
            return Err(OperationError::TransactionClosed);
        }
        core::mem::swap(&mut store.state, &mut self.state);
        store.write_locked = false;
        self.committed = true;
        Ok(())
    }

    /// Abort: discard this transaction's working state and release the
    /// writer; the store keeps its committed state untouched. Ending a write
    /// transaction without committing it is defined as an abort.
    pub fn abort(self, store: &mut IdlXlsx)
        requires
            old(store).wf(),
        ensures
            final(store).wf(),
            final(store)@ == old(store)@,
            final(store).is_write_locked() == (old(store).is_write_locked() && self.is_closed()),
    {
        if !self.committed {
            store.write_locked = false;
        }
    }

    /// Retrieve the records a candidate set selects from this transaction's
    /// working state, per [`StoreState::get_identry_raw`].
    pub fn get_identry_raw(&self, idl: &IDL) -> (r: Result<Vec<IdRawEntry>, OperationError>)
        requires
            self.wf(),
        ensures
            (match r {
                Result::Ok(v) => !self.is_closed() && (match idl@ {
                    IdlView::AllIds => spec_selected_listing(
                        entry_pairs(v@),
                        self@.entries,
                        Option::None,
                    ),
                    IdlView::Indexed(s) => spec_selected_listing(
                        entry_pairs(v@),
                        self@.entries,
                        Option::Some(s),
                    ),
                    IdlView::Partial(s) => spec_selected_listing(
                        entry_pairs(v@),
                        self@.entries,
                        Option::Some(s),
                    ),
                    IdlView::PartialThreshold(s) => spec_selected_listing(
                        entry_pairs(v@),
                        self@.entries,
                        Option::Some(s),
                    ),
                }),
                Result::Err(e) => self.is_closed() && e == OperationError::TransactionClosed,
            }),
    {
        if self.committed {
            return Err(OperationError::TransactionClosed);
        }
        self.state.get_identry_raw(idl)
    }

    /// Whether an index exists for `(attr, itype)`.
    pub fn exists_idx(&self, attr: &str, itype: &IndexType) -> (r: Result<bool, OperationError>)
        requires
            self.wf(),
        ensures
            !self.is_closed() ==> r == Result::<bool, OperationError>::Ok(
                self@.idx_defs.contains((attr@, *itype)),
            ),
            self.is_closed() ==> r == Result::<bool, OperationError>::Err(
                OperationError::TransactionClosed,
            ),
    {
        if self.committed {
            return Err(OperationError::TransactionClosed);
        }
        Ok(self.state.exists_idx(attr, itype))
    }

    /// Look one key up in a secondary index, per [`StoreState::get_idl`].
    pub fn get_idl(&self, attr: &str, itype: &IndexType, idx_key: &str) -> (r: Result<
        Option<IDLBitRange>,
        OperationError,
    >)
        requires
            self.wf(),
        ensures
            (match r {
                Result::Ok(o) => !self.is_closed() && (match o {
                    Option::Some(b) => self@.idx.contains_key((attr@, *itype, idx_key@))
                        && idl_spec(b) == self@.idx[(attr@, *itype, idx_key@)] && idl_spec(
                        b,
                    ).finite(),
                    Option::None => !self@.idx.contains_key((attr@, *itype, idx_key@)),
                }),
                Result::Err(e) => self.is_closed() && e == OperationError::TransactionClosed,
            }),
    {
        if self.committed {
            return Err(OperationError::TransactionClosed);
        }
        Ok(self.state.get_idl(attr, itype, idx_key))
    }

    /// Resolve one query term, per [`StoreState::resolve_term`].
    pub fn resolve_term(
        &self,
        attr: &str,
        itype: &IndexType,
        idx_key: &str,
        threshold: usize,
    ) -> (r: Result<IDL, OperationError>)
        requires
            self.wf(),
        ensures
            (match r {
                Result::Ok(l) => !self.is_closed() && l.wf() && (!self@.idx.contains_key(
                    (attr@, *itype, idx_key@),
                ) ==> l@ == IdlView::AllIds) && (self@.idx.contains_key((attr@, *itype, idx_key@))
                    && self@.idx[(attr@, *itype, idx_key@)].len() <= threshold ==> l@
                    == IdlView::Indexed(self@.idx[(attr@, *itype, idx_key@)])) && (
                self@.idx.contains_key((attr@, *itype, idx_key@)) && self@.idx[(
                    attr@,
                    *itype,
                    idx_key@,
                )].len() > threshold ==> (l@ matches IdlView::PartialThreshold(s) && s.len()
                    == threshold && s.subset_of(self@.idx[(attr@, *itype, idx_key@)]))),
                Result::Err(e) => self.is_closed() && e == OperationError::TransactionClosed,
            }),
    {
        if self.committed {
            return Err(OperationError::TransactionClosed);
        }
        Ok(self.state.resolve_term(attr, itype, idx_key, threshold))
    }

    /// Resolve a name to its identity.
    pub fn name2uuid(&self, name: &str) -> (r: Result<Option<Identity>, OperationError>)
        requires
            self.wf(),
        ensures
            (match r {
                Result::Ok(o) => !self.is_closed() && (match o {
                    Option::Some(u) => self@.name2uuid.contains_key(name@) && u
                        == self@.name2uuid[name@],
                    Option::None => !self@.name2uuid.contains_key(name@),
                }),
                Result::Err(e) => self.is_closed() && e == OperationError::TransactionClosed,
            }),
    {
        if self.committed {
            return Err(OperationError::TransactionClosed);
        }
        Ok(self.state.name2uuid(name))
    }

    /// Resolve an identity to its display value.
    pub fn uuid2spn(&self, uuid: &Identity) -> (r: Result<Option<String>, OperationError>)
        requires
            self.wf(),
        ensures
            (match r {
                Result::Ok(o) => !self.is_closed() && (match o {
                    Option::Some(s) => self@.uuid2spn.contains_key(*uuid) && s@
                        == self@.uuid2spn[*uuid],
                    Option::None => !self@.uuid2spn.contains_key(*uuid),
                }),
                Result::Err(e) => self.is_closed() && e == OperationError::TransactionClosed,
            }),
    {
        if self.committed {
            return Err(OperationError::TransactionClosed);
        }
        Ok(self.state.uuid2spn(uuid))
    }

    /// Resolve an identity to its relative name.
    pub fn uuid2rdn(&self, uuid: &Identity) -> (r: Result<Option<String>, OperationError>)
        requires
            self.wf(),
        ensures
            (match r {
                Result::Ok(o) => !self.is_closed() && (match o {
                    Option::Some(s) => self@.uuid2rdn.contains_key(*uuid) && s@
                        == self@.uuid2rdn[*uuid],
                    Option::None => !self@.uuid2rdn.contains_key(*uuid),
                }),
                Result::Err(e) => self.is_closed() && e == OperationError::TransactionClosed,
            }),
    {
        if self.committed {
            return Err(OperationError::TransactionClosed);
        }
        Ok(self.state.uuid2rdn(uuid))
    }

    /// The server identity, if initialized.
    pub fn get_db_s_uuid(&self) -> (r: Result<Option<Identity>, OperationError>)
        ensures
            !self.is_closed() ==> r == Result::<Option<Identity>, OperationError>::Ok(
                self@.s_uuid,
            ),
            self.is_closed() ==> r == Result::<Option<Identity>, OperationError>::Err(
                OperationError::TransactionClosed,
            ),
    {
        if self.committed {
            return Err(OperationError::TransactionClosed);
        }
        Ok(self.state.get_db_s_uuid())
    }

    /// The domain identity, if initialized.
    pub fn get_db_d_uuid(&self) -> (r: Result<Option<Identity>, OperationError>)
        ensures
            !self.is_closed() ==> r == Result::<Option<Identity>, OperationError>::Ok(
                self@.d_uuid,
            ),
            self.is_closed() ==> r == Result::<Option<Identity>, OperationError>::Err(
                OperationError::TransactionClosed,
            ),
    {
        if self.committed {
            return Err(OperationError::TransactionClosed);
        }
        Ok(self.state.get_db_d_uuid())
    }

    /// The timestamp watermark, if set.
    pub fn get_db_ts_max(&self) -> (r: Result<Option<DbTimestamp>, OperationError>)
        ensures
            !self.is_closed() ==> r == Result::<Option<DbTimestamp>, OperationError>::Ok(
                self@.ts_max,
            ),
            self.is_closed() ==> r == Result::<Option<DbTimestamp>, OperationError>::Err(
                OperationError::TransactionClosed,
            ),
    {
        if self.committed {
            return Err(OperationError::TransactionClosed);
        }
        Ok(self.state.get_db_ts_max())
    }

    /// The identifier allocation watermark: at least every identifier ever
    /// stored, across deletes.
    pub fn get_id2entry_max_id(&self) -> (r: Result<u64, OperationError>)
        ensures
            !self.is_closed() ==> r == Result::<u64, OperationError>::Ok(self@.max_id),
            self.is_closed() ==> r == Result::<u64, OperationError>::Err(
                OperationError::TransactionClosed,
            ),
    {
        if self.committed {
            return Err(OperationError::TransactionClosed);
        }
        Ok(self.state.get_max_id())
    }

    /// The next free identifier: the watermark plus one. Fails with a
    /// storage error if the identifier space is exhausted.
    pub fn allocate_next_id(&self) -> (r: Result<u64, OperationError>)
        ensures
            !self.is_closed() && self@.max_id < u64::MAX ==> r == Result::<u64, OperationError>::Ok(
                (self@.max_id + 1) as u64,
            ),
            !self.is_closed() && self@.max_id == u64::MAX ==> r == Result::<u64, OperationError>::Err(
                OperationError::StorageError,
            ),
            self.is_closed() ==> r == Result::<u64, OperationError>::Err(
                OperationError::TransactionClosed,
            ),
    {
        if self.committed {
            return Err(OperationError::TransactionClosed);
        }
        let m = self.state.get_max_id();
        if m == u64::MAX {
            return Err(OperationError::StorageError);
        }
        Ok(m + 1)
    }

    /// Upsert a batch of records, per [`StoreState::write_identries_raw`].
    pub fn write_identries_raw(&mut self, entries: Vec<IdRawEntry>) -> (r: Result<
        (),
        OperationError,
    >)
        requires
            old(self).wf(),
        ensures
            final(self).wf(),
            final(self).is_closed() == old(self).is_closed(),
            old(self).is_closed() ==> r == Result::<(), OperationError>::Err(
                OperationError::TransactionClosed,
            ) && final(self)@ == old(self)@,
            !old(self).is_closed() ==> (match r {
                Result::Ok(u) => (forall|i: int|
                    0 <= i < entries@.len() ==> (#[trigger] entries@[i]).id >= 1) && final(self)@
                    == (StoreView {
                    entries: spec_upsert_all(old(self)@.entries, entry_pairs(entries@)),
                    max_id: spec_max_after(old(self)@.max_id, entry_pairs(entries@)),
                    ..old(self)@
                }),
                Result::Err(e) => e == OperationError::InvalidEntryId && (exists|i: int|
                    0 <= i < entries@.len() && (#[trigger] entries@[i]).id == 0) && final(self)@
                    == old(self)@,
            }),
    {
        if self.committed {
            return Err(OperationError::TransactionClosed);
        }
        self.state.write_identries_raw(entries)
    }

    /// Delete one record, per [`StoreState::delete_identry`].
    pub fn delete_identry(&mut self, id: u64) -> (r: Result<(), OperationError>)
        requires
            old(self).wf(),
        ensures
            final(self).wf(),
            final(self).is_closed() == old(self).is_closed(),
            old(self).is_closed() ==> r == Result::<(), OperationError>::Err(
                OperationError::TransactionClosed,
            ) && final(self)@ == old(self)@,
            !old(self).is_closed() ==> r == Result::<(), OperationError>::Ok(()) && final(self)@
                == (StoreView { entries: old(self)@.entries.remove(id), ..old(self)@ }),
    {
        if self.committed {
            return Err(OperationError::TransactionClosed);
        }
        self.state.delete_identry(id)
    }

    /// Bind or purge one secondary-index key, per [`StoreState::write_idl`].
    pub fn write_idl(
        &mut self,
        attr: &str,
        itype: &IndexType,
        idx_key: &str,
        idl: &IDLBitRange,
    ) -> (r: Result<(), OperationError>)
        requires
            old(self).wf(),
            idl_spec(*idl).finite(),
        ensures
            final(self).wf(),
            final(self).is_closed() == old(self).is_closed(),
            old(self).is_closed() ==> r == Result::<(), OperationError>::Err(
                OperationError::TransactionClosed,
            ) && final(self)@ == old(self)@,
            !old(self).is_closed() ==> r == Result::<(), OperationError>::Ok(()) && (idl_spec(*idl)
                == Set::<u64>::empty() ==> final(self)@ == (StoreView {
                idx: old(self)@.idx.remove((attr@, *itype, idx_key@)),
                ..old(self)@
            })) && (idl_spec(*idl) != Set::<u64>::empty() ==> final(self)@ == (StoreView {
                idx: old(self)@.idx.insert((attr@, *itype, idx_key@), idl_spec(*idl)),
                ..old(self)@
            })),
    {
        if self.committed {
            return Err(OperationError::TransactionClosed);
        }
        self.state.write_idl(attr, itype, idx_key, idl)
    }

    /// Create an index, per [`StoreState::create_idx`]; idempotent.
    pub fn create_idx(&mut self, attr: &str, itype: &IndexType) -> (r: Result<(), OperationError>)
        requires
            old(self).wf(),
        ensures
            final(self).wf(),
            final(self).is_closed() == old(self).is_closed(),
            old(self).is_closed() ==> r == Result::<(), OperationError>::Err(
                OperationError::TransactionClosed,
            ) && final(self)@ == old(self)@,
            !old(self).is_closed() ==> r == Result::<(), OperationError>::Ok(()) && final(self)@
                == (StoreView {
                idx_defs: old(self)@.idx_defs.insert((attr@, *itype)),
                ..old(self)@
            }),
    {
        if self.committed {
            return Err(OperationError::TransactionClosed);
        }
        self.state.create_idx(attr, itype)
    }

    /// The display names of every created index.
    pub fn list_idxs(&self) -> (r: Result<Vec<String>, OperationError>)
        requires
            self.wf(),
        ensures
            (match r {
                Result::Ok(v) => !self.is_closed() && (forall|j: int|
                    0 <= j < v@.len() ==> spec_is_idx_name_of(self@.idx_defs, (#[trigger] v@[j])@))
                    && (forall|d: (Seq<char>, IndexType)| #[trigger]
                    self@.idx_defs.contains(d) ==> spec_listing_has(v@, spec_idx_name(d.0, d.1))),
                Result::Err(e) => self.is_closed() && e == OperationError::TransactionClosed,
            }),
    {
        if self.committed {
            return Err(OperationError::TransactionClosed);
        }
        Ok(self.state.list_idxs())
    }

    /// Prepare the `name -> identity` resolution index; idempotent no-op.
    pub fn create_name2uuid(&self) -> (r: Result<(), OperationError>)
        ensures
            !self.is_closed() ==> r == Result::<(), OperationError>::Ok(()),
            self.is_closed() ==> r == Result::<(), OperationError>::Err(
                OperationError::TransactionClosed,
            ),
    {
        if self.committed {
            return Err(OperationError::TransactionClosed);
        }
        self.state.create_name2uuid()
    }

    /// Prepare the `identity -> display value` resolution index; idempotent
    /// no-op.
    pub fn create_uuid2spn(&self) -> (r: Result<(), OperationError>)
        ensures
            !self.is_closed() ==> r == Result::<(), OperationError>::Ok(()),
            self.is_closed() ==> r == Result::<(), OperationError>::Err(
                OperationError::TransactionClosed,
            ),
    {
        if self.committed {
            return Err(OperationError::TransactionClosed);
        }
        self.state.create_uuid2spn()
    }

    /// Prepare the `identity -> relative name` resolution index; idempotent
    /// no-op.
    pub fn create_uuid2rdn(&self) -> (r: Result<(), OperationError>)
        ensures
            !self.is_closed() ==> r == Result::<(), OperationError>::Ok(()),
            self.is_closed() ==> r == Result::<(), OperationError>::Err(
                OperationError::TransactionClosed,
            ),
    {
        if self.committed {
            return Err(OperationError::TransactionClosed);
        }
        self.state.create_uuid2rdn()
    }

    /// Bind a name to an identity.
    pub fn write_name2uuid_add(&mut self, name: &str, uuid: &Identity) -> (r: Result<
        (),
        OperationError,
    >)
        requires
            old(self).wf(),
        ensures
            final(self).wf(),
            final(self).is_closed() == old(self).is_closed(),
            old(self).is_closed() ==> r == Result::<(), OperationError>::Err(
                OperationError::TransactionClosed,
            ) && final(self)@ == old(self)@,
            !old(self).is_closed() ==> r == Result::<(), OperationError>::Ok(()) && final(self)@
                == (StoreView {
                name2uuid: old(self)@.name2uuid.insert(name@, *uuid),
                ..old(self)@
            }),
    {
        if self.committed {
            return Err(OperationError::TransactionClosed);
        }
        self.state.write_name2uuid_add(name, uuid)
    }

    /// Remove a name's binding.
    pub fn write_name2uuid_rem(&mut self, name: &str) -> (r: Result<(), OperationError>)
        requires
            old(self).wf(),
        ensures
            final(self).wf(),
            final(self).is_closed() == old(self).is_closed(),
            old(self).is_closed() ==> r == Result::<(), OperationError>::Err(
                OperationError::TransactionClosed,
            ) && final(self)@ == old(self)@,
            !old(self).is_closed() ==> r == Result::<(), OperationError>::Ok(()) && final(self)@
                == (StoreView {
                name2uuid: old(self)@.name2uuid.remove(name@),
                ..old(self)@
            }),
    {
        if self.committed {
            return Err(OperationError::TransactionClosed);
        }
        self.state.write_name2uuid_rem(name)
    }

    /// Bind or unbind an identity's display value.
    pub fn write_uuid2spn(&mut self, uuid: &Identity, k: Option<&String>) -> (r: Result<
        (),
        OperationError,
    >)
        requires
            old(self).wf(),
        ensures
            final(self).wf(),
            final(self).is_closed() == old(self).is_closed(),
            old(self).is_closed() ==> r == Result::<(), OperationError>::Err(
                OperationError::TransactionClosed,
            ) && final(self)@ == old(self)@,
            !old(self).is_closed() ==> r == Result::<(), OperationError>::Ok(()) && (match k {
                Option::Some(s) => final(self)@ == (StoreView {
                    uuid2spn: old(self)@.uuid2spn.insert(*uuid, s@),
                    ..old(self)@
                }),
                Option::None => final(self)@ == (StoreView {
                    uuid2spn: old(self)@.uuid2spn.remove(*uuid),
                    ..old(self)@
                }),
            }),
    {
        if self.committed {
            return Err(OperationError::TransactionClosed);
        }
        self.state.write_uuid2spn(uuid, k)
    }

    /// Bind or unbind an identity's relative name.
    pub fn write_uuid2rdn(&mut self, uuid: &Identity, k: Option<&String>) -> (r: Result<
        (),
        OperationError,
    >)
        requires
            old(self).wf(),
        ensures
            final(self).wf(),
            final(self).is_closed() == old(self).is_closed(),
            old(self).is_closed() ==> r == Result::<(), OperationError>::Err(
                OperationError::TransactionClosed,
            ) && final(self)@ == old(self)@,
            !old(self).is_closed() ==> r == Result::<(), OperationError>::Ok(()) && (match k {
                Option::Some(s) => final(self)@ == (StoreView {
                    uuid2rdn: old(self)@.uuid2rdn.insert(*uuid, s@),
                    ..old(self)@
                }),
                Option::None => final(self)@ == (StoreView {
                    uuid2rdn: old(self)@.uuid2rdn.remove(*uuid),
                    ..old(self)@
                }),
            }),
    {
        if self.committed {
            return Err(OperationError::TransactionClosed);
        }
        self.state.write_uuid2rdn(uuid, k)
    }

    /// Set the server identity.
    pub fn write_db_s_uuid(&mut self, nsid: Identity) -> (r: Result<(), OperationError>)
        requires
            old(self).wf(),
        ensures
            final(self).wf(),
            final(self).is_closed() == old(self).is_closed(),
            old(self).is_closed() ==> r == Result::<(), OperationError>::Err(
                OperationError::TransactionClosed,
            ) && final(self)@ == old(self)@,
            !old(self).is_closed() ==> r == Result::<(), OperationError>::Ok(()) && final(self)@
                == (StoreView { s_uuid: Option::Some(nsid), ..old(self)@ }),
    {
        if self.committed {
            return Err(OperationError::TransactionClosed);
        }
        self.state.write_db_s_uuid(nsid)
    }

    /// Set the domain identity.
    pub fn write_db_d_uuid(&mut self, nsid: Identity) -> (r: Result<(), OperationError>)
        requires
            old(self).wf(),
        ensures
            final(self).wf(),
            final(self).is_closed() == old(self).is_closed(),
            old(self).is_closed() ==> r == Result::<(), OperationError>::Err(
                OperationError::TransactionClosed,
            ) && final(self)@ == old(self)@,
            !old(self).is_closed() ==> r == Result::<(), OperationError>::Ok(()) && final(self)@
                == (StoreView { d_uuid: Option::Some(nsid), ..old(self)@ }),
    {
        if self.committed {
            return Err(OperationError::TransactionClosed);
        }
        self.state.write_db_d_uuid(nsid)
    }

    /// Set the timestamp watermark.
    pub fn set_db_ts_max(&mut self, ts: &DbTimestamp) -> (r: Result<(), OperationError>)
        requires
            old(self).wf(),
        ensures
            final(self).wf(),
            final(self).is_closed() == old(self).is_closed(),
            old(self).is_closed() ==> r == Result::<(), OperationError>::Err(
                OperationError::TransactionClosed,
            ) && final(self)@ == old(self)@,
            !old(self).is_closed() ==> r == Result::<(), OperationError>::Ok(()) && final(self)@
                == (StoreView { ts_max: Option::Some(*ts), ..old(self)@ }),
    {
        if self.committed {
            return Err(OperationError::TransactionClosed);
        }
        self.state.set_db_ts_max(ts)
    }

    /// Read the version counter a metadata key names.
    pub fn get_db_version_key(&self, key: &str) -> (r: i64)
        ensures
            r == spec_version_of(self@, key@),
    {
        self.state.get_db_version_key(key)
    }

    /// Write the version counter a metadata key names.
    pub fn set_db_version_key(&mut self, key: &str, v: i64) -> (r: Result<(), ()>)
        requires
            old(self).wf(),
        ensures
            final(self).wf(),
            final(self).is_closed() == old(self).is_closed(),
            key@ == "id2entry"@ ==> r == Result::<(), ()>::Ok(()) && final(self)@ == (StoreView {
                id2entry_version: v,
                ..old(self)@
            }),
            key@ != "id2entry"@ && key@ == "indexv"@ ==> r == Result::<(), ()>::Ok(())
                && final(self)@ == (StoreView { index_version: v, ..old(self)@ }),
            key@ != "id2entry"@ && key@ != "indexv"@ ==> r == Result::<(), ()>::Err(())
                && final(self)@ == old(self)@,
    {
        self.state.set_db_version_key(key, v)
    }

    /// The index-layout format version.
    pub fn get_db_index_version(&self) -> (r: i64)
        ensures
            r == self@.index_version,
    {
        proof {
            reveal_strlit("indexv");
            reveal_strlit("id2entry");
            assert("indexv"@.len() == 6 && "id2entry"@.len() == 8);
        }
        self.state.get_db_version_key("indexv")
    }

    /// Set the index-layout format version.
    pub fn set_db_index_version(&mut self, v: i64) -> (r: Result<(), OperationError>)
        requires
            old(self).wf(),
        ensures
            final(self).wf(),
            final(self).is_closed() == old(self).is_closed(),
            r == Result::<(), OperationError>::Ok(()),
            final(self)@ == (StoreView { index_version: v, ..old(self)@ }),
    {
        proof {
            reveal_strlit("indexv");
            reveal_strlit("id2entry");
            assert("indexv"@.len() == 6 && "id2entry"@.len() == 8);
        }
        match self.state.set_db_version_key("indexv", v) {
            Ok(u) => Ok(u),
            Err(u) => Err(OperationError::StorageError),
        }
    }

    /// Drop every secondary index, per [`StoreState::purge_idxs`].
    pub fn purge_idxs(&mut self) -> (r: Result<(), OperationError>)
        requires
            old(self).wf(),
        ensures
            final(self).wf(),
            final(self).is_closed() == old(self).is_closed(),
            old(self).is_closed() ==> r == Result::<(), OperationError>::Err(
                OperationError::TransactionClosed,
            ) && final(self)@ == old(self)@,
            !old(self).is_closed() ==> r == Result::<(), OperationError>::Ok(()) && final(self)@
                == (StoreView { idx: Map::empty(), idx_defs: Set::empty(), ..old(self)@ }),
    {
        if self.committed {
            return Err(OperationError::TransactionClosed);
        }
        self.state.purge_idxs()
    }

    /// Drop every entry record, per [`StoreState::purge_id2entry`]; the
    /// allocation watermark stays where it is.
    pub fn purge_id2entry(&mut self) -> (r: Result<(), OperationError>)
        requires
            old(self).wf(),
        ensures
            final(self).wf(),
            final(self).is_closed() == old(self).is_closed(),
            old(self).is_closed() ==> r == Result::<(), OperationError>::Err(
                OperationError::TransactionClosed,
            ) && final(self)@ == old(self)@,
            !old(self).is_closed() ==> r == Result::<(), OperationError>::Ok(()) && final(self)@
                == (StoreView { entries: Map::empty(), ..old(self)@ }),
    {
        if self.committed {
            return Err(OperationError::TransactionClosed);
        }
        self.state.purge_id2entry()
    }

    /// Bring the store's format up to the current layout, per
    /// [`StoreState::setup`].
    pub fn setup(&mut self) -> (r: Result<(), OperationError>)
        requires
            old(self).wf(),
        ensures
            final(self).wf(),
            final(self).is_closed() == old(self).is_closed(),
            old(self).is_closed() ==> r == Result::<(), OperationError>::Err(
                OperationError::TransactionClosed,
            ) && final(self)@ == old(self)@,
            !old(self).is_closed() ==> r == Result::<(), OperationError>::Ok(()) && final(self)@
                == (StoreView {
                id2entry_version: if old(self)@.id2entry_version < 1 {
                    1
                } else {
                    old(self)@.id2entry_version
                },
                ..old(self)@
            }),
    {
        if self.committed {
            return Err(OperationError::TransactionClosed);
        }
        self.state.setup()
    }

    /// Run the consistency verifier over this transaction's working state,
    /// per [`StoreState::verify`]: every finding is genuine and the report
    /// is empty exactly when store and extraction are consistent.
    pub fn verify(&self, eps: &Vec<EntryPairs>) -> (r: Vec<Result<(), ConsistencyError>>)
        requires
            self.wf(),
        ensures
            spec_findings_genuine(self@, eps@, r@),
            r@.len() == 0 <==> spec_consistent(self@, eps@),
    {
        self.state.verify(eps)
    }

    /// The bitmap of every live entry identifier in this transaction's
    /// working state.
    pub fn get_allids(&self) -> (r: Result<IDLBitRange, OperationError>)
        requires
            self.wf(),
        ensures
            (match r {
                Result::Ok(b) => !self.is_closed() && idl_spec(b).finite() && (forall|id: u64|
                    #[trigger] idl_spec(b).contains(id) <==> self@.entries.contains_key(id)),
                Result::Err(e) => self.is_closed() && e == OperationError::TransactionClosed,
            }),
    {
        if self.committed {
            return Err(OperationError::TransactionClosed);
        }
        Ok(self.state.get_allids())
    }
}

} // verus!

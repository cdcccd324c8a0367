//! The store's state: the primary entry store, the secondary indexes, the
//! resolution indexes and the metadata singletons, together with every read
//! and write operation a transaction can issue against them.
//!
//! Each keyed collection is a vector of slots with pairwise distinct keys;
//! the state as a whole is modelled by a [`StoreView`], and every operation's
//! contract says exactly how it reads or rewrites that view.

use vstd::prelude::*;
use vstd::string::StringExecFns;
use idlset::v2::IDLBitRange;
use crate::OperationError;
use crate::assoc::{
    assoc_has, assoc_map, assoc_unique, lemma_assoc_absent, lemma_assoc_at, lemma_assoc_insert_at,
    lemma_assoc_push, lemma_assoc_remove, lemma_assoc_update,
};
use crate::bitrange::{idl_clone, idl_contains, idl_is_empty, idl_new, idl_insert, idl_spec, idl_to_sorted_vec};
use crate::idl::{IDL, IdlView, apply_threshold};
use crate::types::{DbTimestamp, IdRawEntry, Identity, IndexType};
use crate::consistency::{
    ConsistencyError, EntryPairs, IndexPair, pair_key, spec_consistent, spec_entries_indexed,
    spec_entry_claims, spec_entry_gap, spec_findings_genuine, spec_index_backed, spec_live_claim,
    spec_pair_ok, spec_stale_binding,
};

verus! {

/// Relies on `<str as PartialEq>::eq`: two string slices are equal exactly
/// when their character sequences are.
#[verifier::external_body]
pub(crate) fn str_eq(a: &str, b: &str) -> (r: bool)
    ensures
        r == (a@ == b@),
{
    a == b
}

/// One secondary-index binding: `(attribute, kind, key)` to a bitmap set.
struct IdxSlot {
    attr: String,
    itype: IndexType,
    key: String,
    idl: IDLBitRange,
}

/// One created index: an `(attribute, kind)` pair.
struct IdxDef {
    attr: String,
    itype: IndexType,
}

/// One `name -> identity` resolution binding.
struct NameSlot {
    name: String,
    uuid: Identity,
}

/// One `identity -> display value` resolution binding.
struct SpnSlot {
    uuid: Identity,
    spn: String,
}

/// One `identity -> relative name` resolution binding.
struct RdnSlot {
    uuid: Identity,
    rdn: String,
}

/// The mathematical model of a store: each collection as a finite map or
/// set, and the metadata singletons as plain values.
pub struct StoreView {
    /// Live entries: identifier to opaque payload.
    pub entries: Map<u64, Seq<u8>>,
    /// The allocation watermark: at least every identifier ever stored.
    pub max_id: u64,
    /// The `(attribute, kind)` pairs for which an index has been created.
    pub idx_defs: Set<(Seq<char>, IndexType)>,
    /// Secondary indexes: `(attribute, kind, key)` to the set of matching
    /// identifiers; never bound to an empty set.
    pub idx: Map<(Seq<char>, IndexType, Seq<char>), Set<u64>>,
    /// Resolution index `name -> identity`.
    pub name2uuid: Map<Seq<char>, Identity>,
    /// Resolution index `identity -> display value`.
    pub uuid2spn: Map<Identity, Seq<char>>,
    /// Resolution index `identity -> relative name`.
    pub uuid2rdn: Map<Identity, Seq<char>>,
    /// The server identity, once initialized.
    pub s_uuid: Option<Identity>,
    /// The domain identity, once initialized.
    pub d_uuid: Option<Identity>,
    /// The maximum-observed-timestamp watermark, once set.
    pub ts_max: Option<DbTimestamp>,
    /// Format version of the entry store.
    pub id2entry_version: i64,
    /// Format version of the index layout.
    pub index_version: i64,
}

/// The in-memory state of one store (or of one transaction's snapshot of it).
pub struct StoreState {
    entries: Vec<IdRawEntry>,
    max_id: u64,
    idx_defs: Vec<IdxDef>,
    idx_slots: Vec<IdxSlot>,
    name2uuid: Vec<NameSlot>,
    uuid2spn: Vec<SpnSlot>,
    uuid2rdn: Vec<RdnSlot>,
    s_uuid: Option<Identity>,
    d_uuid: Option<Identity>,
    ts_max: Option<DbTimestamp>,
    id2entry_version: i64,
    index_version: i64,
}

/// The identifier/payload pairs of a sequence of records.
pub open spec fn entry_pairs(s: Seq<IdRawEntry>) -> Seq<(u64, Seq<u8>)> {
    s.map_values(|e: IdRawEntry| (e.id, e.data@))
}

/// The entry map after upserting each pair in order; on a repeated
/// identifier the later pair wins.
pub open spec fn spec_upsert_all(m: Map<u64, Seq<u8>>, recs: Seq<(u64, Seq<u8>)>) -> Map<
    u64,
    Seq<u8>,
>
    decreases recs.len(),
{
    if recs.len() == 0 {
        m
    } else {
        spec_upsert_all(m, recs.drop_last()).insert(recs.last().0, recs.last().1)
    }
}

/// The allocation watermark after storing each pair: the running maximum of
/// the starting watermark and every stored identifier.
pub open spec fn spec_max_after(m: u64, recs: Seq<(u64, Seq<u8>)>) -> u64
    decreases recs.len(),
{
    if recs.len() == 0 {
        m
    } else {
        let p = spec_max_after(m, recs.drop_last());
        if recs.last().0 > p {
            recs.last().0
        } else {
            p
        }
    }
}

/// Which identifiers a listing request selects: every live one, or the
/// members of a candidate set.
pub open spec fn spec_selected(sel: Option<Set<u64>>, id: u64) -> bool {
    match sel {
        Option::None => true,
        Option::Some(s) => s.contains(id),
    }
}

/// `ps` lists, in ascending identifier order, exactly the live entries that
/// the request selects: each listed pair is a live binding and selected, and
/// every selected live identifier is listed.
pub open spec fn spec_selected_listing(
    ps: Seq<(u64, Seq<u8>)>,
    m: Map<u64, Seq<u8>>,
    sel: Option<Set<u64>>,
) -> bool {
    &&& (forall|i: int, j: int| 0 <= i < j < ps.len() ==> ps[i].0 < ps[j].0)
    &&& (forall|i: int|
        0 <= i < ps.len() ==> m.contains_key((#[trigger] ps[i]).0) && ps[i].1 == m[ps[i].0]
            && spec_selected(sel, ps[i].0))
    &&& (forall|k: u64|
        #[trigger] m.contains_key(k) && spec_selected(sel, k) ==> exists|i: int|
            0 <= i < ps.len() && (#[trigger] ps[i]).0 == k)
}

/// The version counter a metadata key names: the entry-store format for
/// `id2entry`, the index format for `indexv`, zero for an unknown key.
pub open spec fn spec_version_of(v: StoreView, key: Seq<char>) -> i64 {
    if key == "id2entry"@ {
        v.id2entry_version
    } else if key == "indexv"@ {
        v.index_version
    } else {
        0
    }
}

/// Sorted records bind pairwise distinct identifiers.
proof fn lemma_entries_unique(s: Seq<IdRawEntry>)
    requires
        forall|i: int, j: int| 0 <= i < j < s.len() ==> s[i].id < s[j].id,
    ensures
        assoc_unique(entry_pairs(s)),
{
    assert forall|i: int, j: int|
        0 <= i < j < entry_pairs(s).len() implies entry_pairs(s)[i].0 != entry_pairs(s)[j].0 by {
        assert(s[i].id < s[j].id);
    }
}

spec fn idx_slot_pairs(s: Seq<IdxSlot>) -> Seq<((Seq<char>, IndexType, Seq<char>), Set<u64>)> {
    s.map_values(|sl: IdxSlot| ((sl.attr@, sl.itype, sl.key@), idl_spec(sl.idl)))
}

spec fn name_pairs(s: Seq<NameSlot>) -> Seq<(Seq<char>, Identity)> {
    s.map_values(|n: NameSlot| (n.name@, n.uuid))
}

spec fn spn_pairs(s: Seq<SpnSlot>) -> Seq<(Identity, Seq<char>)> {
    s.map_values(|n: SpnSlot| (n.uuid, n.spn@))
}

spec fn rdn_pairs(s: Seq<RdnSlot>) -> Seq<(Identity, Seq<char>)> {
    s.map_values(|n: RdnSlot| (n.uuid, n.rdn@))
}

spec fn def_set(s: Seq<IdxDef>) -> Set<(Seq<char>, IndexType)> {
    Set::new(
        |d: (Seq<char>, IndexType)|
            exists|i: int| 0 <= i < s.len() && (#[trigger] s[i].attr@, s[i].itype) == d,
    )
}

impl View for StoreState {
    type V = StoreView;

    closed spec fn view(&self) -> StoreView {
        StoreView {
            entries: assoc_map(entry_pairs(self.entries@)),
            max_id: self.max_id,
            idx_defs: def_set(self.idx_defs@),
            idx: assoc_map(idx_slot_pairs(self.idx_slots@)),
            name2uuid: assoc_map(name_pairs(self.name2uuid@)),
            uuid2spn: assoc_map(spn_pairs(self.uuid2spn@)),
            uuid2rdn: assoc_map(rdn_pairs(self.uuid2rdn@)),
            s_uuid: self.s_uuid,
            d_uuid: self.d_uuid,
            ts_max: self.ts_max,
            id2entry_version: self.id2entry_version,
            index_version: self.index_version,
        }
    }
}

/// The view of a freshly initialized, empty store.
pub open spec fn empty_store_view() -> StoreView {
    StoreView {
        entries: Map::empty(),
        max_id: 0,
        idx_defs: Set::empty(),
        idx: Map::empty(),
        name2uuid: Map::empty(),
        uuid2spn: Map::empty(),
        uuid2rdn: Map::empty(),
        s_uuid: Option::None,
        d_uuid: Option::None,
        ts_max: Option::None,
        id2entry_version: 0,
        index_version: 0,
    }
}

impl StoreState {
    /// The store's internal invariant: entries sorted by ascending positive
    /// identifier and bounded by the watermark, every keyed collection with
    /// pairwise distinct keys, and every index binding finite and non-empty.
    pub closed spec fn wf(self) -> bool {
        &&& (forall|i: int, j: int|
            0 <= i < j < self.entries@.len() ==> self.entries@[i].id < self.entries@[j].id)
        &&& (forall|i: int|
            0 <= i < self.entries@.len() ==> 1 <= (#[trigger] self.entries@[i]).id
                && self.entries@[i].id <= self.max_id)
        &&& (forall|i: int, j: int|
            0 <= i < j < self.idx_defs@.len() ==> (self.idx_defs@[i].attr@,
            self.idx_defs@[i].itype) != (self.idx_defs@[j].attr@, self.idx_defs@[j].itype))
        &&& assoc_unique(idx_slot_pairs(self.idx_slots@))
        &&& (forall|i: int|
            0 <= i < self.idx_slots@.len() ==> idl_spec(
                (#[trigger] self.idx_slots@[i]).idl,
            ).finite() && idl_spec(self.idx_slots@[i].idl) != Set::<u64>::empty())
        &&& assoc_unique(name_pairs(self.name2uuid@))
        &&& assoc_unique(spn_pairs(self.uuid2spn@))
        &&& assoc_unique(rdn_pairs(self.uuid2rdn@))
    }

    /// A fresh, empty store.
    pub fn new() -> (r: StoreState)
        ensures
            r.wf(),
            r@ == empty_store_view(),
    {
        let r = StoreState {
            entries: Vec::new(),
            max_id: 0,
            idx_defs: Vec::new(),
            idx_slots: Vec::new(),
            name2uuid: Vec::new(),
            uuid2spn: Vec::new(),
            uuid2rdn: Vec::new(),
            s_uuid: None,
            d_uuid: None,
            ts_max: None,
            id2entry_version: 0,
            index_version: 0,
        };
        proof {
            assert(r@.entries =~= Map::<u64, Seq<u8>>::empty());
            assert(r@.idx =~= Map::<(Seq<char>, IndexType, Seq<char>), Set<u64>>::empty());
            assert(r@.idx_defs =~= Set::<(Seq<char>, IndexType)>::empty());
            assert(r@.name2uuid =~= Map::<Seq<char>, Identity>::empty());
            assert(r@.uuid2spn =~= Map::<Identity, Seq<char>>::empty());
            assert(r@.uuid2rdn =~= Map::<Identity, Seq<char>>::empty());
            assert(r@ =~= empty_store_view());
        }
        r
    }

    /// Whether an index has been created for `(attr, itype)`.
    pub fn exists_idx(&self, attr: &str, itype: &IndexType) -> (r: bool)
        requires
            self.wf(),
        ensures
            r == self@.idx_defs.contains((attr@, *itype)),
    {
        let mut i: usize = 0;
        while i < self.idx_defs.len()
            invariant
                i <= self.idx_defs@.len(),
                forall|j: int|
                    0 <= j < i ==> ((#[trigger] self.idx_defs@[j]).attr@, self.idx_defs@[j].itype)
                        != (attr@, *itype),
            decreases self.idx_defs@.len() - i,
        {
            let d = &self.idx_defs[i];
            if d.itype == *itype && str_eq(d.attr.as_str(), attr) {
                assert(self@.idx_defs.contains((attr@, *itype)));
                return true;
            }
            i += 1;
        }
        assert(!self@.idx_defs.contains((attr@, *itype)));
        false
    }

    /// Look one key up in a secondary index: the bitmap bound to
    /// `(attr, itype, idx_key)`, or `None` when that key holds no binding.
    pub fn get_idl(&self, attr: &str, itype: &IndexType, idx_key: &str) -> (r: Option<IDLBitRange>)
        requires
            self.wf(),
        ensures
            (match r {
                Option::Some(b) => self@.idx.contains_key((attr@, *itype, idx_key@)) && idl_spec(b)
                    == self@.idx[(attr@, *itype, idx_key@)] && idl_spec(b).finite(),
                Option::None => !self@.idx.contains_key((attr@, *itype, idx_key@)),
            }),
    {
        let ghost key = (attr@, *itype, idx_key@);
        let mut i: usize = 0;
        while i < self.idx_slots.len()
            invariant
                self.wf(),
                key == (attr@, *itype, idx_key@),
                i <= self.idx_slots@.len(),
                forall|j: int| 0 <= j < i ==> idx_slot_pairs(self.idx_slots@)[j].0 != key,
            decreases self.idx_slots@.len() - i,
        {
            let sl = &self.idx_slots[i];
            proof {
                assert(idx_slot_pairs(self.idx_slots@)[i as int].0 == (sl.attr@, sl.itype, sl.key@));
            }
            let t_eq = sl.itype == *itype;
            let a_eq = str_eq(sl.attr.as_str(), attr);
            let k_eq = str_eq(sl.key.as_str(), idx_key);
            if t_eq && a_eq && k_eq {
                proof {
                    lemma_assoc_at(idx_slot_pairs(self.idx_slots@), i as int);
                }
                return Some(idl_clone(&sl.idl));
            }
            proof {
                assert(!(sl.itype == *itype) || sl.attr@ != attr@ || sl.key@ != idx_key@);
                let t = (sl.attr@, sl.itype, sl.key@);
                assert(t.0 == sl.attr@ && t.1 == sl.itype && t.2 == sl.key@);
                assert(key.0 == attr@ && key.1 == *itype && key.2 == idx_key@);
                assert(t != key);
            }
            i += 1;
        }
        proof {
            lemma_assoc_absent(idx_slot_pairs(self.idx_slots@), key);
        }
        None
    }

    /// Resolve a name to its identity.
    pub fn name2uuid(&self, name: &str) -> (r: Option<Identity>)
        requires
            self.wf(),
        ensures
            (match r {
                Option::Some(u) => self@.name2uuid.contains_key(name@) && u
                    == self@.name2uuid[name@],
                Option::None => !self@.name2uuid.contains_key(name@),
            }),
    {
        let mut i: usize = 0;
        while i < self.name2uuid.len()
            invariant
                self.wf(),
                i <= self.name2uuid@.len(),
                forall|j: int| 0 <= j < i ==> name_pairs(self.name2uuid@)[j].0 != name@,
            decreases self.name2uuid@.len() - i,
        {
            let sl = &self.name2uuid[i];
            if str_eq(sl.name.as_str(), name) {
                proof {
                    lemma_assoc_at(name_pairs(self.name2uuid@), i as int);
                }
                return Some(sl.uuid);
            }
            i += 1;
        }
        proof {
            lemma_assoc_absent(name_pairs(self.name2uuid@), name@);
        }
        None
    }

    /// Resolve an identity to its display value.
    pub fn uuid2spn(&self, uuid: &Identity) -> (r: Option<String>)
        requires
            self.wf(),
        ensures
            (match r {
                Option::Some(s) => self@.uuid2spn.contains_key(*uuid) && s@
                    == self@.uuid2spn[*uuid],
                Option::None => !self@.uuid2spn.contains_key(*uuid),
            }),
    {
        let mut i: usize = 0;
        while i < self.uuid2spn.len()
            invariant
                self.wf(),
                i <= self.uuid2spn@.len(),
                forall|j: int| 0 <= j < i ==> spn_pairs(self.uuid2spn@)[j].0 != *uuid,
            decreases self.uuid2spn@.len() - i,
        {
            let sl = &self.uuid2spn[i];
            if sl.uuid == *uuid {
                proof {
                    lemma_assoc_at(spn_pairs(self.uuid2spn@), i as int);
                }
                return Some(clone_string(&sl.spn));
            }
            i += 1;
        }
        proof {
            lemma_assoc_absent(spn_pairs(self.uuid2spn@), *uuid);
        }
        None
    }

    /// Resolve an identity to its relative name.
    pub fn uuid2rdn(&self, uuid: &Identity) -> (r: Option<String>)
        requires
            self.wf(),
        ensures
            (match r {
                Option::Some(s) => self@.uuid2rdn.contains_key(*uuid) && s@
                    == self@.uuid2rdn[*uuid],
                Option::None => !self@.uuid2rdn.contains_key(*uuid),
            }),
    {
        let mut i: usize = 0;
        while i < self.uuid2rdn.len()
            invariant
                self.wf(),
                i <= self.uuid2rdn@.len(),
                forall|j: int| 0 <= j < i ==> rdn_pairs(self.uuid2rdn@)[j].0 != *uuid,
            decreases self.uuid2rdn@.len() - i,
        {
            let sl = &self.uuid2rdn[i];
            if sl.uuid == *uuid {
                proof {
                    lemma_assoc_at(rdn_pairs(self.uuid2rdn@), i as int);
                }
                return Some(clone_string(&sl.rdn));
            }
            i += 1;
        }
        proof {
            lemma_assoc_absent(rdn_pairs(self.uuid2rdn@), *uuid);
        }
        None
    }

    /// The server identity, if initialized.
    pub fn get_db_s_uuid(&self) -> (r: Option<Identity>)
        ensures
            r == self@.s_uuid,
    {
        self.s_uuid
    }

    /// The domain identity, if initialized.
    pub fn get_db_d_uuid(&self) -> (r: Option<Identity>)
        ensures
            r == self@.d_uuid,
    {
        self.d_uuid
    }

    /// The timestamp watermark, if set.
    pub fn get_db_ts_max(&self) -> (r: Option<DbTimestamp>)
        ensures
            r == self@.ts_max,
    {
        self.ts_max
    }

    /// The identifier allocation watermark.
    pub fn get_max_id(&self) -> (r: u64)
        ensures
            r == self@.max_id,
    {
        self.max_id
    }

    /// Upsert one record, keeping the entries sorted by identifier and
    /// raising the watermark to cover it.
    fn put_entry(&mut self, id: u64, data: Vec<u8>)
        requires
            old(self).wf(),
            1 <= id,
        ensures
            final(self).wf(),
            final(self)@ == (StoreView {
                entries: old(self)@.entries.insert(id, data@),
                max_id: if id > old(self)@.max_id {
                    id
                } else {
                    old(self)@.max_id
                },
                ..old(self)@
            }),
    {
        let mut pos: usize = 0;
        while pos < self.entries.len() && self.entries[pos].id < id
            invariant
                *self == *old(self),
                old(self).wf(),
                pos <= self.entries@.len(),
                forall|j: int| 0 <= j < pos ==> (#[trigger] self.entries@[j]).id < id,
            decreases self.entries@.len() - pos,
        {
            pos += 1;
        }
        proof {
            lemma_entries_unique(self.entries@);
        }
        let ghost pre = self.entries@;
        if pos < self.entries.len() && self.entries[pos].id == id {
            self.entries[pos] = IdRawEntry { id, data };
            proof {
                assert(entry_pairs(self.entries@) =~= entry_pairs(pre).update(
                    pos as int,
                    (id, data@),
                ));
                assert(entry_pairs(pre)[pos as int].0 == id);
                lemma_assoc_update(entry_pairs(pre), pos as int, data@);
                assert(self@ =~= (StoreView {
                    entries: old(self)@.entries.insert(id, data@),
                    max_id: old(self)@.max_id,
                    ..old(self)@
                }));
                assert(pre[pos as int].id == id && id <= old(self).max_id);
            }
        } else {
            let ghost newmax: u64 = if id > self.max_id {
                id
            } else {
                self.max_id
            };
            self.entries.insert(pos, IdRawEntry { id, data });
            if id > self.max_id {
                self.max_id = id;
            }
            proof {
                pre.insert_ensures(pos as int, IdRawEntry { id, data });
                assert(forall|j: int|
                    0 <= j < pos ==> #[trigger] self.entries@[j] == pre[j]);
                assert(forall|j: int|
                    pos < j < self.entries@.len() ==> #[trigger] self.entries@[j] == pre[j - 1]);
                assert(self.entries@[pos as int].id == id);
                assert forall|i: int, j: int|
                    0 <= i < j < self.entries@.len() implies self.entries@[i].id
                    < self.entries@[j].id by {
                    if i < pos && j > pos {
                        assert(pre[i].id < id || pre[i].id == id || pre[i].id > id);
                        assert(pre[i].id < id);
                        assert(pre[j - 1].id >= id);
                        if pre[j - 1].id == id {
                            assert(pos < pre.len() ==> pre[pos as int].id > id);
                        }
                    } else if j == pos {
                        assert(pre[i].id < id);
                    } else if i == pos {
                        assert(pre[j - 1].id >= id);
                        if pre[j - 1].id == id {
                            if j - 1 == pos {
                                assert(pre[pos as int].id != id);
                            } else {
                                assert(pre[pos as int].id < pre[j - 1].id);
                            }
                        }
                    }
                }
                assert(!assoc_has(entry_pairs(pre), id)) by {
                    if assoc_has(entry_pairs(pre), id) {
                        let j = choose|j: int|
                            0 <= j < entry_pairs(pre).len() && entry_pairs(pre)[j].0 == id;
                        assert(pre[j].id == id);
                        if j < pos {
                            assert(pre[j].id < id);
                        } else if j == pos {
                            assert(pre[pos as int].id != id);
                        } else {
                            assert(pre[pos as int].id <= pre[j].id);
                            assert(pre[pos as int].id >= id);
                            assert(pre[pos as int].id != id);
                        }
                    }
                }
                assert(entry_pairs(self.entries@) =~= entry_pairs(pre).insert(
                    pos as int,
                    (id, data@),
                ));
                lemma_assoc_insert_at(entry_pairs(pre), pos as int, id, data@);
                assert(self@ =~= (StoreView {
                    entries: old(self)@.entries.insert(id, data@),
                    max_id: newmax,
                    ..old(self)@
                }));
            }
        }
    }

    /// Upsert a batch of records: each record stores its payload under its
    /// identifier, later records winning on a repeated identifier. A record
    /// with the invalid zero identifier is rejected before anything is
    /// written, leaving the store unchanged.
    pub fn write_identries_raw(&mut self, entries: Vec<IdRawEntry>) -> (r: Result<
        (),
        OperationError,
    >)
        requires
            old(self).wf(),
        ensures
            final(self).wf(),
            (match r {
                Result::Ok(u) => (forall|i: int|
                    0 <= i < entries@.len() ==> (#[trigger] entries@[i]).id >= 1) && final(self)@
                    == (StoreView {
                    entries: spec_upsert_all(old(self)@.entries, entry_pairs(entries@)),
                    max_id: spec_max_after(old(self)@.max_id, entry_pairs(entries@)),
                    ..old(self)@
                }),
                Result::Err(e) => e == OperationError::InvalidEntryId && (exists|i: int|
                    0 <= i < entries@.len() && (#[trigger] entries@[i]).id == 0) && final(self)@
                    == old(self)@,
            }),
    {
        let mut i: usize = 0;
        while i < entries.len()
            invariant
                *self == *old(self),
                old(self).wf(),
                i <= entries@.len(),
                forall|j: int| 0 <= j < i ==> (#[trigger] entries@[j]).id >= 1,
            decreases entries@.len() - i,
        {
            if entries[i].id == 0 {
                return Err(OperationError::InvalidEntryId);
            }
            i += 1;
        }
        let ghost ps = entry_pairs(entries@);
        let mut k: usize = 0;
        while k < entries.len()
            invariant
                old(self).wf(),
                self.wf(),
                ps == entry_pairs(entries@),
                k <= entries@.len(),
                forall|j: int| 0 <= j < entries@.len() ==> (#[trigger] entries@[j]).id >= 1,
                self@ == (StoreView {
                    entries: spec_upsert_all(old(self)@.entries, ps.take(k as int)),
                    max_id: spec_max_after(old(self)@.max_id, ps.take(k as int)),
                    ..old(self)@
                }),
            decreases entries@.len() - k,
        {
            let id = entries[k].id;
            let data = clone_bytes(&entries[k].data);
            let ghost prev = self@;
            self.put_entry(id, data);
            proof {
                assert(ps.take(k + 1 as int).drop_last() =~= ps.take(k as int));
                assert(ps.take(k + 1 as int).last() == (id, data@));
                assert(spec_upsert_all(old(self)@.entries, ps.take(k + 1 as int))
                    == spec_upsert_all(old(self)@.entries, ps.take(k as int)).insert(id, data@));
                assert(spec_max_after(old(self)@.max_id, ps.take(k + 1 as int)) == (if id
                    > prev.max_id {
                    id
                } else {
                    prev.max_id
                }));
            }
            k += 1;
        }
        proof {
            assert(ps.take(entries@.len() as int) =~= ps);
        }
        Ok(())
    }

    /// Delete the record bound to an identifier; deleting an absent
    /// identifier is a no-op, and the watermark never goes back down.
    pub fn delete_identry(&mut self, id: u64) -> (r: Result<(), OperationError>)
        requires
            old(self).wf(),
        ensures
            final(self).wf(),
            r == Result::<(), OperationError>::Ok(()),
            final(self)@ == (StoreView { entries: old(self)@.entries.remove(id), ..old(self)@ }),
    {
        proof {
            lemma_entries_unique(self.entries@);
        }
        let ghost pre = self.entries@;
        let mut i: usize = 0;
        while i < self.entries.len()
            invariant
                *self == *old(self),
                old(self).wf(),
                pre == self.entries@,
                i <= self.entries@.len(),
                forall|j: int| 0 <= j < i ==> (#[trigger] self.entries@[j]).id != id,
            decreases self.entries@.len() - i,
        {
            if self.entries[i].id == id {
                self.entries.remove(i);
                proof {
                    pre.remove_ensures(i as int);
                    assert(entry_pairs(self.entries@) =~= entry_pairs(pre).remove(i as int));
                    lemma_entries_unique(pre);
                    assert(entry_pairs(pre)[i as int].0 == id);
                    lemma_assoc_remove(entry_pairs(pre), i as int);
                    assert forall|p: int, q: int|
                        0 <= p < q < self.entries@.len() implies self.entries@[p].id
                        < self.entries@[q].id by {
                        if q < i {
                        } else if p < i {
                            assert(self.entries@[q] == pre[q + 1]);
                        } else {
                            assert(self.entries@[p] == pre[p + 1]);
                            assert(self.entries@[q] == pre[q + 1]);
                        }
                    }
                    assert(self@ =~= (StoreView {
                        entries: old(self)@.entries.remove(id),
                        ..old(self)@
                    }));
                }
                return Ok(());
            }
            i += 1;
        }
        proof {
            assert forall|j: int|
                0 <= j < entry_pairs(pre).len() implies entry_pairs(pre)[j].0 != id by {
                assert(pre[j].id != id);
            }
            lemma_assoc_absent(entry_pairs(pre), id);
            assert(old(self)@.entries.remove(id) =~= old(self)@.entries);
            assert(self@ =~= (StoreView { entries: old(self)@.entries.remove(id), ..old(self)@ }));
        }
        Ok(())
    }

    /// Bind a key of a secondary index to a bitmap set, or purge the key
    /// when the set is empty: the index never retains an empty binding, so a
    /// later lookup of that key reports no binding rather than an empty one.
    pub fn write_idl(
        &mut self,
        attr: &str,
        itype: &IndexType,
        idx_key: &str,
        idl: &IDLBitRange,
    ) -> (r: Result<(), OperationError>)
        requires
            old(self).wf(),
            idl_spec(*idl).finite(),
        ensures
            final(self).wf(),
            r == Result::<(), OperationError>::Ok(()),
            idl_spec(*idl) == Set::<u64>::empty() ==> final(self)@ == (StoreView {
                idx: old(self)@.idx.remove((attr@, *itype, idx_key@)),
                ..old(self)@
            }),
            idl_spec(*idl) != Set::<u64>::empty() ==> final(self)@ == (StoreView {
                idx: old(self)@.idx.insert((attr@, *itype, idx_key@), idl_spec(*idl)),
                ..old(self)@
            }),
    {
        let ghost key = (attr@, *itype, idx_key@);
        let ghost pre = self.idx_slots@;
        let purge = idl_is_empty(idl);
        let mut i: usize = 0;
        while i < self.idx_slots.len()
            invariant
                *self == *old(self),
                old(self).wf(),
                pre == self.idx_slots@,
                key == (attr@, *itype, idx_key@),
                purge == (idl_spec(*idl) == Set::<u64>::empty()),
                idl_spec(*idl).finite(),
                i <= self.idx_slots@.len(),
                forall|j: int| 0 <= j < i ==> idx_slot_pairs(pre)[j].0 != key,
            decreases self.idx_slots@.len() - i,
        {
            let sl = &self.idx_slots[i];
            proof {
                assert(idx_slot_pairs(pre)[i as int].0 == (sl.attr@, sl.itype, sl.key@));
            }
            let t_eq = sl.itype == *itype;
            let a_eq = str_eq(sl.attr.as_str(), attr);
            let k_eq = str_eq(sl.key.as_str(), idx_key);
            if t_eq && a_eq && k_eq {
                if purge {
                    self.idx_slots.remove(i);
                    proof {
                        pre.remove_ensures(i as int);
                        assert(idx_slot_pairs(self.idx_slots@) =~= idx_slot_pairs(pre).remove(
                            i as int,
                        ));
                        lemma_assoc_remove(idx_slot_pairs(pre), i as int);
                        assert(self@ =~= (StoreView {
                            idx: old(self)@.idx.remove(key),
                            ..old(self)@
                        }));
                        assert forall|j: int|
                            0 <= j < self.idx_slots@.len() implies idl_spec(
                            (#[trigger] self.idx_slots@[j]).idl,
                        ).finite() && idl_spec(self.idx_slots@[j].idl) != Set::<u64>::empty() by {
                            if j < i {
                                assert(self.idx_slots@[j] == pre[j]);
                            } else {
                                assert(self.idx_slots@[j] == pre[j + 1]);
                            }
                        }
                    }
                } else {
                    let a2 = clone_string(&self.idx_slots[i].attr);
                    let k2 = clone_string(&self.idx_slots[i].key);
                    let t2 = self.idx_slots[i].itype;
                    let new_idl = idl_clone(idl);
                    self.idx_slots[i] = IdxSlot { attr: a2, itype: t2, key: k2, idl: new_idl };
                    proof {
                        assert(idx_slot_pairs(self.idx_slots@) =~= idx_slot_pairs(pre).update(
                            i as int,
                            (key, idl_spec(*idl)),
                        ));
                        lemma_assoc_update(idx_slot_pairs(pre), i as int, idl_spec(*idl));
                        assert(self@ =~= (StoreView {
                            idx: old(self)@.idx.insert(key, idl_spec(*idl)),
                            ..old(self)@
                        }));
                        assert forall|j: int|
                            0 <= j < self.idx_slots@.len() implies idl_spec(
                            (#[trigger] self.idx_slots@[j]).idl,
                        ).finite() && idl_spec(self.idx_slots@[j].idl) != Set::<u64>::empty() by {
                            if j != i {
                                assert(self.idx_slots@[j] == pre[j]);
                            }
                        }
                    }
                }
                return Ok(());
            }
            proof {
                assert((sl.attr@, sl.itype, sl.key@) != key);
            }
            i += 1;
        }
        proof {
            lemma_assoc_absent(idx_slot_pairs(pre), key);
        }
        if purge {
            proof {
                assert(old(self)@.idx.remove(key) =~= old(self)@.idx);
                assert(self@ =~= (StoreView { idx: old(self)@.idx.remove(key), ..old(self)@ }));
            }
            return Ok(());
        }
        let new_idl = idl_clone(idl);
        self.idx_slots.push(
            IdxSlot { attr: attr.to_owned(), itype: *itype, key: idx_key.to_owned(), idl: new_idl },
        );
        proof {
            assert(idx_slot_pairs(self.idx_slots@) =~= idx_slot_pairs(pre).push(
                (key, idl_spec(*idl)),
            ));
            lemma_assoc_push(idx_slot_pairs(pre), key, idl_spec(*idl));
            assert(self@ =~= (StoreView {
                idx: old(self)@.idx.insert(key, idl_spec(*idl)),
                ..old(self)@
            }));
            assert forall|j: int|
                0 <= j < self.idx_slots@.len() implies idl_spec(
                (#[trigger] self.idx_slots@[j]).idl,
            ).finite() && idl_spec(self.idx_slots@[j].idl) != Set::<u64>::empty() by {
                if j < pre.len() {
                    assert(self.idx_slots@[j] == pre[j]);
                }
            }
        }
        Ok(())
    }

    /// Record that an index exists for `(attr, itype)`; creating one that
    /// already exists is a no-op success.
    pub fn create_idx(&mut self, attr: &str, itype: &IndexType) -> (r: Result<(), OperationError>)
        requires
            old(self).wf(),
        ensures
            final(self).wf(),
            r == Result::<(), OperationError>::Ok(()),
            final(self)@ == (StoreView {
                idx_defs: old(self)@.idx_defs.insert((attr@, *itype)),
                ..old(self)@
            }),
    {
        let ghost pre = self.idx_defs@;
        let mut i: usize = 0;
        while i < self.idx_defs.len()
            invariant
                *self == *old(self),
                old(self).wf(),
                pre == self.idx_defs@,
                i <= self.idx_defs@.len(),
                forall|j: int|
                    0 <= j < i ==> ((#[trigger] pre[j]).attr@, pre[j].itype) != (attr@, *itype),
            decreases self.idx_defs@.len() - i,
        {
            let d = &self.idx_defs[i];
            if d.itype == *itype && str_eq(d.attr.as_str(), attr) {
                proof {
                    assert(self@.idx_defs.contains((attr@, *itype)));
                    assert(old(self)@.idx_defs.insert((attr@, *itype)) =~= old(self)@.idx_defs);
                    assert(self@ =~= (StoreView {
                        idx_defs: old(self)@.idx_defs.insert((attr@, *itype)),
                        ..old(self)@
                    }));
                }
                return Ok(());
            }
            i += 1;
        }
        self.idx_defs.push(IdxDef { attr: attr.to_owned(), itype: *itype });
        proof {
            let post = self.idx_defs@;
            assert(post[pre.len() as int].attr@ == attr@ && post[pre.len() as int].itype == *itype);
            assert(def_set(post) =~= def_set(pre).insert((attr@, *itype))) by {
                assert forall|d: (Seq<char>, IndexType)| #[trigger]
                    def_set(post).contains(d) implies def_set(pre).contains(d) || d == (
                    attr@,
                    *itype,
                ) by {
                    let j = choose|j: int|
                        0 <= j < post.len() && ((#[trigger] post[j].attr@), post[j].itype) == d;
                    if j < pre.len() {
                        assert(pre[j] == post[j]);
                        assert((pre[j].attr@, pre[j].itype) == d);
                    }
                }
                assert forall|d: (Seq<char>, IndexType)| #[trigger]
                    def_set(pre).contains(d) implies def_set(post).contains(d) by {
                    let j = choose|j: int|
                        0 <= j < pre.len() && ((#[trigger] pre[j].attr@), pre[j].itype) == d;
                    assert(post[j] == pre[j]);
                    assert((post[j].attr@, post[j].itype) == d);
                }
                assert(def_set(post).contains((attr@, *itype)));
            }
            assert forall|p: int, q: int|
                0 <= p < q < post.len() implies (post[p].attr@, post[p].itype) != (post[q].attr@,
            post[q].itype) by {
                if q < pre.len() {
                    assert(post[p] == pre[p] && post[q] == pre[q]);
                } else {
                    assert(post[p] == pre[p]);
                }
            }
            assert(self@ =~= (StoreView {
                idx_defs: old(self)@.idx_defs.insert((attr@, *itype)),
                ..old(self)@
            }));
        }
        Ok(())
    }

    /// The display names of every created index.
    pub fn list_idxs(&self) -> (r: Vec<String>)
        requires
            self.wf(),
        ensures
            forall|j: int|
                0 <= j < r@.len() ==> spec_is_idx_name_of(self@.idx_defs, (#[trigger] r@[j])@),
            forall|d: (Seq<char>, IndexType)| #[trigger]
                self@.idx_defs.contains(d) ==> spec_listing_has(r@, spec_idx_name(d.0, d.1)),
    {
        let mut r: Vec<String> = Vec::new();
        let mut i: usize = 0;
        while i < self.idx_defs.len()
            invariant
                self.wf(),
                i <= self.idx_defs@.len(),
                r@.len() == i,
                forall|j: int|
                    #![auto]
                    0 <= j < i ==> r@[j]@ == spec_idx_name(
                        self.idx_defs@[j].attr@,
                        self.idx_defs@[j].itype,
                    ),
            decreases self.idx_defs@.len() - i,
        {
            let d = &self.idx_defs[i];
            r.push(idx_name(d.attr.as_str(), &d.itype));
            i += 1;
        }
        proof {
            assert forall|j: int|
                0 <= j < r@.len() implies spec_is_idx_name_of(self@.idx_defs, (#[trigger] r@[j])@) by {
                let d = (self.idx_defs@[j].attr@, self.idx_defs@[j].itype);
                assert(self@.idx_defs.contains(d));
                assert(r@[j]@ == spec_idx_name(d.0, d.1));
            }
            assert forall|d: (Seq<char>, IndexType)| #[trigger]
                self@.idx_defs.contains(d) implies spec_listing_has(r@, spec_idx_name(d.0, d.1)) by {
                let j = choose|j: int|
                    0 <= j < self.idx_defs@.len() && ((#[trigger] self.idx_defs@[j].attr@),
                    self.idx_defs@[j].itype) == d;
                assert(r@[j]@ == spec_idx_name(d.0, d.1));
            }
        }
        r
    }

    /// The bitmap of every live entry identifier.
    pub fn get_allids(&self) -> (r: IDLBitRange)
        requires
            self.wf(),
        ensures
            idl_spec(r).finite(),
            forall|id: u64| #[trigger]
                idl_spec(r).contains(id) <==> self@.entries.contains_key(id),
    {
        let mut acc = idl_new();
        let mut i: usize = 0;
        while i < self.entries.len()
            invariant
                self.wf(),
                i <= self.entries@.len(),
                idl_spec(acc).finite(),
                forall|id: u64| #[trigger]
                    idl_spec(acc).contains(id) <==> (exists|j: int|
                        0 <= j < i && (#[trigger] self.entries@[j]).id == id),
            decreases self.entries@.len() - i,
        {
            idl_insert(&mut acc, self.entries[i].id);
            i += 1;
        }
        proof {
            assert forall|id: u64| #[trigger]
                idl_spec(acc).contains(id) <==> self@.entries.contains_key(id) by {
                if idl_spec(acc).contains(id) {
                    let j = choose|j: int|
                        0 <= j < self.entries@.len() && (#[trigger] self.entries@[j]).id == id;
                    assert(entry_pairs(self.entries@)[j].0 == id);
                    assert(assoc_has(entry_pairs(self.entries@), id));
                }
                if self@.entries.contains_key(id) {
                    let j = choose|j: int|
                        0 <= j < entry_pairs(self.entries@).len() && (#[trigger] entry_pairs(
                            self.entries@,
                        )[j]).0 == id;
                    assert(self.entries@[j].id == id);
                }
            }
        }
        acc
    }

    /// Prepare the `name -> identity` resolution index; the in-memory store
    /// always holds it, so this is an idempotent no-op success.
    pub fn create_name2uuid(&self) -> (r: Result<(), OperationError>)
        ensures
            r == Result::<(), OperationError>::Ok(()),
    {
        Ok(())
    }

    /// Prepare the `identity -> display value` resolution index; an
    /// idempotent no-op success in the in-memory store.
    pub fn create_uuid2spn(&self) -> (r: Result<(), OperationError>)
        ensures
            r == Result::<(), OperationError>::Ok(()),
    {
        Ok(())
    }

    /// Prepare the `identity -> relative name` resolution index; an
    /// idempotent no-op success in the in-memory store.
    pub fn create_uuid2rdn(&self) -> (r: Result<(), OperationError>)
        ensures
            r == Result::<(), OperationError>::Ok(()),
    {
        Ok(())
    }

    /// Bind a name to an identity, replacing any previous binding.
    pub fn write_name2uuid_add(&mut self, name: &str, uuid: &Identity) -> (r: Result<
        (),
        OperationError,
    >)
        requires
            old(self).wf(),
        ensures
            final(self).wf(),
            r == Result::<(), OperationError>::Ok(()),
            final(self)@ == (StoreView {
                name2uuid: old(self)@.name2uuid.insert(name@, *uuid),
                ..old(self)@
            }),
    {
        let ghost pre = self.name2uuid@;
        let mut i: usize = 0;
        while i < self.name2uuid.len()
            invariant
                *self == *old(self),
                old(self).wf(),
                pre == self.name2uuid@,
                i <= self.name2uuid@.len(),
                forall|j: int| 0 <= j < i ==> name_pairs(pre)[j].0 != name@,
            decreases self.name2uuid@.len() - i,
        {
            proof {
                assert(name_pairs(pre)[i as int].0 == pre[i as int].name@);
            }
            if str_eq(self.name2uuid[i].name.as_str(), name) {
                let nm = clone_string(&self.name2uuid[i].name);
                self.name2uuid[i] = NameSlot { name: nm, uuid: *uuid };
                proof {
                    assert(name_pairs(self.name2uuid@) =~= name_pairs(pre).update(
                        i as int,
                        (name@, *uuid),
                    ));
                    lemma_assoc_update(name_pairs(pre), i as int, *uuid);
                    assert(self@ =~= (StoreView {
                        name2uuid: old(self)@.name2uuid.insert(name@, *uuid),
                        ..old(self)@
                    }));
                }
                return Ok(());
            }
            i += 1;
        }
        self.name2uuid.push(NameSlot { name: name.to_owned(), uuid: *uuid });
        proof {
            assert(!assoc_has(name_pairs(pre), name@)) by {
                if assoc_has(name_pairs(pre), name@) {
                    let j = choose|j: int|
                        0 <= j < name_pairs(pre).len() && name_pairs(pre)[j].0 == name@;
                }
            }
            assert(name_pairs(self.name2uuid@) =~= name_pairs(pre).push((name@, *uuid)));
            lemma_assoc_push(name_pairs(pre), name@, *uuid);
            assert(self@ =~= (StoreView {
                name2uuid: old(self)@.name2uuid.insert(name@, *uuid),
                ..old(self)@
            }));
        }
        Ok(())
    }

    /// Remove a name's binding; removing an absent name is a no-op.
    pub fn write_name2uuid_rem(&mut self, name: &str) -> (r: Result<(), OperationError>)
        requires
            old(self).wf(),
        ensures
            final(self).wf(),
            r == Result::<(), OperationError>::Ok(()),
            final(self)@ == (StoreView {
                name2uuid: old(self)@.name2uuid.remove(name@),
                ..old(self)@
            }),
    {
        let ghost pre = self.name2uuid@;
        let mut i: usize = 0;
        while i < self.name2uuid.len()
            invariant
                *self == *old(self),
                old(self).wf(),
                pre == self.name2uuid@,
                i <= self.name2uuid@.len(),
                forall|j: int| 0 <= j < i ==> name_pairs(pre)[j].0 != name@,
            decreases self.name2uuid@.len() - i,
        {
            proof {
                assert(name_pairs(pre)[i as int].0 == pre[i as int].name@);
            }
            if str_eq(self.name2uuid[i].name.as_str(), name) {
                self.name2uuid.remove(i);
                proof {
                    pre.remove_ensures(i as int);
                    assert(name_pairs(self.name2uuid@) =~= name_pairs(pre).remove(i as int));
                    lemma_assoc_remove(name_pairs(pre), i as int);
                    assert(self@ =~= (StoreView {
                        name2uuid: old(self)@.name2uuid.remove(name@),
                        ..old(self)@
                    }));
                }
                return Ok(());
            }
            i += 1;
        }
        proof {
            lemma_assoc_absent(name_pairs(pre), name@);
            assert(old(self)@.name2uuid.remove(name@) =~= old(self)@.name2uuid);
            assert(self@ =~= (StoreView {
                name2uuid: old(self)@.name2uuid.remove(name@),
                ..old(self)@
            }));
        }
        Ok(())
    }

    /// Bind or unbind an identity's display value: `Some` replaces any
    /// previous binding, `None` removes it.
    pub fn write_uuid2spn(&mut self, uuid: &Identity, k: Option<&String>) -> (r: Result<
        (),
        OperationError,
    >)
        requires
            old(self).wf(),
        ensures
            final(self).wf(),
            r == Result::<(), OperationError>::Ok(()),
            (match k {
                Option::Some(s) => final(self)@ == (StoreView {
                    uuid2spn: old(self)@.uuid2spn.insert(*uuid, s@),
                    ..old(self)@
                }),
                Option::None => final(self)@ == (StoreView {
                    uuid2spn: old(self)@.uuid2spn.remove(*uuid),
                    ..old(self)@
                }),
            }),
    {
        let ghost pre = self.uuid2spn@;
        let mut i: usize = 0;
        while i < self.uuid2spn.len()
            invariant
                *self == *old(self),
                old(self).wf(),
                pre == self.uuid2spn@,
                i <= self.uuid2spn@.len(),
                forall|j: int| 0 <= j < i ==> spn_pairs(pre)[j].0 != *uuid,
            decreases self.uuid2spn@.len() - i,
        {
            proof {
                assert(spn_pairs(pre)[i as int].0 == pre[i as int].uuid);
            }
            if self.uuid2spn[i].uuid == *uuid {
                match k {
                    Some(s) => {
                        self.uuid2spn[i] = SpnSlot { uuid: *uuid, spn: clone_string(s) };
                        proof {
                            assert(spn_pairs(self.uuid2spn@) =~= spn_pairs(pre).update(
                                i as int,
                                (*uuid, s@),
                            ));
                            lemma_assoc_update(spn_pairs(pre), i as int, s@);
                            assert(self@ =~= (StoreView {
                                uuid2spn: old(self)@.uuid2spn.insert(*uuid, s@),
                                ..old(self)@
                            }));
                        }
                    },
                    None => {
                        self.uuid2spn.remove(i);
                        proof {
                            pre.remove_ensures(i as int);
                            assert(spn_pairs(self.uuid2spn@) =~= spn_pairs(pre).remove(i as int));
                            lemma_assoc_remove(spn_pairs(pre), i as int);
                            assert(self@ =~= (StoreView {
                                uuid2spn: old(self)@.uuid2spn.remove(*uuid),
                                ..old(self)@
                            }));
                        }
                    },
                }
                return Ok(());
            }
            i += 1;
        }
        proof {
            lemma_assoc_absent(spn_pairs(pre), *uuid);
        }
        match k {
            Some(s) => {
                self.uuid2spn.push(SpnSlot { uuid: *uuid, spn: clone_string(s) });
                proof {
                    assert(spn_pairs(self.uuid2spn@) =~= spn_pairs(pre).push((*uuid, s@)));
                    lemma_assoc_push(spn_pairs(pre), *uuid, s@);
                    assert(self@ =~= (StoreView {
                        uuid2spn: old(self)@.uuid2spn.insert(*uuid, s@),
                        ..old(self)@
                    }));
                }
            },
            None => {
                proof {
                    assert(old(self)@.uuid2spn.remove(*uuid) =~= old(self)@.uuid2spn);
                    assert(self@ =~= (StoreView {
                        uuid2spn: old(self)@.uuid2spn.remove(*uuid),
                        ..old(self)@
                    }));
                }
            },
        }
        Ok(())
    }

    /// Bind or unbind an identity's relative name: `Some` replaces any
    /// previous binding, `None` removes it.
    pub fn write_uuid2rdn(&mut self, uuid: &Identity, k: Option<&String>) -> (r: Result<
        (),
        OperationError,
    >)
        requires
            old(self).wf(),
        ensures
            final(self).wf(),
            r == Result::<(), OperationError>::Ok(()),
            (match k {
                Option::Some(s) => final(self)@ == (StoreView {
                    uuid2rdn: old(self)@.uuid2rdn.insert(*uuid, s@),
                    ..old(self)@
                }),
                Option::None => final(self)@ == (StoreView {
                    uuid2rdn: old(self)@.uuid2rdn.remove(*uuid),
                    ..old(self)@
                }),
            }),
    {
        let ghost pre = self.uuid2rdn@;
        let mut i: usize = 0;
        while i < self.uuid2rdn.len()
            invariant
                *self == *old(self),
                old(self).wf(),
                pre == self.uuid2rdn@,
                i <= self.uuid2rdn@.len(),
                forall|j: int| 0 <= j < i ==> rdn_pairs(pre)[j].0 != *uuid,
            decreases self.uuid2rdn@.len() - i,
        {
            proof {
                assert(rdn_pairs(pre)[i as int].0 == pre[i as int].uuid);
            }
            if self.uuid2rdn[i].uuid == *uuid {
                match k {
                    Some(s) => {
                        self.uuid2rdn[i] = RdnSlot { uuid: *uuid, rdn: clone_string(s) };
                        proof {
                            assert(rdn_pairs(self.uuid2rdn@) =~= rdn_pairs(pre).update(
                                i as int,
                                (*uuid, s@),
                            ));
                            lemma_assoc_update(rdn_pairs(pre), i as int, s@);
                            assert(self@ =~= (StoreView {
                                uuid2rdn: old(self)@.uuid2rdn.insert(*uuid, s@),
                                ..old(self)@
                            }));
                        }
                    },
                    None => {
                        self.uuid2rdn.remove(i);
                        proof {
                            pre.remove_ensures(i as int);
                            assert(rdn_pairs(self.uuid2rdn@) =~= rdn_pairs(pre).remove(i as int));
                            lemma_assoc_remove(rdn_pairs(pre), i as int);
                            assert(self@ =~= (StoreView {
                                uuid2rdn: old(self)@.uuid2rdn.remove(*uuid),
                                ..old(self)@
                            }));
                        }
                    },
                }
                return Ok(());
            }
            i += 1;
        }
        proof {
            lemma_assoc_absent(rdn_pairs(pre), *uuid);
        }
        match k {
            Some(s) => {
                self.uuid2rdn.push(RdnSlot { uuid: *uuid, rdn: clone_string(s) });
                proof {
                    assert(rdn_pairs(self.uuid2rdn@) =~= rdn_pairs(pre).push((*uuid, s@)));
                    lemma_assoc_push(rdn_pairs(pre), *uuid, s@);
                    assert(self@ =~= (StoreView {
                        uuid2rdn: old(self)@.uuid2rdn.insert(*uuid, s@),
                        ..old(self)@
                    }));
                }
            },
            None => {
                proof {
                    assert(old(self)@.uuid2rdn.remove(*uuid) =~= old(self)@.uuid2rdn);
                    assert(self@ =~= (StoreView {
                        uuid2rdn: old(self)@.uuid2rdn.remove(*uuid),
                        ..old(self)@
                    }));
                }
            },
        }
        Ok(())
    }

    /// Set the server identity.
    pub fn write_db_s_uuid(&mut self, nsid: Identity) -> (r: Result<(), OperationError>)
        requires
            old(self).wf(),
        ensures
            final(self).wf(),
            r == Result::<(), OperationError>::Ok(()),
            final(self)@ == (StoreView { s_uuid: Option::Some(nsid), ..old(self)@ }),
    {
        self.s_uuid = Some(nsid);
        Ok(())
    }

    /// Set the domain identity.
    pub fn write_db_d_uuid(&mut self, nsid: Identity) -> (r: Result<(), OperationError>)
        requires
            old(self).wf(),
        ensures
            final(self).wf(),
            r == Result::<(), OperationError>::Ok(()),
            final(self)@ == (StoreView { d_uuid: Option::Some(nsid), ..old(self)@ }),
    {
        self.d_uuid = Some(nsid);
        Ok(())
    }

    /// Set the timestamp watermark.
    pub fn set_db_ts_max(&mut self, ts: &DbTimestamp) -> (r: Result<(), OperationError>)
        requires
            old(self).wf(),
        ensures
            final(self).wf(),
            r == Result::<(), OperationError>::Ok(()),
            final(self)@ == (StoreView { ts_max: Option::Some(*ts), ..old(self)@ }),
    {
        self.ts_max = Some(*ts);
        Ok(())
    }

    /// Read the version counter a metadata key names; an unknown key reads
    /// as zero.
    pub fn get_db_version_key(&self, key: &str) -> (r: i64)
        ensures
            r == spec_version_of(self@, key@),
    {
        if str_eq(key, "id2entry") {
            self.id2entry_version
        } else if str_eq(key, "indexv") {
            self.index_version
        } else {
            0
        }
    }

    /// Write the version counter a metadata key names; an unknown key is
    /// refused and nothing changes.
    pub fn set_db_version_key(&mut self, key: &str, v: i64) -> (r: Result<(), ()>)
        requires
            old(self).wf(),
        ensures
            final(self).wf(),
            key@ == "id2entry"@ ==> r == Result::<(), ()>::Ok(()) && final(self)@ == (StoreView {
                id2entry_version: v,
                ..old(self)@
            }),
            key@ != "id2entry"@ && key@ == "indexv"@ ==> r == Result::<(), ()>::Ok(())
                && final(self)@ == (StoreView { index_version: v, ..old(self)@ }),
            key@ != "id2entry"@ && key@ != "indexv"@ ==> r == Result::<(), ()>::Err(())
                && final(self)@ == old(self)@,
    {
        if str_eq(key, "id2entry") {
            self.id2entry_version = v;
            Ok(())
        } else if str_eq(key, "indexv") {
            self.index_version = v;
            Ok(())
        } else {
            Err(())
        }
    }

    /// Drop every secondary index: all bindings and all index definitions.
    pub fn purge_idxs(&mut self) -> (r: Result<(), OperationError>)
        requires
            old(self).wf(),
        ensures
            final(self).wf(),
            r == Result::<(), OperationError>::Ok(()),
            final(self)@ == (StoreView {
                idx: Map::empty(),
                idx_defs: Set::empty(),
                ..old(self)@
            }),
    {
        self.idx_slots.clear();
        self.idx_defs.clear();
        proof {
            assert(self@.idx =~= Map::<(Seq<char>, IndexType, Seq<char>), Set<u64>>::empty());
            assert(self@.idx_defs =~= Set::<(Seq<char>, IndexType)>::empty());
            assert(self@ =~= (StoreView {
                idx: Map::empty(),
                idx_defs: Set::empty(),
                ..old(self)@
            }));
        }
        Ok(())
    }

    /// Drop every entry record. The allocation watermark stays where it is:
    /// identifiers are never reused, even across a purge.
    pub fn purge_id2entry(&mut self) -> (r: Result<(), OperationError>)
        requires
            old(self).wf(),
        ensures
            final(self).wf(),
            r == Result::<(), OperationError>::Ok(()),
            final(self)@ == (StoreView { entries: Map::empty(), ..old(self)@ }),
    {
        self.entries.clear();
        proof {
            assert(self@.entries =~= Map::<u64, Seq<u8>>::empty());
            assert(self@ =~= (StoreView { entries: Map::empty(), ..old(self)@ }));
        }
        Ok(())
    }

    /// Bring the store's format up to the current layout: the entry-store
    /// format version rises to one if it is below it; nothing else changes.
    pub fn setup(&mut self) -> (r: Result<(), OperationError>)
        requires
            old(self).wf(),
        ensures
            final(self).wf(),
            r == Result::<(), OperationError>::Ok(()),
            final(self)@ == (StoreView {
                id2entry_version: if old(self)@.id2entry_version < 1 {
                    1
                } else {
                    old(self)@.id2entry_version
                },
                ..old(self)@
            }),
    {
        if self.id2entry_version < 1 {
            self.id2entry_version = 1;
        }
        Ok(())
    }

    /// List entry records: every live record for `None`, otherwise exactly
    /// the live records whose identifier the candidate set holds, in
    /// ascending identifier order, silently skipping identifiers that are no
    /// longer live.
    fn list_filtered(&self, b: Option<&IDLBitRange>) -> (r: Vec<IdRawEntry>)
        requires
            self.wf(),
        ensures
            spec_selected_listing(entry_pairs(r@), self@.entries, spec_sel_of(b)),
    {
        let ghost sel = spec_sel_of(b);
        let mut r: Vec<IdRawEntry> = Vec::new();
        let mut i: usize = 0;
        while i < self.entries.len()
            invariant
                self.wf(),
                sel == spec_sel_of(b),
                i <= self.entries@.len(),
                forall|p: int, q: int| 0 <= p < q < r@.len() ==> r@[p].id < r@[q].id,
                forall|p: int|
                    0 <= p < r@.len() ==> spec_listed_from(
                        self.entries@,
                        i as int,
                        (#[trigger] r@[p]),
                        sel,
                    ),
                forall|j: int|
                    0 <= j < i && spec_selected(sel, (#[trigger] self.entries@[j]).id)
                        ==> spec_result_has(r@, self.entries@[j].id),
            decreases self.entries@.len() - i,
        {
            let e = &self.entries[i];
            let selected = match b {
                None => true,
                Some(bb) => idl_contains(bb, e.id),
            };
            if selected {
                let ghost rpre = r@;
                r.push(IdRawEntry { id: e.id, data: clone_bytes(&e.data) });
                proof {
                    assert(r@[rpre.len() as int].id == e.id);
                    assert forall|p: int, q: int|
                        0 <= p < q < r@.len() implies r@[p].id < r@[q].id by {
                        if q == rpre.len() {
                            assert(spec_listed_from(self.entries@, i as int, rpre[p], sel));
                            let j = choose|j: int|
                                0 <= j < i && (#[trigger] self.entries@[j]).id == rpre[p].id
                                    && self.entries@[j].data@ == rpre[p].data@;
                            assert(self.entries@[j].id < self.entries@[i as int].id);
                        } else {
                            assert(r@[p] == rpre[p] && r@[q] == rpre[q]);
                        }
                    }
                    assert forall|p: int|
                        0 <= p < r@.len() implies spec_listed_from(
                        self.entries@,
                        i + 1 as int,
                        (#[trigger] r@[p]),
                        sel,
                    ) by {
                        if p < rpre.len() {
                            assert(spec_listed_from(self.entries@, i as int, rpre[p], sel));
                            let j = choose|j: int|
                                0 <= j < i && (#[trigger] self.entries@[j]).id == rpre[p].id
                                    && self.entries@[j].data@ == rpre[p].data@;
                            assert(0 <= j < i + 1 && self.entries@[j].id == r@[p].id
                                && self.entries@[j].data@ == r@[p].data@);
                        } else {
                            assert(self.entries@[i as int].id == r@[p].id
                                && self.entries@[i as int].data@ == r@[p].data@);
                        }
                    }
                    assert forall|j: int|
                        0 <= j < i + 1 && spec_selected(
                            sel,
                            (#[trigger] self.entries@[j]).id,
                        ) implies spec_result_has(r@, self.entries@[j].id) by {
                        if j < i {
                            assert(spec_result_has(rpre, self.entries@[j].id));
                            let p = choose|p: int|
                                0 <= p < rpre.len() && (#[trigger] rpre[p]).id
                                    == self.entries@[j].id;
                            assert(r@[p].id == self.entries@[j].id);
                        } else {
                            assert(r@[rpre.len() as int].id == self.entries@[j].id);
                        }
                    }
                }
            } else {
                proof {
                    assert forall|p: int|
                        0 <= p < r@.len() implies spec_listed_from(
                        self.entries@,
                        i + 1 as int,
                        (#[trigger] r@[p]),
                        sel,
                    ) by {
                        assert(spec_listed_from(self.entries@, i as int, r@[p], sel));
                        let j = choose|j: int|
                            0 <= j < i && (#[trigger] self.entries@[j]).id == r@[p].id
                                && self.entries@[j].data@ == r@[p].data@;
                        assert(0 <= j < i + 1 && self.entries@[j].id == r@[p].id
                            && self.entries@[j].data@ == r@[p].data@);
                    }
                }
            }
            i += 1;
        }
        proof {
            let n = self.entries@.len() as int;
            let ps = entry_pairs(r@);
            lemma_entries_unique(self.entries@);
            assert forall|p: int|
                0 <= p < ps.len() implies self@.entries.contains_key((#[trigger] ps[p]).0)
                && ps[p].1 == self@.entries[ps[p].0] && spec_selected(sel, ps[p].0) by {
                assert(spec_listed_from(self.entries@, n, r@[p], sel));
                let j = choose|j: int|
                    0 <= j < n && (#[trigger] self.entries@[j]).id == r@[p].id
                        && self.entries@[j].data@ == r@[p].data@;
                assert(entry_pairs(self.entries@)[j] == (r@[p].id, r@[p].data@));
                lemma_assoc_at(entry_pairs(self.entries@), j);
            }
            assert forall|k: u64|
                #[trigger] self@.entries.contains_key(k) && spec_selected(sel, k) implies exists|
                p: int,
            |
                0 <= p < ps.len() && (#[trigger] ps[p]).0 == k by {
                let j = choose|j: int|
                    0 <= j < entry_pairs(self.entries@).len() && (#[trigger] entry_pairs(
                        self.entries@,
                    )[j]).0 == k;
                assert(self.entries@[j].id == k);
                assert(spec_result_has(r@, k));
                let p = choose|p: int| 0 <= p < r@.len() && (#[trigger] r@[p]).id == k;
                assert(ps[p].0 == k);
            }
        }
        r
    }

    /// Retrieve entry records for a candidate set: the `ALLIDS` sentinel
    /// lists every live record; a concrete set lists exactly the live
    /// records it selects, skipping silently over identifiers that no longer
    /// exist. Records come back in ascending identifier order.
    pub fn get_identry_raw(&self, idl: &IDL) -> (r: Result<Vec<IdRawEntry>, OperationError>)
        requires
            self.wf(),
        ensures
            (match r {
                Result::Ok(v) => (match idl@ {
                    IdlView::AllIds => spec_selected_listing(
                        entry_pairs(v@),
                        self@.entries,
                        Option::None,
                    ),
                    IdlView::Indexed(s) => spec_selected_listing(
                        entry_pairs(v@),
                        self@.entries,
                        Option::Some(s),
                    ),
                    IdlView::Partial(s) => spec_selected_listing(
                        entry_pairs(v@),
                        self@.entries,
                        Option::Some(s),
                    ),
                    IdlView::PartialThreshold(s) => spec_selected_listing(
                        entry_pairs(v@),
                        self@.entries,
                        Option::Some(s),
                    ),
                }),
                Result::Err(e) => false,
            }),
    {
        match idl {
            IDL::ALLIDS => Ok(self.list_filtered(None)),
            IDL::Indexed(b) => Ok(self.list_filtered(Some(b))),
            IDL::Partial(b) => Ok(self.list_filtered(Some(b))),
            IDL::PartialThreshold(b) => Ok(self.list_filtered(Some(b))),
        }
    }

    /// Resolve one simple query term against the secondary indexes: a key
    /// with no binding yields the `ALLIDS` sentinel, so the caller falls
    /// back to filter-testing everything; a bound key yields its set, exact
    /// when its cardinality fits under the threshold and truncated to a
    /// `PartialThreshold` candidate set otherwise.
    pub fn resolve_term(
        &self,
        attr: &str,
        itype: &IndexType,
        idx_key: &str,
        threshold: usize,
    ) -> (r: IDL)
        requires
            self.wf(),
        ensures
            r.wf(),
            !self@.idx.contains_key((attr@, *itype, idx_key@)) ==> r@ == IdlView::AllIds,
            self@.idx.contains_key((attr@, *itype, idx_key@)) && self@.idx[(
                attr@,
                *itype,
                idx_key@,
            )].len() <= threshold ==> r@ == IdlView::Indexed(self@.idx[(attr@, *itype, idx_key@)]),
            self@.idx.contains_key((attr@, *itype, idx_key@)) && self@.idx[(
                attr@,
                *itype,
                idx_key@,
            )].len() > threshold ==> (r@ matches IdlView::PartialThreshold(s) && s.len()
                == threshold && s.subset_of(self@.idx[(attr@, *itype, idx_key@)])),
    {
        match self.get_idl(attr, itype, idx_key) {
            None => IDL::ALLIDS,
            Some(b) => apply_threshold(b, threshold),
        }
    }

    /// Whether an entry is live under this identifier.
    fn has_entry(&self, id: u64) -> (r: bool)
        requires
            self.wf(),
        ensures
            r == self@.entries.contains_key(id),
    {
        let mut i: usize = 0;
        while i < self.entries.len()
            invariant
                self.wf(),
                i <= self.entries@.len(),
                forall|j: int| 0 <= j < i ==> (#[trigger] self.entries@[j]).id != id,
            decreases self.entries@.len() - i,
        {
            if self.entries[i].id == id {
                proof {
                    assert(entry_pairs(self.entries@)[i as int].0 == id);
                    assert(assoc_has(entry_pairs(self.entries@), id));
                }
                return true;
            }
            i += 1;
        }
        proof {
            assert forall|j: int|
                0 <= j < entry_pairs(self.entries@).len() implies entry_pairs(
                self.entries@,
            )[j].0 != id by {
                assert(self.entries@[j].id != id);
            }
            lemma_assoc_absent(entry_pairs(self.entries@), id);
        }
        false
    }

    /// Whether one supplied indexable value of an entry is properly indexed.
    fn check_pair(&self, p: &IndexPair, id: u64) -> (r: bool)
        requires
            self.wf(),
        ensures
            r == spec_pair_ok(self@, *p, id),
    {
        if !self.exists_idx(p.attr.as_str(), &p.itype) {
            return true;
        }
        match self.get_idl(p.attr.as_str(), &p.itype, p.key.as_str()) {
            Some(b) => idl_contains(&b, id),
            None => false,
        }
    }

    /// Cross-check the entry store against the secondary indexes, with the
    /// indexable values of each live entry supplied by the caller's
    /// encoding layer. Findings are collected, never raised as a first
    /// failure: every finding in the report is a genuine divergence, and
    /// the report is empty exactly when store and extraction are
    /// consistent.
    pub fn verify(&self, eps: &Vec<EntryPairs>) -> (r: Vec<Result<(), ConsistencyError>>)
        requires
            self.wf(),
        ensures
            spec_findings_genuine(self@, eps@, r@),
            r@.len() == 0 <==> spec_consistent(self@, eps@),
    {
        let mut out: Vec<Result<(), ConsistencyError>> = Vec::new();
        let mut i: usize = 0;
        while i < eps.len()
            invariant
                self.wf(),
                i <= eps@.len(),
                spec_findings_genuine(self@, eps@, out@),
                out@.len() == 0 ==> rows_ok_upto(self@, eps@, i as int),
            decreases eps@.len() - i,
        {
            let mut j: usize = 0;
            while j < eps[i].pairs.len()
                invariant
                    self.wf(),
                    i < eps@.len(),
                    j <= eps@[i as int].pairs@.len(),
                    spec_findings_genuine(self@, eps@, out@),
                    out@.len() == 0 ==> rows_ok_upto(self@, eps@, i as int) && row_ok_upto(
                        self@,
                        eps@[i as int],
                        j as int,
                    ),
                decreases eps@[i as int].pairs@.len() - j,
            {
                let ghost outpre = out@;
                let ok = self.check_pair(&eps[i].pairs[j], eps[i].id);
                if !ok {
                    proof {
                        assert(!spec_pair_ok(self@, eps@[i as int].pairs@[j as int], eps@[i as int].id));
                        assert(spec_entry_gap(self@, eps@, eps@[i as int].id));
                    }
                    out.push(Err(ConsistencyError::EntryNotIndexed(eps[i].id)));
                    proof {
                        assert forall|n: int| 0 <= n < out@.len() implies (match #[trigger] out@[n] {
                            Result::Ok(u) => false,
                            Result::Err(e) => (match e {
                                ConsistencyError::EntryNotIndexed(id) => spec_entry_gap(
                                    self@,
                                    eps@,
                                    id,
                                ),
                                ConsistencyError::IndexedIdNotLive(id) => spec_stale_binding(
                                    self@,
                                    eps@,
                                    id,
                                ),
                            }),
                        }) by {
                            if n < outpre.len() {
                                assert(out@[n] == outpre[n]);
                            }
                        }
                    }
                }
                j += 1;
            }
            i += 1;
        }
        proof {
            if out@.len() == 0 {
                assert forall|p: int, q: int|
                    0 <= p < eps@.len() && 0 <= q < eps@[p].pairs@.len() implies spec_pair_ok(
                    self@,
                    (#[trigger] eps@[p].pairs@[q]),
                    eps@[p].id,
                ) by {
                    assert(row_ok_upto(self@, eps@[p], eps@[p].pairs@.len() as int));
                }
                assert(spec_entries_indexed(self@, eps@));
            }
        }
        let mut s: usize = 0;
        while s < self.idx_slots.len()
            invariant
                self.wf(),
                s <= self.idx_slots@.len(),
                spec_findings_genuine(self@, eps@, out@),
                out@.len() == 0 ==> spec_entries_indexed(self@, eps@) && slots_ok_upto(
                    self@,
                    eps@,
                    self.idx_slots@,
                    s as int,
                ),
            decreases self.idx_slots@.len() - s,
        {
            let slot = &self.idx_slots[s];
            let ghost t = (slot.attr@, slot.itype, slot.key@);
            proof {
                assert(idx_slot_pairs(self.idx_slots@)[s as int].0 == t);
                lemma_assoc_at(idx_slot_pairs(self.idx_slots@), s as int);
            }
            let ids = idl_to_sorted_vec(&slot.idl);
            let mut k: usize = 0;
            while k < ids.len()
                invariant
                    self.wf(),
                    s < self.idx_slots@.len(),
                    *slot == self.idx_slots@[s as int],
                    t == (slot.attr@, slot.itype, slot.key@),
                    self@.idx.contains_key(t),
                    self@.idx[t] == idl_spec(slot.idl),
                    forall|id: u64| #[trigger]
                        ids@.contains(id) <==> idl_spec(slot.idl).contains(id),
                    k <= ids@.len(),
                    spec_findings_genuine(self@, eps@, out@),
                    out@.len() == 0 ==> spec_entries_indexed(self@, eps@) && slots_ok_upto(
                        self@,
                        eps@,
                        self.idx_slots@,
                        s as int,
                    ) && ids_ok_upto(self@, eps@, t, ids@, k as int),
                decreases ids@.len() - k,
            {
                let ghost outpre = out@;
                let id = ids[k];
                let live = self.has_entry(id);
                let claimed = pairs_claim(
                    eps,
                    id,
                    slot.attr.as_str(),
                    &slot.itype,
                    slot.key.as_str(),
                );
                if !live || !claimed {
                    proof {
                        assert(ids@.contains(ids@[k as int]));
                        assert(self@.idx[t].contains(id));
                        assert(!spec_live_claim(self@, eps@, id, t));
                        assert(spec_stale_binding(self@, eps@, id));
                    }
                    out.push(Err(ConsistencyError::IndexedIdNotLive(id)));
                    proof {
                        assert forall|n: int| 0 <= n < out@.len() implies (match #[trigger] out@[n] {
                            Result::Ok(u) => false,
                            Result::Err(e) => (match e {
                                ConsistencyError::EntryNotIndexed(eid) => spec_entry_gap(
                                    self@,
                                    eps@,
                                    eid,
                                ),
                                ConsistencyError::IndexedIdNotLive(eid) => spec_stale_binding(
                                    self@,
                                    eps@,
                                    eid,
                                ),
                            }),
                        }) by {
                            if n < outpre.len() {
                                assert(out@[n] == outpre[n]);
                            }
                        }
                    }
                }
                k += 1;
            }
            proof {
                if out@.len() == 0 {
                    assert forall|id: u64| #[trigger]
                        idl_spec(self.idx_slots@[s as int].idl).contains(id) implies spec_live_claim(
                        self@,
                        eps@,
                        id,
                        t,
                    ) by {
                        assert(ids@.contains(id));
                        let q = choose|q: int| 0 <= q < ids@.len() && ids@[q] == id;
                        assert(ids_ok_upto(self@, eps@, t, ids@, ids@.len() as int));
                    }
                    assert(slot_ok(self@, eps@, self.idx_slots@[s as int]));
                    assert forall|p: int|
                        0 <= p < s + 1 implies slot_ok(
                        self@,
                        eps@,
                        (#[trigger] self.idx_slots@[p]),
                    ) by {}
                }
            }
            s += 1;
        }
        proof {
            if out@.len() == 0 {
                assert forall|t: (Seq<char>, IndexType, Seq<char>), id: u64|
                    self@.idx.contains_key(t) && #[trigger] self@.idx[t].contains(
                        id,
                    ) implies spec_live_claim(
                    self@,
                    eps@,
                    id,
                    t,
                ) by {
                    let sp = idx_slot_pairs(self.idx_slots@);
                    let p = choose|p: int| 0 <= p < sp.len() && (#[trigger] sp[p]).0 == t;
                    lemma_assoc_at(sp, p);
                    assert(self@.idx[t] == idl_spec(self.idx_slots@[p].idl));
                    assert(slot_ok(self@, eps@, self.idx_slots@[p]));
                    assert((self.idx_slots@[p].attr@, self.idx_slots@[p].itype,
                    self.idx_slots@[p].key@) == t);
                }
                assert(spec_index_backed(self@, eps@));
            }
            if spec_consistent(self@, eps@) && out@.len() > 0 {
                assert(match out@[0] {
                    Result::Ok(u) => false,
                    Result::Err(e) => (match e {
                        ConsistencyError::EntryNotIndexed(id) => spec_entry_gap(self@, eps@, id),
                        ConsistencyError::IndexedIdNotLive(id) => spec_stale_binding(
                            self@,
                            eps@,
                            id,
                        ),
                    }),
                });
                match out@[0] {
                    Result::Ok(u) => {},
                    Result::Err(e) => {
                        match e {
                            ConsistencyError::EntryNotIndexed(id) => {
                                let (bi, bj) = choose|i: int, j: int|
                                    0 <= i < eps@.len() && 0 <= j < eps@[i].pairs@.len()
                                        && eps@[i].id == id && !spec_pair_ok(
                                        self@,
                                        (#[trigger] eps@[i].pairs@[j]),
                                        id,
                                    );
                                assert(spec_pair_ok(self@, eps@[bi].pairs@[bj], eps@[bi].id));
                            },
                            ConsistencyError::IndexedIdNotLive(id) => {
                                let bt = choose|t: (Seq<char>, IndexType, Seq<char>)| #[trigger]
                                    self@.idx.contains_key(t) && self@.idx[t].contains(id)
                                        && !spec_live_claim(self@, eps@, id, t);
                                assert(spec_live_claim(self@, eps@, id, bt));
                            },
                        }
                    },
                }
            }
        }
        out
    }

    /// An independent copy of the whole state, observing the same view.
    pub fn snapshot(&self) -> (r: StoreState)
        requires
            self.wf(),
        ensures
            r.wf(),
            r@ == self@,
    {
        let mut entries: Vec<IdRawEntry> = Vec::new();
        let mut i: usize = 0;
        while i < self.entries.len()
            invariant
                self.wf(),
                i <= self.entries@.len(),
                entries@.len() == i,
                forall|j: int|
                    0 <= j < i ==> (#[trigger] entries@[j]).id == self.entries@[j].id
                        && entries@[j].data@ == self.entries@[j].data@,
            decreases self.entries@.len() - i,
        {
            let e = &self.entries[i];
            entries.push(IdRawEntry { id: e.id, data: clone_bytes(&e.data) });
            i += 1;
        }
        let mut idx_defs: Vec<IdxDef> = Vec::new();
        let mut i: usize = 0;
        while i < self.idx_defs.len()
            invariant
                self.wf(),
                i <= self.idx_defs@.len(),
                idx_defs@.len() == i,
                forall|j: int|
                    0 <= j < i ==> (#[trigger] idx_defs@[j]).attr@ == self.idx_defs@[j].attr@
                        && idx_defs@[j].itype == self.idx_defs@[j].itype,
            decreases self.idx_defs@.len() - i,
        {
            let d = &self.idx_defs[i];
            idx_defs.push(IdxDef { attr: clone_string(&d.attr), itype: d.itype });
            i += 1;
        }
        let mut idx_slots: Vec<IdxSlot> = Vec::new();
        let mut i: usize = 0;
        while i < self.idx_slots.len()
            invariant
                self.wf(),
                i <= self.idx_slots@.len(),
                idx_slots@.len() == i,
                forall|j: int|
                    0 <= j < i ==> (#[trigger] idx_slots@[j]).attr@ == self.idx_slots@[j].attr@
                        && idx_slots@[j].itype == self.idx_slots@[j].itype && idx_slots@[j].key@
                        == self.idx_slots@[j].key@ && idl_spec(idx_slots@[j].idl) == idl_spec(
                        self.idx_slots@[j].idl,
                    ),
            decreases self.idx_slots@.len() - i,
        {
            let sl = &self.idx_slots[i];
            idx_slots.push(
                IdxSlot {
                    attr: clone_string(&sl.attr),
                    itype: sl.itype,
                    key: clone_string(&sl.key),
                    idl: idl_clone(&sl.idl),
                },
            );
            i += 1;
        }
        let mut name2uuid: Vec<NameSlot> = Vec::new();
        let mut i: usize = 0;
        while i < self.name2uuid.len()
            invariant
                self.wf(),
                i <= self.name2uuid@.len(),
                name2uuid@.len() == i,
                forall|j: int|
                    0 <= j < i ==> (#[trigger] name2uuid@[j]).name@ == self.name2uuid@[j].name@
                        && name2uuid@[j].uuid == self.name2uuid@[j].uuid,
            decreases self.name2uuid@.len() - i,
        {
            let sl = &self.name2uuid[i];
            name2uuid.push(NameSlot { name: clone_string(&sl.name), uuid: sl.uuid });
            i += 1;
        }
        let mut uuid2spn: Vec<SpnSlot> = Vec::new();
        let mut i: usize = 0;
        while i < self.uuid2spn.len()
            invariant
                self.wf(),
                i <= self.uuid2spn@.len(),
                uuid2spn@.len() == i,
                forall|j: int|
                    0 <= j < i ==> (#[trigger] uuid2spn@[j]).uuid == self.uuid2spn@[j].uuid
                        && uuid2spn@[j].spn@ == self.uuid2spn@[j].spn@,
            decreases self.uuid2spn@.len() - i,
        {
            let sl = &self.uuid2spn[i];
            uuid2spn.push(SpnSlot { uuid: sl.uuid, spn: clone_string(&sl.spn) });
            i += 1;
        }
        let mut uuid2rdn: Vec<RdnSlot> = Vec::new();
        let mut i: usize = 0;
        while i < self.uuid2rdn.len()
            invariant
                self.wf(),
                i <= self.uuid2rdn@.len(),
                uuid2rdn@.len() == i,
                forall|j: int|
                    0 <= j < i ==> (#[trigger] uuid2rdn@[j]).uuid == self.uuid2rdn@[j].uuid
                        && uuid2rdn@[j].rdn@ == self.uuid2rdn@[j].rdn@,
            decreases self.uuid2rdn@.len() - i,
        {
            let sl = &self.uuid2rdn[i];
            uuid2rdn.push(RdnSlot { uuid: sl.uuid, rdn: clone_string(&sl.rdn) });
            i += 1;
        }
        let r = StoreState {
            entries,
            max_id: self.max_id,
            idx_defs,
            idx_slots,
            name2uuid,
            uuid2spn,
            uuid2rdn,
            s_uuid: self.s_uuid,
            d_uuid: self.d_uuid,
            ts_max: self.ts_max,
            id2entry_version: self.id2entry_version,
            index_version: self.index_version,
        };
        proof {
            assert(entry_pairs(r.entries@) =~= entry_pairs(self.entries@));
            assert(idx_slot_pairs(r.idx_slots@) =~= idx_slot_pairs(self.idx_slots@));
            assert(name_pairs(r.name2uuid@) =~= name_pairs(self.name2uuid@));
            assert(spn_pairs(r.uuid2spn@) =~= spn_pairs(self.uuid2spn@));
            assert(rdn_pairs(r.uuid2rdn@) =~= rdn_pairs(self.uuid2rdn@));
            assert(def_set(r.idx_defs@) =~= def_set(self.idx_defs@)) by {
                assert forall|d: (Seq<char>, IndexType)| #[trigger]
                    def_set(r.idx_defs@).contains(d) implies def_set(self.idx_defs@).contains(
                    d,
                ) by {
                    let j = choose|j: int|
                        0 <= j < r.idx_defs@.len() && ((#[trigger] r.idx_defs@[j].attr@),
                        r.idx_defs@[j].itype) == d;
                    assert((self.idx_defs@[j].attr@, self.idx_defs@[j].itype) == d);
                }
                assert forall|d: (Seq<char>, IndexType)| #[trigger]
                    def_set(self.idx_defs@).contains(d) implies def_set(r.idx_defs@).contains(
                    d,
                ) by {
                    let j = choose|j: int|
                        0 <= j < self.idx_defs@.len() && ((#[trigger] self.idx_defs@[j].attr@),
                        self.idx_defs@[j].itype) == d;
                    assert((r.idx_defs@[j].attr@, r.idx_defs@[j].itype) == d);
                }
            }
            assert(r@ =~= self@);
        }
        r
    }
}

/// The identifiers a listing request takes its selection from: none for the
/// `ALLIDS` sentinel, the contents of the candidate bitmap otherwise.
spec fn spec_sel_of(b: Option<&IDLBitRange>) -> Option<Set<u64>> {
    match b {
        Option::None => Option::None,
        Option::Some(bb) => Option::Some(idl_spec(*bb)),
    }
}

/// `e` copies a selected record among the first `n`.
spec fn spec_listed_from(
    es: Seq<IdRawEntry>,
    n: int,
    e: IdRawEntry,
    sel: Option<Set<u64>>,
) -> bool {
    exists|j: int|
        0 <= j < n && (#[trigger] es[j]).id == e.id && es[j].data@ == e.data@ && spec_selected(
            sel,
            e.id,
        )
}

/// Some listed record carries this identifier.
spec fn spec_result_has(rs: Seq<IdRawEntry>, id: u64) -> bool {
    exists|p: int| 0 <= p < rs.len() && (#[trigger] rs[p]).id == id
}

/// Index emptiness: writing an empty set for a key purges its binding, so
/// the store that [`StoreState::write_idl`] leaves behind holds no binding
/// for that key at all, and [`StoreState::get_idl`] reports `None` for it
/// rather than an empty set.
pub proof fn lemma_index_emptiness(
    sv: StoreView,
    attr: Seq<char>,
    itype: IndexType,
    key: Seq<char>,
)
    ensures
        !(StoreView { idx: sv.idx.remove((attr, itype, key)), ..sv }).idx.contains_key(
            (attr, itype, key),
        ),
{
}

spec fn row_ok_upto(sv: StoreView, ep: EntryPairs, j: int) -> bool {
    forall|q: int| 0 <= q < j ==> spec_pair_ok(sv, (#[trigger] ep.pairs@[q]), ep.id)
}

spec fn rows_ok_upto(sv: StoreView, eps: Seq<EntryPairs>, i: int) -> bool {
    forall|p: int| 0 <= p < i ==> row_ok_upto(sv, (#[trigger] eps[p]), eps[p].pairs@.len() as int)
}

spec fn slot_ok(sv: StoreView, eps: Seq<EntryPairs>, sl: IdxSlot) -> bool {
    forall|id: u64| #[trigger]
        idl_spec(sl.idl).contains(id) ==> spec_live_claim(
            sv,
            eps,
            id,
            (sl.attr@, sl.itype, sl.key@),
        )
}

spec fn slots_ok_upto(sv: StoreView, eps: Seq<EntryPairs>, slots: Seq<IdxSlot>, s: int) -> bool {
    forall|p: int| 0 <= p < s ==> slot_ok(sv, eps, (#[trigger] slots[p]))
}

spec fn ids_ok_upto(
    sv: StoreView,
    eps: Seq<EntryPairs>,
    t: (Seq<char>, IndexType, Seq<char>),
    ids: Seq<u64>,
    k: int,
) -> bool {
    forall|q: int| 0 <= q < k ==> spec_live_claim(sv, eps, (#[trigger] ids[q]), t)
}

/// Whether some supplied entry carries `id` and claims the index key
/// `(attr, itype, key)` among its indexable values.
fn pairs_claim(eps: &Vec<EntryPairs>, id: u64, attr: &str, itype: &IndexType, key: &str) -> (r:
    bool)
    ensures
        r == spec_entry_claims(eps@, id, (attr@, *itype, key@)),
{
    let ghost t = (attr@, *itype, key@);
    let mut i: usize = 0;
    while i < eps.len()
        invariant
            t == (attr@, *itype, key@),
            i <= eps@.len(),
            forall|p: int, q: int|
                0 <= p < i && 0 <= q < eps@[p].pairs@.len() ==> !(eps@[p].id == id && pair_key(
                    (#[trigger] eps@[p].pairs@[q]),
                ) == t),
        decreases eps@.len() - i,
    {
        if eps[i].id == id {
            let mut j: usize = 0;
            while j < eps[i].pairs.len()
                invariant
                    t == (attr@, *itype, key@),
                    i < eps@.len(),
                    eps@[i as int].id == id,
                    j <= eps@[i as int].pairs@.len(),
                    forall|p: int, q: int|
                        0 <= p < i && 0 <= q < eps@[p].pairs@.len() ==> !(eps@[p].id == id
                            && pair_key((#[trigger] eps@[p].pairs@[q])) == t),
                    forall|q: int|
                        0 <= q < j ==> pair_key((#[trigger] eps@[i as int].pairs@[q])) != t,
                decreases eps@[i as int].pairs@.len() - j,
            {
                let p = &eps[i].pairs[j];
                let t_eq = p.itype == *itype;
                let a_eq = str_eq(p.attr.as_str(), attr);
                let k_eq = str_eq(p.key.as_str(), key);
                if t_eq && a_eq && k_eq {
                    proof {
                        assert(pair_key(eps@[i as int].pairs@[j as int]) == t);
                        assert(spec_entry_claims(eps@, id, t));
                    }
                    return true;
                }
                proof {
                    assert(pair_key(eps@[i as int].pairs@[j as int]) != t);
                }
                j += 1;
            }
        }
        i += 1;
    }
    proof {
        assert(!spec_entry_claims(eps@, id, t)) by {
            if spec_entry_claims(eps@, id, t) {
                let (p, q) = choose|p: int, q: int|
                    0 <= p < eps@.len() && 0 <= q < eps@[p].pairs@.len() && eps@[p].id == id
                        && pair_key((#[trigger] eps@[p].pairs@[q])) == t;
            }
        }
    }
    false
}

/// Whether `n` is the display name of some index in `defs`.
pub open spec fn spec_is_idx_name_of(defs: Set<(Seq<char>, IndexType)>, n: Seq<char>) -> bool {
    exists|d: (Seq<char>, IndexType)| #[trigger] defs.contains(d) && n == spec_idx_name(d.0, d.1)
}

/// Whether some listed string spells `n`.
pub open spec fn spec_listing_has(r: Seq<String>, n: Seq<char>) -> bool {
    exists|j: int| 0 <= j < r.len() && (#[trigger] r[j])@ == n
}

/// The display name of an index: its kind's prefix followed by its
/// attribute name.
pub open spec fn spec_idx_name(attr: Seq<char>, t: IndexType) -> Seq<char> {
    (match t {
        IndexType::Equality => "idx_eq_"@,
        IndexType::Presence => "idx_pres_"@,
        IndexType::SubString => "idx_sub_"@,
    }) + attr
}

/// Render an index's display name.
fn idx_name(attr: &str, itype: &IndexType) -> (r: String)
    ensures
        r@ == spec_idx_name(attr@, *itype),
{
    let mut s: String = match itype {
        IndexType::Equality => "idx_eq_".to_owned(),
        IndexType::Presence => "idx_pres_".to_owned(),
        IndexType::SubString => "idx_sub_".to_owned(),
    };
    s.append(attr);
    s
}

/// Copy a byte payload.
fn clone_bytes(v: &Vec<u8>) -> (r: Vec<u8>)
    ensures
        r@ == v@,
{
    let mut r: Vec<u8> = Vec::new();
    let mut i: usize = 0;
    while i < v.len()
        invariant
            i <= v@.len(),
            r@ == v@.take(i as int),
        decreases v@.len() - i,
    {
        r.push(v[i]);
        proof {
            assert(r@ =~= v@.take(i + 1 as int));
        }
        i += 1;
    }
    proof {
        assert(v@.take(v@.len() as int) =~= v@);
    }
    r
}

/// Copy a string.
fn clone_string(s: &String) -> (r: String)
    ensures
        r@ == s@,
{
    s.clone()
}

} // verus!

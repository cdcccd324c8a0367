//! Transaction lifecycle, entry store and verifier behaviour.

use std::iter::FromIterator;

use idl_engine::OperationError;
use idl_engine::consistency::{ConsistencyError, EntryPairs, IndexPair};
use idl_engine::idl::IDL;
use idl_engine::txn::{IdlXlsx, IdlXlsxConfig};
use idl_engine::types::{DbTimestamp, IdRawEntry, IdXlsxEntry, Identity, IndexType};
use idlset::v2::IDLBitRange;

fn fresh_store() -> IdlXlsx {
    IdlXlsx::new(IdlXlsxConfig::new_temporary()).unwrap()
}

fn record(id: u64, data: &[u8]) -> IdRawEntry {
    IdRawEntry { id, data: data.to_vec() }
}

#[test]
fn test_idl_sqlite_verify() {
    let be_cfg = IdlXlsxConfig::new_temporary();
    let mut be = IdlXlsx::new(be_cfg).unwrap();
    let be_w = be.write().unwrap();
    let r = be_w.verify(&Vec::new());
    assert!(r.len() == 0);
    be_w.abort(&mut be);
}

#[test]
fn entry_id_zero_is_rejected() {
    let e = IdXlsxEntry::new(0, b"x".to_vec());
    assert_eq!(IdRawEntry::try_from(e), Err(OperationError::InvalidEntryId));
    let e = IdXlsxEntry::new(-5, b"x".to_vec());
    assert_eq!(IdRawEntry::try_from(e), Err(OperationError::InvalidEntryId));
    let raw = IdRawEntry { id: 0, data: b"x".to_vec() };
    assert_eq!(IdXlsxEntry::try_from(raw), Err(OperationError::InvalidEntryId));
}

#[test]
fn entry_id_round_trips() {
    let e = IdXlsxEntry::new(7, b"payload".to_vec());
    let raw = IdRawEntry::try_from(e).unwrap();
    assert_eq!(raw.id, 7);
    assert_eq!(raw.data, b"payload".to_vec());
    let back = IdXlsxEntry::try_from(raw).unwrap();
    assert_eq!(back.id, 7);
    assert_eq!(back.data, b"payload".to_vec());
}

#[test]
fn dropped_write_txn_changes_nothing() {
    let mut store = fresh_store();
    let mut w = store.write().unwrap();
    w.write_identries_raw(vec![record(1, b"a"), record(2, b"b")]).unwrap();
    w.abort(&mut store);
    let r = store.read();
    let all = r.get_identry_raw(&IDL::ALLIDS).unwrap();
    assert!(all.is_empty());
}

#[test]
fn commit_is_visible_to_later_readers_only() {
    let mut store = fresh_store();
    let before = store.read();
    let mut w = store.write().unwrap();
    w.write_identries_raw(vec![record(1, b"a"), record(2, b"b")]).unwrap();
    w.commit(&mut store).unwrap();
    let after = store.read();
    let seen = after.get_identry_raw(&IDL::ALLIDS).unwrap();
    assert_eq!(seen.len(), 2);
    assert_eq!(seen[0].id, 1);
    assert_eq!(seen[0].data, b"a".to_vec());
    assert_eq!(seen[1].id, 2);
    assert_eq!(seen[1].data, b"b".to_vec());
    let unseen = before.get_identry_raw(&IDL::ALLIDS).unwrap();
    assert!(unseen.is_empty());
}

#[test]
fn write_txn_is_exclusive() {
    let mut store = fresh_store();
    let w1 = store.write().unwrap();
    assert_eq!(store.write().err(), Some(OperationError::StorageError));
    w1.abort(&mut store);
    let w2 = store.write().unwrap();
    w2.abort(&mut store);
}

#[test]
fn commit_is_single_shot() {
    let mut store = fresh_store();
    let mut w = store.write().unwrap();
    w.commit(&mut store).unwrap();
    assert_eq!(w.commit(&mut store), Err(OperationError::TransactionClosed));
    assert_eq!(
        w.write_identries_raw(vec![record(1, b"a")]),
        Err(OperationError::TransactionClosed)
    );
    assert_eq!(w.exists_idx("name", &IndexType::Equality), Err(OperationError::TransactionClosed));
    assert_eq!(w.get_id2entry_max_id(), Err(OperationError::TransactionClosed));
}

#[test]
fn upsert_overwrites_and_get_skips_missing() {
    let mut store = fresh_store();
    let mut w = store.write().unwrap();
    w.write_identries_raw(vec![record(1, b"a"), record(3, b"c"), record(1, b"z")]).unwrap();
    w.commit(&mut store).unwrap();
    let r = store.read();
    let wanted = IDL::Indexed(IDLBitRange::from_iter(vec![1u64, 2, 3]));
    let got = r.get_identry_raw(&wanted).unwrap();
    assert_eq!(got.len(), 2);
    assert_eq!(got[0].id, 1);
    assert_eq!(got[0].data, b"z".to_vec());
    assert_eq!(got[1].id, 3);
}

#[test]
fn zero_id_write_is_rejected_atomically() {
    let mut store = fresh_store();
    let mut w = store.write().unwrap();
    assert_eq!(
        w.write_identries_raw(vec![record(1, b"a"), record(0, b"bad")]),
        Err(OperationError::InvalidEntryId)
    );
    let got = w.get_identry_raw(&IDL::ALLIDS).unwrap();
    assert!(got.is_empty());
    w.abort(&mut store);
}

#[test]
fn max_id_survives_deletes() {
    let mut store = fresh_store();
    let mut w = store.write().unwrap();
    w.write_identries_raw(vec![record(5, b"a"), record(9, b"b")]).unwrap();
    assert_eq!(w.get_id2entry_max_id(), Ok(9));
    assert_eq!(w.allocate_next_id(), Ok(10));
    w.delete_identry(9).unwrap();
    assert_eq!(w.get_id2entry_max_id(), Ok(9));
    assert_eq!(w.allocate_next_id(), Ok(10));
    let got = w.get_identry_raw(&IDL::ALLIDS).unwrap();
    assert_eq!(got.len(), 1);
    assert_eq!(got[0].id, 5);
    w.delete_identry(42).unwrap();
    w.commit(&mut store).unwrap();
}

#[test]
fn resolution_indexes_roundtrip() {
    let mut store = fresh_store();
    let mut w = store.write().unwrap();
    w.create_name2uuid().unwrap();
    w.create_uuid2spn().unwrap();
    w.create_uuid2rdn().unwrap();
    let alice = Identity { value: 0xa11c_e000 };
    w.write_name2uuid_add("alice", &alice).unwrap();
    assert_eq!(w.name2uuid("alice"), Ok(Some(alice)));
    assert_eq!(w.name2uuid("bob"), Ok(None));
    w.write_name2uuid_rem("alice").unwrap();
    assert_eq!(w.name2uuid("alice"), Ok(None));

    let spn = String::from("alice@example");
    w.write_uuid2spn(&alice, Some(&spn)).unwrap();
    assert_eq!(w.uuid2spn(&alice), Ok(Some(spn.clone())));
    w.write_uuid2spn(&alice, None).unwrap();
    assert_eq!(w.uuid2spn(&alice), Ok(None));

    let rdn = String::from("name=alice");
    w.write_uuid2rdn(&alice, Some(&rdn)).unwrap();
    assert_eq!(w.uuid2rdn(&alice), Ok(Some(rdn.clone())));
    w.write_uuid2rdn(&alice, None).unwrap();
    assert_eq!(w.uuid2rdn(&alice), Ok(None));
    w.abort(&mut store);
}

#[test]
fn metadata_singletons() {
    let mut store = fresh_store();
    let mut w = store.write().unwrap();
    assert_eq!(w.get_db_s_uuid(), Ok(None));
    assert_eq!(w.get_db_d_uuid(), Ok(None));
    assert_eq!(w.get_db_ts_max(), Ok(None));
    let sid = Identity { value: 1 };
    let did = Identity { value: 2 };
    let ts = DbTimestamp { secs: 1_234, nanos: 567 };
    w.write_db_s_uuid(sid).unwrap();
    w.write_db_d_uuid(did).unwrap();
    w.set_db_ts_max(&ts).unwrap();
    w.commit(&mut store).unwrap();
    let r = store.read();
    assert_eq!(r.get_db_s_uuid(), Ok(Some(sid)));
    assert_eq!(r.get_db_d_uuid(), Ok(Some(did)));
    assert_eq!(r.get_db_ts_max(), Ok(Some(ts)));
}

#[test]
fn version_keys_and_setup() {
    let mut store = fresh_store();
    let mut w = store.write().unwrap();
    assert_eq!(w.get_db_version_key("id2entry"), 0);
    assert_eq!(w.get_db_version_key("indexv"), 0);
    assert_eq!(w.get_db_version_key("unknown"), 0);
    w.setup().unwrap();
    assert_eq!(w.get_db_version_key("id2entry"), 1);
    assert_eq!(w.get_db_index_version(), 0);
    w.set_db_index_version(3).unwrap();
    assert_eq!(w.get_db_index_version(), 3);
    assert_eq!(w.set_db_version_key("unknown", 9), Err(()));
    w.abort(&mut store);
}

#[test]
fn purges_clear_their_stores() {
    let mut store = fresh_store();
    let mut w = store.write().unwrap();
    w.write_identries_raw(vec![record(1, b"a"), record(2, b"b")]).unwrap();
    w.create_idx("name", &IndexType::Equality).unwrap();
    let one = IDLBitRange::from_iter(vec![1u64]);
    w.write_idl("name", &IndexType::Equality, "alice", &one).unwrap();
    w.purge_idxs().unwrap();
    assert_eq!(w.exists_idx("name", &IndexType::Equality), Ok(false));
    assert!(w.get_idl("name", &IndexType::Equality, "alice").unwrap().is_none());
    w.purge_id2entry().unwrap();
    assert!(w.get_identry_raw(&IDL::ALLIDS).unwrap().is_empty());
    assert_eq!(w.get_id2entry_max_id(), Ok(2));
    w.abort(&mut store);
}

#[test]
fn verifier_flags_corrupted_index() {
    let mut store = fresh_store();
    let mut w = store.write().unwrap();
    w.write_identries_raw(vec![record(1, b"alice-entry")]).unwrap();
    w.create_idx("name", &IndexType::Equality).unwrap();
    let good = IDLBitRange::from_iter(vec![1u64]);
    w.write_idl("name", &IndexType::Equality, "alice", &good).unwrap();
    w.commit(&mut store).unwrap();

    let pairs = vec![EntryPairs {
        id: 1,
        pairs: vec![IndexPair {
            attr: String::from("name"),
            itype: IndexType::Equality,
            key: String::from("alice"),
        }],
    }];
    let clean = store.read().verify(&pairs);
    assert!(clean.is_empty());

    let mut w = store.write().unwrap();
    let corrupt = IDLBitRange::from_iter(vec![1u64, 99]);
    w.write_idl("name", &IndexType::Equality, "alice", &corrupt).unwrap();
    w.commit(&mut store).unwrap();
    let findings = store.read().verify(&pairs);
    assert!(!findings.is_empty());
    assert!(findings.contains(&Err(ConsistencyError::IndexedIdNotLive(99))));
}

#[test]
fn verifier_flags_missing_index_entry() {
    let mut store = fresh_store();
    let mut w = store.write().unwrap();
    w.write_identries_raw(vec![record(1, b"alice-entry")]).unwrap();
    w.create_idx("name", &IndexType::Equality).unwrap();
    w.commit(&mut store).unwrap();
    let pairs = vec![EntryPairs {
        id: 1,
        pairs: vec![IndexPair {
            attr: String::from("name"),
            itype: IndexType::Equality,
            key: String::from("alice"),
        }],
    }];
    let findings = store.read().verify(&pairs);
    assert!(findings.contains(&Err(ConsistencyError::EntryNotIndexed(1))));
}

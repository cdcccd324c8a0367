//! Candidate-set algebra, exactness rules, threshold capping and index
//! emptiness.

use std::iter::FromIterator;

use idl_engine::idl::{IDL, apply_threshold, idl_and, idl_not, idl_or};
use idl_engine::txn::{IdlXlsx, IdlXlsxConfig};
use idl_engine::types::{IdRawEntry, IndexType};
use idlset::v2::IDLBitRange;

fn set(ids: &[u64]) -> IDLBitRange {
    IDLBitRange::from_iter(ids.to_vec())
}

fn inner(l: &IDL) -> &IDLBitRange {
    match l {
        IDL::Indexed(b) => b,
        IDL::Partial(b) => b,
        IDL::PartialThreshold(b) => b,
        IDL::ALLIDS => panic!("expected a concrete candidate set"),
    }
}

#[test]
fn and_of_indexed_is_exact_intersection() {
    let a = IDL::Indexed(set(&[1, 2, 3]));
    let b = IDL::Indexed(set(&[2, 3, 4]));
    let r = idl_and(&a, &b);
    assert!(matches!(r, IDL::Indexed(_)));
    assert_eq!(*inner(&r), set(&[2, 3]));
}

#[test]
fn and_with_allids_is_identity() {
    let a = IDL::Indexed(set(&[1, 2, 3]));
    let r = idl_and(&a, &IDL::ALLIDS);
    assert!(matches!(r, IDL::Indexed(_)));
    assert_eq!(*inner(&r), set(&[1, 2, 3]));
    let r = idl_and(&IDL::ALLIDS, &a);
    assert_eq!(*inner(&r), set(&[1, 2, 3]));
}

#[test]
fn and_with_partial_never_claims_indexed() {
    let a = IDL::Indexed(set(&[1, 2, 3]));
    let b = IDL::Partial(set(&[2, 5]));
    let r = idl_and(&a, &b);
    assert!(matches!(r, IDL::Partial(_)));
    assert_eq!(*inner(&r), set(&[2]));
    let r = idl_and(&b, &a);
    assert!(matches!(r, IDL::Partial(_)));
    let c = IDL::PartialThreshold(set(&[3]));
    let r = idl_and(&a, &c);
    assert!(matches!(r, IDL::Partial(_)));
}

#[test]
fn or_of_indexed_is_exact_union() {
    let a = IDL::Indexed(set(&[1, 2]));
    let b = IDL::Indexed(set(&[2, 9]));
    let r = idl_or(&a, &b);
    assert!(matches!(r, IDL::Indexed(_)));
    assert_eq!(*inner(&r), set(&[1, 2, 9]));
}

#[test]
fn or_with_allids_is_allids() {
    let a = IDL::Indexed(set(&[1, 2]));
    assert!(matches!(idl_or(&a, &IDL::ALLIDS), IDL::ALLIDS));
    assert!(matches!(idl_or(&IDL::ALLIDS, &a), IDL::ALLIDS));
    let b = IDL::Partial(set(&[2, 9]));
    let r = idl_or(&a, &b);
    assert!(matches!(r, IDL::Partial(_)));
    assert_eq!(*inner(&r), set(&[1, 2, 9]));
}

#[test]
fn intersection_and_union_bound_their_operands() {
    let a = set(&[1, 3, 5, 7]);
    let b = set(&[3, 4, 5]);
    let meet = &a & &b;
    let join = &a | &b;
    for id in &meet {
        assert!(a.contains(id) && b.contains(id));
    }
    for id in &a {
        assert!(join.contains(id));
    }
    for id in &b {
        assert!(join.contains(id));
    }
}

#[test]
fn not_needs_the_universe() {
    let a = IDL::Indexed(set(&[2, 4]));
    let universe = set(&[1, 2, 3, 4, 5]);
    let r = idl_not(&a, Some(&universe));
    assert!(matches!(r, IDL::Indexed(_)));
    assert_eq!(*inner(&r), set(&[1, 3, 5]));
    assert!(matches!(idl_not(&a, None), IDL::ALLIDS));
    let p = IDL::Partial(set(&[2]));
    assert!(matches!(idl_not(&p, Some(&universe)), IDL::ALLIDS));
}

#[test]
fn threshold_caps_large_scans() {
    let small = apply_threshold(set(&[1, 2, 3]), 3);
    assert!(matches!(small, IDL::Indexed(_)));
    assert_eq!(*inner(&small), set(&[1, 2, 3]));

    let capped = apply_threshold(set(&[10, 20, 30, 40, 50]), 2);
    match &capped {
        IDL::PartialThreshold(b) => {
            assert_eq!(b.len(), 2);
            for id in b {
                assert!(set(&[10, 20, 30, 40, 50]).contains(id));
            }
        }
        _ => panic!("expected a threshold-capped candidate set"),
    }
    assert!(capped.needs_filter_test());
    assert!(!small.needs_filter_test());
}

#[test]
fn resolve_term_falls_back_and_caps() {
    let mut store = IdlXlsx::new(IdlXlsxConfig::new_temporary()).unwrap();
    let mut w = store.write().unwrap();
    let mut recs = Vec::new();
    for id in 1..=5u64 {
        recs.push(IdRawEntry { id, data: b"e".to_vec() });
    }
    w.write_identries_raw(recs).unwrap();
    w.create_idx("name", &IndexType::Equality).unwrap();
    w.write_idl("name", &IndexType::Equality, "alice", &set(&[1, 2, 3, 4, 5])).unwrap();
    w.commit(&mut store).unwrap();

    let r = store.read();
    let missing = r.resolve_term("name", &IndexType::Equality, "nobody", 10);
    assert!(matches!(missing, IDL::ALLIDS));
    let exact = r.resolve_term("name", &IndexType::Equality, "alice", 10);
    assert!(matches!(exact, IDL::Indexed(_)));
    assert_eq!(*inner(&exact), set(&[1, 2, 3, 4, 5]));
    let capped = r.resolve_term("name", &IndexType::Equality, "alice", 3);
    match &capped {
        IDL::PartialThreshold(b) => {
            assert_eq!(b.len(), 3);
            for id in b {
                assert!(set(&[1, 2, 3, 4, 5]).contains(id));
            }
        }
        _ => panic!("expected a threshold-capped candidate set"),
    }
}

#[test]
fn empty_idl_write_purges_the_key() {
    let mut store = IdlXlsx::new(IdlXlsxConfig::new_temporary()).unwrap();
    let mut w = store.write().unwrap();
    w.create_idx("name", &IndexType::Equality).unwrap();
    w.write_idl("name", &IndexType::Equality, "k", &set(&[4, 8])).unwrap();
    assert_eq!(w.get_idl("name", &IndexType::Equality, "k").unwrap(), Some(set(&[4, 8])));
    assert!(w.get_idl("name", &IndexType::Equality, "other").unwrap().is_none());
    assert!(w.get_idl("mail", &IndexType::Equality, "k").unwrap().is_none());
    w.write_idl("name", &IndexType::Equality, "k", &IDLBitRange::new()).unwrap();
    assert!(w.get_idl("name", &IndexType::Equality, "k").unwrap().is_none());
    assert_eq!(w.exists_idx("name", &IndexType::Equality), Ok(true));
    w.commit(&mut store).unwrap();
}

#[test]
fn create_idx_is_idempotent_and_listed() {
    let mut store = IdlXlsx::new(IdlXlsxConfig::new_temporary()).unwrap();
    let mut w = store.write().unwrap();
    assert_eq!(w.exists_idx("name", &IndexType::Equality), Ok(false));
    w.create_idx("name", &IndexType::Equality).unwrap();
    w.create_idx("name", &IndexType::Equality).unwrap();
    w.create_idx("class", &IndexType::Presence).unwrap();
    w.create_idx("mail", &IndexType::SubString).unwrap();
    assert_eq!(w.exists_idx("name", &IndexType::Equality), Ok(true));
    let mut names = w.list_idxs().unwrap();
    names.sort();
    assert_eq!(
        names,
        vec![
            String::from("idx_eq_name"),
            String::from("idx_pres_class"),
            String::from("idx_sub_mail"),
        ]
    );
    w.abort(&mut store);
}

#[test]
fn get_allids_tracks_live_entries() {
    let mut store = IdlXlsx::new(IdlXlsxConfig::new_temporary()).unwrap();
    let mut w = store.write().unwrap();
    w.write_identries_raw(vec![
        IdRawEntry { id: 2, data: b"b".to_vec() },
        IdRawEntry { id: 7, data: b"g".to_vec() },
    ])
    .unwrap();
    w.delete_identry(2).unwrap();
    let all = w.get_allids().unwrap();
    assert!(!all.contains(2));
    assert!(all.contains(7));
    assert_eq!(all.len(), 1);
    w.abort(&mut store);
}

#[test]
fn duplicate_preserves_tag_and_contents() {
    let a = IDL::PartialThreshold(set(&[6, 12]));
    let d = a.duplicate();
    assert!(matches!(d, IDL::PartialThreshold(_)));
    assert_eq!(*inner(&d), set(&[6, 12]));
    assert!(matches!(IDL::ALLIDS.duplicate(), IDL::ALLIDS));
}

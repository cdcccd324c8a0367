//! Trusted boundary to `idlset`'s compressed bitmap set `IDLBitRange`.
//!
//! The engine stores sets of entry identifiers in `idlset::v2::IDLBitRange`.
//! The contents of such a set are named by the uninterpreted function
//! [`idl_spec`]; every wrapper below states, over that name, what the called
//! `idlset` operation does to the contents, as the crate's source shows.

use vstd::prelude::*;
use idlset::v2::IDLBitRange;
use idlset::AndNot;

verus! {

#[verifier::external_type_specification]
#[verifier::external_body]
pub struct ExIDLBitRange(IDLBitRange);

/// The set of identifiers held by a bitmap set.
pub uninterp spec fn idl_spec(b: IDLBitRange) -> Set<u64>;

/// Relies on `IDLBitRange::new`: constructs an empty set.
#[verifier::external_body]
pub(crate) fn idl_new() -> (r: IDLBitRange)
    ensures
        idl_spec(r) == Set::<u64>::empty(),
{
    IDLBitRange::new()
}

/// Relies on `IDLBitRange::insert_id`: inserts one identifier, keeping the
/// set sorted and deduplicated.
#[verifier::external_body]
pub(crate) fn idl_insert(b: &mut IDLBitRange, id: u64)
    ensures
        idl_spec(*final(b)) == idl_spec(*old(b)).insert(id),
{
    b.insert_id(id)
}

/// Relies on `IDLBitRange::contains`: membership test.
#[verifier::external_body]
pub(crate) fn idl_contains(b: &IDLBitRange, id: u64) -> (r: bool)
    ensures
        r == idl_spec(*b).contains(id),
{
    b.contains(id)
}

/// Relies on `IDLBitRange::len`: counts the identifiers in the set, which is
/// a finite structure.
#[verifier::external_body]
pub(crate) fn idl_len(b: &IDLBitRange) -> (r: usize)
    requires
        idl_spec(*b).finite(),
    ensures
        r == idl_spec(*b).len(),
{
    b.len()
}

/// Relies on `IDLBitRange::is_empty`: true exactly when the set holds no
/// identifier.
#[verifier::external_body]
pub(crate) fn idl_is_empty(b: &IDLBitRange) -> (r: bool)
    ensures
        r == (idl_spec(*b) == Set::<u64>::empty()),
{
    b.is_empty()
}

/// Relies on `<&IDLBitRange as BitAnd>::bitand`: set intersection.
#[verifier::external_body]
pub(crate) fn idl_intersect(a: &IDLBitRange, b: &IDLBitRange) -> (r: IDLBitRange)
    ensures
        idl_spec(r) == idl_spec(*a).intersect(idl_spec(*b)),
        idl_spec(r).finite(),
{
    a & b
}

/// Relies on `<&IDLBitRange as BitOr>::bitor`: set union.
#[verifier::external_body]
pub(crate) fn idl_union(a: &IDLBitRange, b: &IDLBitRange) -> (r: IDLBitRange)
    ensures
        idl_spec(r) == idl_spec(*a).union(idl_spec(*b)),
        idl_spec(r).finite(),
{
    a | b
}

/// Relies on `<&IDLBitRange as AndNot>::andnot`: the identifiers of `a` that
/// are not in `b`.
#[verifier::external_body]
pub(crate) fn idl_difference(a: &IDLBitRange, b: &IDLBitRange) -> (r: IDLBitRange)
    ensures
        idl_spec(r) == idl_spec(*a).difference(idl_spec(*b)),
        idl_spec(r).finite(),
{
    a.andnot(b)
}

/// Relies on `<IDLBitRange as Clone>::clone`: the copy holds the same
/// identifiers.
#[verifier::external_body]
pub(crate) fn idl_clone(b: &IDLBitRange) -> (r: IDLBitRange)
    ensures
        idl_spec(r) == idl_spec(*b),
        idl_spec(r).finite(),
{
    b.clone()
}

/// Relies on `<&IDLBitRange as IntoIterator>::into_iter`: iteration yields
/// each identifier once, in ascending order.
#[verifier::external_body]
pub(crate) fn idl_to_sorted_vec(b: &IDLBitRange) -> (r: Vec<u64>)
    ensures
        forall|i: int, j: int| 0 <= i < j < r@.len() ==> r@[i] < r@[j],
        forall|id: u64| #[trigger] r@.contains(id) <==> idl_spec(*b).contains(id),
{
    let mut v: Vec<u64> = Vec::new();
    for id in b {
        v.push(id);
    }
    v
}

} // verus!

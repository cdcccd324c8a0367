//! Exactness-tagged candidate sets and the lattice rules that combine them.
//!
//! A query predicate resolves to an [`IDL`]: either the sentinel `ALLIDS`
//! ("every live entry is a candidate"), an exact `Indexed` set, or a
//! `Partial` / `PartialThreshold` candidate superset that must still be
//! filter-tested against the decoded entries. Intersection, union and
//! negation combine two such sets without ever claiming more exactness than
//! their least exact input.

use vstd::prelude::*;
use idlset::v2::IDLBitRange;
use crate::bitrange::{
    idl_spec, idl_new, idl_insert, idl_clone, idl_intersect, idl_union, idl_difference, idl_len,
    idl_to_sorted_vec,
};

verus! {

/// An exactness-tagged candidate set of entry identifiers.
pub enum IDL {
    /// Every live entry identifier is a candidate; sound but never selective.
    ALLIDS,
    /// The complete, exact answer for the originating predicate.
    Indexed(IDLBitRange),
    /// A candidate superset that must be filter-tested.
    Partial(IDLBitRange),
    /// A candidate set truncated at a configured threshold; must be
    /// filter-tested and never treated as complete.
    PartialThreshold(IDLBitRange),
}

/// The mathematical shape of an [`IDL`]: its tag together with the set of
/// identifiers it holds.
pub enum IdlView {
    AllIds,
    Indexed(Set<u64>),
    Partial(Set<u64>),
    PartialThreshold(Set<u64>),
}

impl View for IDL {
    type V = IdlView;

    open spec fn view(&self) -> IdlView {
        match self {
            IDL::ALLIDS => IdlView::AllIds,
            IDL::Indexed(b) => IdlView::Indexed(idl_spec(*b)),
            IDL::Partial(b) => IdlView::Partial(idl_spec(*b)),
            IDL::PartialThreshold(b) => IdlView::PartialThreshold(idl_spec(*b)),
        }
    }
}

impl IDL {
    /// A well-formed candidate set holds finitely many identifiers.
    pub open spec fn wf(self) -> bool {
        match self {
            IDL::ALLIDS => true,
            IDL::Indexed(b) => idl_spec(b).finite(),
            IDL::Partial(b) => idl_spec(b).finite(),
            IDL::PartialThreshold(b) => idl_spec(b).finite(),
        }
    }

    /// A copy with the same tag and the same identifiers.
    pub fn duplicate(&self) -> (r: IDL)
        ensures
            r@ == self@,
            r.wf(),
    {
        match self {
            IDL::ALLIDS => IDL::ALLIDS,
            IDL::Indexed(b) => IDL::Indexed(idl_clone(b)),
            IDL::Partial(b) => IDL::Partial(idl_clone(b)),
            IDL::PartialThreshold(b) => IDL::PartialThreshold(idl_clone(b)),
        }
    }

    /// True for every variant whose candidates must still be filter-tested
    /// against the decoded entries before being returned as matches; only an
    /// `Indexed` result may be used directly as the exact answer.
    pub fn needs_filter_test(&self) -> (r: bool)
        ensures
            r == !(self@ is Indexed),
    {
        match self {
            IDL::Indexed(_) => false,
            _ => true,
        }
    }
}

/// The intersection rule: `AllIds` is a neutral element, two exact operands
/// intersect exactly, and any partial operand degrades the result to
/// `Partial` over the intersection of the underlying sets.
pub open spec fn spec_idl_and(a: IdlView, b: IdlView) -> IdlView {
    match (a, b) {
        (IdlView::AllIds, _) => b,
        (_, IdlView::AllIds) => a,
        (IdlView::Indexed(x), IdlView::Indexed(y)) => IdlView::Indexed(x.intersect(y)),
        (IdlView::Indexed(x), IdlView::Partial(y)) => IdlView::Partial(x.intersect(y)),
        (IdlView::Indexed(x), IdlView::PartialThreshold(y)) => IdlView::Partial(x.intersect(y)),
        (IdlView::Partial(x), IdlView::Indexed(y)) => IdlView::Partial(x.intersect(y)),
        (IdlView::Partial(x), IdlView::Partial(y)) => IdlView::Partial(x.intersect(y)),
        (IdlView::Partial(x), IdlView::PartialThreshold(y)) => IdlView::Partial(x.intersect(y)),
        (IdlView::PartialThreshold(x), IdlView::Indexed(y)) => IdlView::Partial(x.intersect(y)),
        (IdlView::PartialThreshold(x), IdlView::Partial(y)) => IdlView::Partial(x.intersect(y)),
        (IdlView::PartialThreshold(x), IdlView::PartialThreshold(y)) => IdlView::Partial(
            x.intersect(y),
        ),
    }
}

/// The union rule: `AllIds` absorbs, two exact operands unite exactly, and
/// any partial operand degrades the result to `Partial` over the union of
/// the underlying sets.
pub open spec fn spec_idl_or(a: IdlView, b: IdlView) -> IdlView {
    match (a, b) {
        (IdlView::AllIds, _) => IdlView::AllIds,
        (_, IdlView::AllIds) => IdlView::AllIds,
        (IdlView::Indexed(x), IdlView::Indexed(y)) => IdlView::Indexed(x.union(y)),
        (IdlView::Indexed(x), IdlView::Partial(y)) => IdlView::Partial(x.union(y)),
        (IdlView::Indexed(x), IdlView::PartialThreshold(y)) => IdlView::Partial(x.union(y)),
        (IdlView::Partial(x), IdlView::Indexed(y)) => IdlView::Partial(x.union(y)),
        (IdlView::Partial(x), IdlView::Partial(y)) => IdlView::Partial(x.union(y)),
        (IdlView::Partial(x), IdlView::PartialThreshold(y)) => IdlView::Partial(x.union(y)),
        (IdlView::PartialThreshold(x), IdlView::Indexed(y)) => IdlView::Partial(x.union(y)),
        (IdlView::PartialThreshold(x), IdlView::Partial(y)) => IdlView::Partial(x.union(y)),
        (IdlView::PartialThreshold(x), IdlView::PartialThreshold(y)) => IdlView::Partial(
            x.union(y),
        ),
    }
}

/// The negation rule: exact negation needs the full universe of live
/// identifiers and an exact operand; in every other case the result degrades
/// to `AllIds`, forcing a full filter-test pass.
pub open spec fn spec_idl_not(a: IdlView, universe: Option<Set<u64>>) -> IdlView {
    match universe {
        Option::None => IdlView::AllIds,
        Option::Some(u) => match a {
            IdlView::Indexed(x) => IdlView::Indexed(u.difference(x)),
            _ => IdlView::AllIds,
        },
    }
}

/// Intersection (AND) of two candidate sets, per [`spec_idl_and`].
pub fn idl_and(a: &IDL, b: &IDL) -> (r: IDL)
    requires
        a.wf(),
        b.wf(),
    ensures
        r@ == spec_idl_and(a@, b@),
        r.wf(),
{
    match a {
        IDL::ALLIDS => b.duplicate(),
        IDL::Indexed(x) => match b {
            IDL::ALLIDS => a.duplicate(),
            IDL::Indexed(y) => IDL::Indexed(idl_intersect(x, y)),
            IDL::Partial(y) => IDL::Partial(idl_intersect(x, y)),
            IDL::PartialThreshold(y) => IDL::Partial(idl_intersect(x, y)),
        },
        IDL::Partial(x) => match b {
            IDL::ALLIDS => a.duplicate(),
            IDL::Indexed(y) => IDL::Partial(idl_intersect(x, y)),
            IDL::Partial(y) => IDL::Partial(idl_intersect(x, y)),
            IDL::PartialThreshold(y) => IDL::Partial(idl_intersect(x, y)),
        },
        IDL::PartialThreshold(x) => match b {
            IDL::ALLIDS => a.duplicate(),
            IDL::Indexed(y) => IDL::Partial(idl_intersect(x, y)),
            IDL::Partial(y) => IDL::Partial(idl_intersect(x, y)),
            IDL::PartialThreshold(y) => IDL::Partial(idl_intersect(x, y)),
        },
    }
}

/// Union (OR) of two candidate sets, per [`spec_idl_or`].
pub fn idl_or(a: &IDL, b: &IDL) -> (r: IDL)
    requires
        a.wf(),
        b.wf(),
    ensures
        r@ == spec_idl_or(a@, b@),
        r.wf(),
{
    match a {
        IDL::ALLIDS => IDL::ALLIDS,
        IDL::Indexed(x) => match b {
            IDL::ALLIDS => IDL::ALLIDS,
            IDL::Indexed(y) => IDL::Indexed(idl_union(x, y)),
            IDL::Partial(y) => IDL::Partial(idl_union(x, y)),
            IDL::PartialThreshold(y) => IDL::Partial(idl_union(x, y)),
        },
        IDL::Partial(x) => match b {
            IDL::ALLIDS => IDL::ALLIDS,
            IDL::Indexed(y) => IDL::Partial(idl_union(x, y)),
            IDL::Partial(y) => IDL::Partial(idl_union(x, y)),
            IDL::PartialThreshold(y) => IDL::Partial(idl_union(x, y)),
        },
        IDL::PartialThreshold(x) => match b {
            IDL::ALLIDS => IDL::ALLIDS,
            IDL::Indexed(y) => IDL::Partial(idl_union(x, y)),
            IDL::Partial(y) => IDL::Partial(idl_union(x, y)),
            IDL::PartialThreshold(y) => IDL::Partial(idl_union(x, y)),
        },
    }
}

/// Negation (NOT) of a candidate set, per [`spec_idl_not`]. `universe` is the
/// full set of live identifiers when the caller has it; without it, or over a
/// non-exact operand, the result is `ALLIDS`.
pub fn idl_not(a: &IDL, universe: Option<&IDLBitRange>) -> (r: IDL)
    requires
        a.wf(),
    ensures
        r@ == spec_idl_not(
            a@,
            match universe {
                Option::None => Option::None,
                Option::Some(u) => Option::Some(idl_spec(*u)),
            },
        ),
        r.wf(),
{
    match universe {
        Option::None => IDL::ALLIDS,
        Option::Some(u) => match a {
            IDL::Indexed(x) => IDL::Indexed(idl_difference(u, x)),
            _ => IDL::ALLIDS,
        },
    }
}

/// Threshold fallback for a term's index scan: a set no larger than the
/// threshold is returned exact, a larger one is truncated to its `threshold`
/// smallest identifiers and tagged `PartialThreshold`.
pub fn apply_threshold(set: IDLBitRange, threshold: usize) -> (r: IDL)
    requires
        idl_spec(set).finite(),
    ensures
        idl_spec(set).len() <= threshold ==> r@ == IdlView::Indexed(idl_spec(set)),
        idl_spec(set).len() > threshold ==> (r@ matches IdlView::PartialThreshold(s)
            && s.len() == threshold && s.subset_of(idl_spec(set))),
        r.wf(),
{
    let n = idl_len(&set);
    if n <= threshold {
        IDL::Indexed(set)
    } else {
        let ids = idl_to_sorted_vec(&set);
        let ghost full = idl_spec(set);
        proof {
            lemma_sorted_vec_matches_set(ids@, full);
        }
        let mut capped = idl_new();
        let mut i: usize = 0;
        while i < threshold
            invariant
                threshold <= ids@.len(),
                forall|p: int, q: int| 0 <= p < q < ids@.len() ==> ids@[p] < ids@[q],
                forall|id: u64| #[trigger] ids@.contains(id) <==> full.contains(id),
                i <= threshold,
                idl_spec(capped).finite(),
                idl_spec(capped).len() == i,
                forall|id: u64| #[trigger] idl_spec(capped).contains(id) ==> (exists|k: int|
                    0 <= k < i && ids@[k] == id),
                forall|k: int| 0 <= k < i ==> idl_spec(capped).contains(#[trigger] ids@[k]),
            decreases threshold - i,
        {
            proof {
                assert(!idl_spec(capped).contains(ids@[i as int])) by {
                    if idl_spec(capped).contains(ids@[i as int]) {
                        let k = choose|k: int| 0 <= k < i && ids@[k] == ids@[i as int];
                        assert(ids@[k] < ids@[i as int]);
                    }
                }
            }
            idl_insert(&mut capped, ids[i]);
            i = i + 1;
        }
        proof {
            assert forall|id: u64| idl_spec(capped).contains(id) implies full.contains(id) by {
                let k = choose|k: int| 0 <= k < i && ids@[k] == id;
                assert(ids@.contains(ids@[k]));
            }
        }
        IDL::PartialThreshold(capped)
    }
}

/// A sorted vector whose members coincide with a set enumerates that set:
/// the set is finite and as long as the vector.
proof fn lemma_sorted_vec_matches_set(ids: Seq<u64>, s: Set<u64>)
    requires
        forall|p: int, q: int| 0 <= p < q < ids.len() ==> ids[p] < ids[q],
        forall|id: u64| #[trigger] ids.contains(id) <==> s.contains(id),
        s.finite(),
    ensures
        ids.len() == s.len(),
{
    assert(ids.no_duplicates());
    ids.unique_seq_to_set();
    assert(ids.to_set() =~= s);
}

/// Set-algebra facts behind the combination rules: an intersection is
/// contained in each operand, a union contains each operand, and combining
/// an exact set with the `AllIds` sentinel leaves it unchanged in either
/// direction of the AND rule.
pub proof fn lemma_set_algebra(a: Set<u64>, b: Set<u64>)
    ensures
        a.intersect(b).subset_of(a),
        a.intersect(b).subset_of(b),
        a.subset_of(a.union(b)),
        b.subset_of(a.union(b)),
        spec_idl_and(IdlView::Indexed(a), IdlView::AllIds) == IdlView::Indexed(a),
        spec_idl_and(IdlView::AllIds, IdlView::Indexed(a)) == IdlView::Indexed(a),
        spec_idl_and(IdlView::Partial(a), IdlView::AllIds) == IdlView::Partial(a),
        spec_idl_and(IdlView::AllIds, IdlView::Partial(a)) == IdlView::Partial(a),
{
}

/// Exactness monotonicity of the AND rule: intersecting with a partial
/// operand never yields a result claiming exactness, whichever side the
/// partial operand stands on.
pub proof fn lemma_and_exactness_monotone(a: IdlView, b: IdlView)
    requires
        b is Partial || b is PartialThreshold,
    ensures
        !(spec_idl_and(a, b) is Indexed),
        !(spec_idl_and(b, a) is Indexed),
{
}

} // verus!

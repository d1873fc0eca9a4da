//! Backend interchangeability. Every conforming backend owes the outcome
//! predicates of the repository contract, so two backends holding the same
//! records resolve the same call identically: the same success or failure
//! kind, the same returned record, and the same stored records afterwards.
//! Applied call by call, a whole sequence of create, get, update, delete and
//! list calls is observably identical on both, which is what makes the
//! backends swappable.
//!
//! The one caveat is a create in the shared principals collection of the
//! document store: there a key may be occupied by the other principal kind,
//! and the conflict decision of the two backends can differ. The create
//! agreement lemma therefore assumes that a failed create means the key is
//! in use in the map at hand, which holds for the volatile backend always
//! and for the document store whenever no cross-kind key sharing occurs.

use vstd::prelude::*;
use crate::error::AppError;
use crate::repo::{
    create_outcome, delete_outcome, get_outcome, list_outcome, lists_map, update_outcome,
};

verus! {

/// Some element of `v` has the view `x`.
pub open spec fn seq_has_view<T: View>(v: Seq<T>, x: T::V) -> bool {
    exists|i: int| 0 <= i < v.len() && (#[trigger] v[i])@ == x
}

/// Some key of `m` holds the value `x`.
pub open spec fn map_has_value<K, EV>(m: Map<K, EV>, x: EV) -> bool {
    exists|k: K| #[trigger] m.contains_key(k) && m[k] == x
}

/// Two conforming backends with the same records resolve a lookup
/// identically: both return the same stored record, or both report NotFound.
pub proof fn lemma_get_agreement<E: View>(
    m: Map<Seq<char>, E::V>,
    id: Seq<char>,
    r1: Result<E, AppError>,
    r2: Result<E, AppError>,
)
    requires
        get_outcome(m, id, r1),
        get_outcome(m, id, r2),
    ensures
        match (r1, r2) {
            (Ok(a), Ok(b)) => a@ == b@,
            (Err(e1), Err(e2)) => e1 is NotFound && e2 is NotFound,
            _ => false,
        },
{
}

/// Two conforming backends with the same records resolve a create
/// identically, provided a failure on either side means the key is in use:
/// both succeed and store the same records, or both report a conflict and
/// change nothing.
pub proof fn lemma_create_agreement<EV>(
    m0: Map<Seq<char>, EV>,
    m1: Map<Seq<char>, EV>,
    m2: Map<Seq<char>, EV>,
    key: Seq<char>,
    value: EV,
    r1: Result<(), AppError>,
    r2: Result<(), AppError>,
)
    requires
        create_outcome(m0, m1, key, value, r1),
        create_outcome(m0, m2, key, value, r2),
        r1 is Err ==> m0.contains_key(key),
        r2 is Err ==> m0.contains_key(key),
    ensures
        m1 == m2,
        match (r1, r2) {
            (Ok(a), Ok(b)) => true,
            (Err(e1), Err(e2)) => e1 is Conflict && e2 is Conflict,
            _ => false,
        },
{
}

/// Two conforming backends with the same records resolve an update
/// identically.
pub proof fn lemma_update_agreement<EV>(
    m0: Map<Seq<char>, EV>,
    m1: Map<Seq<char>, EV>,
    m2: Map<Seq<char>, EV>,
    id: Seq<char>,
    value: EV,
    r1: Result<(), AppError>,
    r2: Result<(), AppError>,
)
    requires
        update_outcome(m0, m1, id, value, r1),
        update_outcome(m0, m2, id, value, r2),
    ensures
        m1 == m2,
        match (r1, r2) {
            (Ok(a), Ok(b)) => true,
            (Err(e1), Err(e2)) => e1 is NotFound && e2 is NotFound,
            _ => false,
        },
{
}

/// Two conforming backends with the same records resolve a delete
/// identically.
pub proof fn lemma_delete_agreement<EV>(
    m0: Map<Seq<char>, EV>,
    m1: Map<Seq<char>, EV>,
    m2: Map<Seq<char>, EV>,
    id: Seq<char>,
    r1: Result<(), AppError>,
    r2: Result<(), AppError>,
)
    requires
        delete_outcome(m0, m1, id, r1),
        delete_outcome(m0, m2, id, r2),
    ensures
        m1 == m2,
        match (r1, r2) {
            (Ok(a), Ok(b)) => true,
            (Err(e1), Err(e2)) => e1 is NotFound && e2 is NotFound,
            _ => false,
        },
{
}

/// Two conforming backends with the same records both materialize a listing
/// of the same length holding exactly the same set of records, order aside.
pub proof fn lemma_list_agreement<E: View>(
    m: Map<Seq<char>, E::V>,
    r1: Result<Vec<E>, AppError>,
    r2: Result<Vec<E>, AppError>,
)
    requires
        list_outcome(m, r1),
        list_outcome(m, r2),
    ensures
        r1 is Ok && r2 is Ok,
        match (r1, r2) {
            (Ok(v1), Ok(v2)) => {
                &&& v1@.len() == v2@.len()
                &&& forall|x: E::V|
                    #![trigger seq_has_view(v1@, x)]
                    #![trigger seq_has_view(v2@, x)]
                    seq_has_view(v1@, x) <==> seq_has_view(v2@, x)
            },
            _ => false,
        },
{
    let v1 = r1->Ok_0;
    let v2 = r2->Ok_0;
    lemma_lists_map_values(v1@, m);
    lemma_lists_map_values(v2@, m);
}

/// A listing that satisfies `lists_map` holds, as the views of its elements,
/// exactly the values stored in the map.
proof fn lemma_lists_map_values<T: View>(v: Seq<T>, m: Map<Seq<char>, T::V>)
    requires
        lists_map(v, m),
    ensures
        forall|x: T::V| #[trigger] seq_has_view(v, x) <==> map_has_value(m, x),
{
    let ks = choose|ks: Seq<Seq<char>>|
        {
            &&& ks.no_duplicates()
            &&& ks.len() == v.len()
            &&& (forall|i: int|
                0 <= i < v.len() ==> m.contains_key(#[trigger] ks[i]) && v[i]@ == m[ks[i]])
            &&& (forall|k: Seq<char>| m.contains_key(k) ==> ks.contains(k))
        };
    assert forall|x: T::V| seq_has_view(v, x) implies map_has_value(m, x) by {
        let i = choose|i: int| 0 <= i < v.len() && (#[trigger] v[i])@ == x;
        assert(m.contains_key(ks[i]) && m[ks[i]] == x);
    }
    assert forall|x: T::V| map_has_value(m, x) implies seq_has_view(v, x) by {
        let k = choose|k: Seq<char>| #[trigger] m.contains_key(k) && m[k] == x;
        assert(ks.contains(k));
        let i = choose|i: int| 0 <= i < ks.len() && ks[i] == k;
        assert(v[i]@ == m[k]);
        assert(seq_has_view(v, x));
    }
}

} // verus!

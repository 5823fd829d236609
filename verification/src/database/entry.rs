//! What the three kinds of entries have in common.

pub mod action;
pub mod connection;
pub mod data;
pub mod directory;
pub mod transform;
pub mod transformation;

use crate::text::first_where;
use data::Data;
use vstd::prelude::*;
use vstd::std_specs::cmp::PartialEqSpec;

verus! {

/// Something stored in the ledger under an id.
pub trait Entry {
    /// The id of this entry.
    spec fn spec_id(&self) -> u64;

    /// The id of this entry.
    fn get_id(&self) -> (id: u64)
        ensures
            id == self.spec_id(),
    ;
}

/// The test "equals `entry`", by the equality of the entry's kind.
pub open spec fn equal_to<T: PartialEq>(entry: T) -> spec_fn(T) -> bool {
    |x: T| entry.eq_spec(&x)
}

/// The test "has the id `id`".
pub open spec fn has_id<T: Entry>(id: u64) -> spec_fn(T) -> bool {
    |x: T| x.spec_id() == id
}

/// Looks for an entry of `arr` that equals `entry`. The result is `true`
/// with the id of the first such entry, or `false` with 0.
pub fn entry_in<T: PartialEq + Entry>(entry: &T, arr: &[T]) -> (r: (bool, u64))
    ensures
        T::obeys_eq_spec() ==> r == (if first_where(arr@, equal_to(*entry)) < arr@.len() {
            (true, arr@[first_where(arr@, equal_to(*entry)) as int].spec_id())
        } else {
            (false, 0u64)
        }),
{
    let mut i: usize = 0;
    while i < arr.len()
        invariant
            i <= arr@.len(),
            T::obeys_eq_spec() ==> forall|j: int| 0 <= j < i ==> !equal_to(*entry)(#[trigger] arr@[j]),
        decreases arr@.len() - i,
    {
        if *entry == arr[i] {
            proof {
                if T::obeys_eq_spec() {
                    crate::text::lemma_first_where_unique(arr@, equal_to(*entry), i as int);
                }
            }
            return (true, arr[i].get_id());
        }
        i += 1;
    }
    proof {
        if T::obeys_eq_spec() {
            crate::text::lemma_first_where_unique(arr@, equal_to(*entry), i as int);
        }
    }
    (false, 0)
}

/// Whether some entry of `arr` has the id `id`.
pub fn id_in<T: Entry>(id: u64, arr: &[T]) -> (r: bool)
    ensures
        r == (first_where(arr@, has_id::<T>(id)) < arr@.len()),
{
    let mut i: usize = 0;
    while i < arr.len()
        invariant
            i <= arr@.len(),
            forall|j: int| 0 <= j < i ==> !has_id::<T>(id)(#[trigger] arr@[j]),
        decreases arr@.len() - i,
    {
        if arr[i].get_id() == id {
            proof {
                crate::text::lemma_first_where_unique(arr@, has_id::<T>(id), i as int);
            }
            return true;
        }
        i += 1;
    }
    proof {
        crate::text::lemma_first_where_unique(arr@, has_id::<T>(id), i as int);
    }
    false
}

/// Whether two datasets are the same dataset does not depend on which of
/// them is asked.
pub proof fn lemma_identity_is_symmetric(a: Data, b: Data)
    ensures
        a.eq_spec(&b) == b.eq_spec(&a),
{
}

/// Whether two datasets are the same dataset depends on nothing but the
/// sets of their paths and the number of paths: datasets that agree in
/// these with `a` and with `b` are the same dataset exactly if `a` and `b`
/// are, whatever their ids, their metadata and the order of their paths.
pub proof fn lemma_identity_reads_paths_only(a: Data, b: Data, a2: Data, b2: Data)
    requires
        a@.paths.to_set() == a2@.paths.to_set(),
        a@.paths.len() == a2@.paths.len(),
        b@.paths.to_set() == b2@.paths.to_set(),
        b@.paths.len() == b2@.paths.len(),
    ensures
        a.eq_spec(&b) == a2.eq_spec(&b2),
{
}

/// Paths in another order are the same set of paths.
pub proof fn lemma_identity_ignores_order(a: Data, b: Data)
    requires
        a@.paths.to_multiset() == b@.paths.to_multiset(),
    ensures
        a.eq_spec(&b),
{
    let x = a@.paths;
    let y = b@.paths;
    x.to_multiset_ensures();
    y.to_multiset_ensures();
    assert forall|p: Seq<char>| x.to_set().contains(p) == y.to_set().contains(p) by {
        assert(x.contains(p) <==> x.to_multiset().count(p) > 0);
        assert(y.contains(p) <==> y.to_multiset().count(p) > 0);
    }
    assert(x.to_set() =~= y.to_set());
}

} // verus!

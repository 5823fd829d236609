//! Datasets.

use crate::metadata::Metadata;
use crate::text::copy_texts;
use crate::utils::{all_occur_in, is_permutation_small, occurs_in};
use super::Entry;
use vstd::prelude::*;
use vstd::std_specs::cmp::PartialEqSpec;

verus! {

/// A dataset: the files that hold its content.
#[derive(Debug)]
pub struct Data {
    pub id: u64,
    pub md: Metadata,
    pub paths: Vec<String>,
}

/// What a dataset is, apart from how it is held in memory.
pub struct DataView {
    pub id: u64,
    pub md: Map<Seq<char>, Seq<char>>,
    pub paths: Seq<Seq<char>>,
}

/// Whether two lists of paths have one length and hold the same paths, in
/// whatever order.
pub open spec fn same_path_set(a: Seq<Seq<char>>, b: Seq<Seq<char>>) -> bool {
    a.len() == b.len() && a.to_set() == b.to_set()
}

impl View for Data {
    type V = DataView;

    open spec fn view(&self) -> DataView {
        DataView { id: self.id, md: self.md@, paths: self.paths.deep_view() }
    }
}

impl Clone for Data {
    fn clone(&self) -> (r: Data)
        ensures
            r@ == self@,
    {
        Data { id: self.id, md: self.md.clone(), paths: copy_texts(&self.paths) }
    }
}

/// A path, compared by its characters.
pub struct PathText<'a>(pub &'a String);

impl<'a> PartialEq for PathText<'a> {
    fn eq(&self, other: &PathText<'a>) -> (r: bool) {
        *self.0 == *other.0
    }
}

impl<'a> vstd::std_specs::cmp::PartialEqSpecImpl for PathText<'a> {
    open spec fn obeys_eq_spec() -> bool {
        true
    }

    open spec fn eq_spec(&self, other: &PathText<'a>) -> bool {
        self.0@ == other.0@
    }
}

/// The paths of a list, each to be compared by its characters.
fn path_texts<'a>(paths: &'a Vec<String>) -> (r: Vec<PathText<'a>>)
    ensures
        r.len() == paths.len(),
        forall|k: int| 0 <= k < r.len() ==> (#[trigger] r[k]).0@ == paths.deep_view()[k],
{
    let mut r: Vec<PathText<'a>> = Vec::new();
    let mut i: usize = 0;
    while i < paths.len()
        invariant
            i <= paths.len(),
            r.len() == i,
            forall|k: int| 0 <= k < i ==> (#[trigger] r[k]).0@ == paths.deep_view()[k],
        decreases paths.len() - i,
    {
        r.push(PathText(&paths[i]));
        i += 1;
    }
    r
}

/// Every path of `a` occurs in `b` exactly if every text of `x` is among
/// the texts of `y`, where `a` and `b` hold the paths whose texts are `x`
/// and `y`.
proof fn lemma_occurrence_is_membership(
    a: Seq<PathText<'_>>,
    b: Seq<PathText<'_>>,
    x: Seq<Seq<char>>,
    y: Seq<Seq<char>>,
)
    requires
        a.len() == x.len(),
        b.len() == y.len(),
        forall|k: int| 0 <= k < a.len() ==> (#[trigger] a[k]).0@ == x[k],
        forall|k: int| 0 <= k < b.len() ==> (#[trigger] b[k]).0@ == y[k],
    ensures
        all_occur_in(a, b) <==> forall|i: int| 0 <= i < x.len() ==> y.contains(#[trigger] x[i]),
{
    if all_occur_in(a, b) {
        assert forall|i: int| 0 <= i < x.len() implies y.contains(#[trigger] x[i]) by {
            assert(occurs_in(a[i], b));
            let j = choose|j: int| 0 <= j < b.len() && #[trigger] a[i].eq_spec(&b[j]);
            assert(y[j] == x[i]);
        }
    }
    if forall|i: int| 0 <= i < x.len() ==> y.contains(#[trigger] x[i]) {
        assert forall|i: int| 0 <= i < a.len() implies occurs_in(#[trigger] a[i], b) by {
            assert(y.contains(x[i]));
            let j = choose|j: int| 0 <= j < y.len() && y[j] == x[i];
            assert(a[i].eq_spec(&b[j]));
        }
    }
}

impl PartialEq for Data {
    /// Two datasets are the same dataset when they hold the same paths.
    fn eq(&self, rhs: &Data) -> (r: bool) {
        let mine = path_texts(&self.paths);
        let theirs = path_texts(&rhs.paths);
        let r = is_permutation_small(mine.as_slice(), theirs.as_slice());
        proof {
            let a = self.paths.deep_view();
            let b = rhs.paths.deep_view();
            lemma_occurrence_is_membership(mine@, theirs@, a, b);
            lemma_occurrence_is_membership(theirs@, mine@, b, a);
            if r {
                assert forall|x: Seq<char>| a.to_set().contains(x) == b.to_set().contains(x) by {
                    if a.contains(x) {
                        let i = choose|i: int| 0 <= i < a.len() && a[i] == x;
                        assert(b.contains(a[i]));
                    }
                    if b.contains(x) {
                        let i = choose|i: int| 0 <= i < b.len() && b[i] == x;
                        assert(a.contains(b[i]));
                    }
                }
                assert(a.to_set() =~= b.to_set());
            } else if a.len() == b.len() && a.to_set() == b.to_set() {
                assert forall|i: int| 0 <= i < a.len() implies b.contains(#[trigger] a[i]) by {
                    assert(a.to_set().contains(a[i]));
                }
                assert forall|i: int| 0 <= i < b.len() implies a.contains(#[trigger] b[i]) by {
                    assert(b.to_set().contains(b[i]));
                }
            }
        }
        r
    }
}

impl vstd::std_specs::cmp::PartialEqSpecImpl for Data {
    open spec fn obeys_eq_spec() -> bool {
        true
    }

    open spec fn eq_spec(&self, other: &Data) -> bool {
        same_path_set(self@.paths, other@.paths)
    }
}

impl Entry for Data {
    open spec fn spec_id(&self) -> u64 {
        self.id
    }

    fn get_id(&self) -> (id: u64) {
        self.id
    }
}

} // verus!

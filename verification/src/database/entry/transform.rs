//! Transforms: chains of scripts.

use crate::execution::{Execution, ExecutionView, Request};
use crate::metadata::Metadata;
use crate::text::{copy_optional_texts, copy_texts, same_optional_texts, same_texts};
use super::data::Data;
use super::Entry;
use vstd::prelude::*;
use vstd::std_specs::cmp::PartialEqSpecImpl;

verus! {

/// A transform: scripts that run one after another, each with its argument
/// string and the commit it is pinned to, if any.
#[derive(Debug)]
pub struct Transform {
    pub id: u64,
    pub md: Metadata,
    pub script_paths: Vec<String>,
    pub script_args: Vec<Option<String>>,
    pub script_git_hashes: Vec<Option<String>>,
}

/// What a transform is, apart from how it is held in memory.
pub struct TransformView {
    pub id: u64,
    pub md: Map<Seq<char>, Seq<char>>,
    pub script_paths: Seq<Seq<char>>,
    pub script_args: Seq<Option<Seq<char>>>,
    pub script_git_hashes: Seq<Option<Seq<char>>>,
}

/// Whether two transforms run the same scripts with the same arguments at
/// the same commits, in the same order.
pub open spec fn same_scripts(a: TransformView, b: TransformView) -> bool {
    &&& a.script_paths == b.script_paths
    &&& a.script_args == b.script_args
    &&& a.script_git_hashes == b.script_git_hashes
}

impl View for Transform {
    type V = TransformView;

    open spec fn view(&self) -> TransformView {
        TransformView {
            id: self.id,
            md: self.md@,
            script_paths: self.script_paths.deep_view(),
            script_args: self.script_args.deep_view(),
            script_git_hashes: self.script_git_hashes.deep_view(),
        }
    }
}

impl Clone for Transform {
    fn clone(&self) -> (r: Transform)
        ensures
            r@ == self@,
    {
        Transform {
            id: self.id,
            md: self.md.clone(),
            script_paths: copy_texts(&self.script_paths),
            script_args: copy_optional_texts(&self.script_args),
            script_git_hashes: copy_optional_texts(&self.script_git_hashes),
        }
    }
}

impl PartialEq for Transform {
    fn eq(&self, other: &Transform) -> (r: bool) {
        same_texts(&self.script_paths, &other.script_paths) && same_optional_texts(
            &self.script_args,
            &other.script_args,
        ) && same_optional_texts(&self.script_git_hashes, &other.script_git_hashes)
    }
}

impl PartialEqSpecImpl for Transform {
    open spec fn obeys_eq_spec() -> bool {
        true
    }

    open spec fn eq_spec(&self, other: &Transform) -> bool {
        same_scripts(self@, other@)
    }
}

impl Entry for Transform {
    open spec fn spec_id(&self) -> u64 {
        self.id
    }

    fn get_id(&self) -> (id: u64) {
        self.id
    }
}

/// The paths that the first script of a run is given: those of the first
/// input dataset, or none where there is no input.
pub open spec fn first_paths(data: Seq<&Data>) -> Seq<Seq<char>> {
    if data.len() > 0 {
        data[0]@.paths
    } else {
        Seq::empty()
    }
}

impl Transform {
    /// Begins to apply the transform to the datasets `data`, to make the
    /// dataset `id`: gives the run at its beginning, and what is to be done
    /// first.
    pub fn apply(&self, data: &[&Data], id: u64) -> (r: (Execution, Request))
        ensures
            (r.0@, r.1@) == ExecutionView::start(
                self@.script_paths,
                self@.script_args,
                self@.script_git_hashes,
                first_paths(data@),
                id,
            ),
    {
        let paths = if data.len() > 0 {
            copy_texts(&data[0].paths)
        } else {
            Vec::new()
        };
        assert(paths.deep_view() =~= first_paths(data@));
        Execution::start(
            copy_texts(&self.script_paths),
            copy_optional_texts(&self.script_args),
            copy_optional_texts(&self.script_git_hashes),
            paths,
            id,
        )
    }
}

} // verus!

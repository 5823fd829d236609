//! A chain of scripts in which each script takes a list of arguments.

use crate::metadata::Metadata;
use vstd::prelude::*;

verus! {

/// A chain of scripts; each script has its own list of arguments, if any.
#[derive(Debug)]
pub struct Transformation {
    pub id: u64,
    pub md: Metadata,
    pub script_paths: Vec<String>,
    pub script_args: Vec<Option<Vec<String>>>,
    pub script_git_hashes: Vec<Option<String>>,
}

} // verus!

//! A directory tree of file paths.

use vstd::prelude::*;

verus! {

/// The files of a directory, and its subdirectories.
#[derive(Debug)]
pub struct Directory {
    pub fpaths: Vec<String>,
    pub sub_dirs: Vec<Directory>,
}

} // verus!

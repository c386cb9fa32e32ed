//! Media paths are carried through the playlist logic as opaque values.

use std::path::PathBuf;
use vstd::prelude::*;

verus! {

/// `std::path::PathBuf`, carried as an opaque value: the playlist logic never
/// looks inside a path, it only stores, copies and moves paths around.
#[verifier::external_type_specification]
#[verifier::external_body]
pub struct ExPathBuf(PathBuf);

/// `<PathBuf as Clone>::clone`: std documents that a clone is a duplicate of
/// the path, so the copy is taken to be the same value as the original.
pub assume_specification[ <PathBuf as Clone>::clone ](path: &PathBuf) -> (copy: PathBuf)
    ensures
        copy == *path,
;

/// Copies a whole playlist, keeping every entry.
pub fn clone_paths(paths: &Vec<PathBuf>) -> (copy: Vec<PathBuf>)
    ensures
        copy@ == paths@,
{
    paths.clone()
}

} // verus!

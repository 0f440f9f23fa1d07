//! Records of the forge's release and comparison listings.

use vstd::prelude::*;

verus! {

/// A published release.
#[derive(Debug)]
pub struct Release {
    pub name: String,
    pub tag_name: String,
    pub target_commitish: String,
}

/// The commits between two refs, as the forge compares them.
#[derive(Debug)]
pub struct CommitComparison {
    pub status: String,
    pub commits: Vec<CommitItem>,
}

/// One commit of a comparison.
#[derive(Debug)]
pub struct CommitItem {
    pub commit: Commit,
}

/// The message of a commit of a comparison.
#[derive(Debug)]
pub struct Commit {
    pub message: String,
}

} // verus!

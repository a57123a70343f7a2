//! Commits as the API reports them.

use vstd::prelude::*;

verus! {

/// One commit.
#[derive(Debug)]
pub struct CommitResponse {
    pub sha: String,
    pub message: String,
    pub author: String,
    pub date: String,
    pub repository: String,
}

} // verus!

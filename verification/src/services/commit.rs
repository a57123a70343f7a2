//! Commits. Nothing is recorded yet, so there is nothing to report.

use crate::models::commit::CommitResponse;
use crate::services::traits::CommitService as CommitSource;
use vstd::prelude::*;

verus! {

/// The service for commits.
pub struct CommitService;

impl CommitService {
    /// The service.
    pub fn new() -> Self {
        CommitService
    }

    /// The latest commits, `limit` at most: none.
    pub fn get_recent(&self, limit: i32) -> (out: Vec<CommitResponse>)
        ensures
            out@.len() == 0,
    {
        Vec::new()
    }
}

impl CommitSource for CommitService {
    fn get_recent(&self, limit: i32) -> (out: Vec<CommitResponse>)
        ensures
            out@.len() == 0,
    {
        CommitService::get_recent(self, limit)
    }
}

} // verus!

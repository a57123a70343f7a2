//! Git activity as the API reports it.

use vstd::prelude::*;

verus! {

/// The activity of one day.
#[derive(Debug)]
pub struct ActivityResponse {
    pub date: String,
    pub commits: i32,
    pub additions: i32,
    pub deletions: i32,
}

} // verus!

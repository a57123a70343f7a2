//! Git activity. Nothing is recorded yet, so there is nothing to report.

use crate::models::activity::ActivityResponse;
use crate::services::traits::ActivityService as ActivitySource;
use vstd::prelude::*;

verus! {

/// The service for git activity.
pub struct ActivityService;

impl ActivityService {
    /// The service.
    pub fn new() -> Self {
        ActivityService
    }

    /// The activity of the last `days` days: none.
    pub fn get_recent(&self, days: i32) -> (out: Vec<ActivityResponse>)
        ensures
            out@.len() == 0,
    {
        Vec::new()
    }
}

impl ActivitySource for ActivityService {
    fn get_recent(&self, days: i32) -> (out: Vec<ActivityResponse>)
        ensures
            out@.len() == 0,
    {
        ActivityService::get_recent(self, days)
    }
}

} // verus!

//! The parameters that requests carry in their query.

use vstd::prelude::*;

verus! {

/// The query of a request for git activity.
#[derive(Debug)]
pub struct ActivityQuery {
    /// How many days back to look. 7 where it is not given.
    pub days: Option<i32>,
}

/// The query of a request for commits.
#[derive(Debug)]
pub struct CommitQuery {
    /// How many commits at most. 10 where it is not given.
    pub limit: Option<u32>,
}

/// The query of a request for blog posts.
#[derive(Debug)]
pub struct BlogQuery {
    /// The page, counted from 1. 1 where it is not given.
    pub page: Option<u32>,
    /// The posts on a page. 10 where it is not given.
    pub page_size: Option<u32>,
    pub category: Option<String>,
    pub search: Option<String>,
}

impl ActivityQuery {
    /// The days to look back.
    pub fn days_or_default(&self) -> (days: i32)
        ensures
            days == match self.days {
                Some(d) => d,
                None => 7,
            },
    {
        match self.days {
            Some(d) => d,
            None => 7,
        }
    }
}

impl CommitQuery {
    /// The most commits to hand out, as a signed number: a limit above
    /// `i32::MAX` wraps round.
    pub fn limit_or_default(&self) -> (limit: i32)
        ensures
            limit == match self.limit {
                Some(l) => l as i32,
                None => 10,
            },
    {
        match self.limit {
            Some(l) => #[verifier::truncate]
            (l as i32),
            None => 10,
        }
    }
}

impl BlogQuery {
    /// The page.
    pub fn page_or_default(&self) -> (page: u32)
        ensures
            page == match self.page {
                Some(p) => p,
                None => 1,
            },
    {
        match self.page {
            Some(p) => p,
            None => 1,
        }
    }

    /// The posts on a page.
    pub fn page_size_or_default(&self) -> (size: u32)
        ensures
            size == match self.page_size {
                Some(s) => s,
                None => 10,
            },
    {
        match self.page_size {
            Some(s) => s,
            None => 10,
        }
    }
}

} // verus!

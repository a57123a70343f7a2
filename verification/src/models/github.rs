//! What the GitHub API sends: repositories and commits.

use vstd::prelude::*;

verus! {

/// A repository.
#[derive(Debug)]
pub struct GitHubRepo {
    pub id: i64,
    pub name: String,
    pub full_name: String,
    pub description: Option<String>,
    pub html_url: String,
    pub homepage: Option<String>,
    pub language: Option<String>,
    pub stargazers_count: i32,
    pub forks_count: i32,
    pub topics: Vec<String>,
    pub updated_at: String,
}

/// A commit, with its statistics where they were asked for.
#[derive(Debug)]
pub struct GitHubCommit {
    pub sha: String,
    pub commit: GitHubCommitData,
    pub stats: Option<GitHubCommitStats>,
}

/// The message and author of a commit.
#[derive(Debug)]
pub struct GitHubCommitData {
    pub message: String,
    pub author: GitHubCommitAuthor,
}

/// Who wrote a commit, and when.
#[derive(Debug)]
pub struct GitHubCommitAuthor {
    pub name: String,
    pub email: String,
    pub date: String,
}

/// The lines that a commit added and took away.
#[derive(Debug)]
pub struct GitHubCommitStats {
    pub additions: i32,
    pub deletions: i32,
    pub total: i32,
}

} // verus!

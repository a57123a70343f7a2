//! The data that the API hands out, one module per domain.

pub mod activity;
pub mod blog;
pub mod commit;
pub mod github;
pub mod project;

pub use activity::ActivityResponse;
pub use blog::{BlogCategory, BlogPost, BlogPostResponse};
pub use commit::CommitResponse;
pub use github::{GitHubCommit, GitHubCommitAuthor, GitHubCommitData, GitHubCommitStats, GitHubRepo};
pub use project::ProjectResponse;

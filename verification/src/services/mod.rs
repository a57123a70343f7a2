//! The services behind the API.

pub mod blog_markdown;
pub mod project_markdown;
pub mod activity;
pub mod commit;
pub mod traits;
pub mod github;

//! What each service offers, so that one can stand in for another.

use crate::models::activity::ActivityResponse;
use crate::models::blog::BlogPost;
use crate::models::commit::CommitResponse;
use crate::models::project::ProjectResponse;
use crate::repository::{FileContent, LoadError, SourceFile};
use vstd::prelude::*;

verus! {

/// A source of projects. `files` is one scan of the content directory.
pub trait ProjectService {
    /// Every project, the last updated first.
    fn get_all_projects(&self, files: &Vec<SourceFile>) -> Vec<ProjectResponse>;

    /// The project of a slug. `found` is what looking for its file gave.
    fn get_project_by_slug(&self, slug: &str, found: Option<FileContent>) -> Result<
        Option<ProjectResponse>,
        LoadError,
    >;

    /// The featured projects.
    fn get_featured_projects(&self, files: &Vec<SourceFile>) -> (out: Vec<ProjectResponse>)
        ensures
            out.len() <= 3,
    ;
}

/// A source of blog posts. `files` is one scan of the content directory.
pub trait BlogService {
    /// Page `page`, counted from 1, of the posts, newest first.
    fn get_published_posts(&self, files: &Vec<SourceFile>, page: u32, page_size: u32) -> (out: Vec<
        BlogPost,
    >)
        requires
            page >= 1,
        ensures
            out.len() <= page_size,
    ;

    /// The post of a slug. `found` is what looking for its file gave.
    fn get_post_by_slug(&self, slug: &str, found: Option<FileContent>) -> Result<
        Option<BlogPost>,
        LoadError,
    >;

    /// The featured posts, `limit` at most.
    fn get_featured_posts(&self, files: &Vec<SourceFile>, limit: u32) -> (out: Vec<BlogPost>)
        ensures
            out.len() <= limit,
    ;
}

/// A source of git activity.
pub trait ActivityService {
    /// The activity of the last `days` days.
    fn get_recent(&self, days: i32) -> Vec<ActivityResponse>;
}

/// A source of commits.
pub trait CommitService {
    /// The latest commits, `limit` at most.
    fn get_recent(&self, limit: i32) -> Vec<CommitResponse>;
}

} // verus!

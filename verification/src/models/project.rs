//! Projects as the API reports them.

use vstd::prelude::*;

verus! {

/// One project.
#[derive(Debug)]
pub struct ProjectResponse {
    pub id: String,
    pub name: String,
    pub description: String,
    pub html_url: String,
    pub homepage: Option<String>,
    pub language: String,
    pub stargazers_count: i32,
    pub forks_count: i32,
    pub topics: Vec<String>,
    pub updated_at: String,
}

/// The mathematical value of a `ProjectResponse`.
pub struct ProjectResponseView {
    pub id: Seq<char>,
    pub name: Seq<char>,
    pub description: Seq<char>,
    pub html_url: Seq<char>,
    pub homepage: Option<Seq<char>>,
    pub language: Seq<char>,
    pub stargazers_count: i32,
    pub forks_count: i32,
    pub topics: Seq<Seq<char>>,
    pub updated_at: Seq<char>,
}

impl DeepView for ProjectResponse {
    type V = ProjectResponseView;

    open spec fn deep_view(&self) -> ProjectResponseView {
        ProjectResponseView {
            id: self.id@,
            name: self.name@,
            description: self.description@,
            html_url: self.html_url@,
            homepage: self.homepage.deep_view(),
            language: self.language@,
            stargazers_count: self.stargazers_count,
            forks_count: self.forks_count,
            topics: self.topics.deep_view(),
            updated_at: self.updated_at@,
        }
    }
}

} // verus!

//! What is asked of the GitHub API, and which repositories are taken
//! over. Sending the requests is the caller's part.

use crate::text::{
    chars_of, decimal, lemma_chars_deep_view, matches_at, occurs_at, push_decimal, split,
    split_on, string_of,
};
use vstd::prelude::*;
use vstd::string::StringExecFns;

verus! {

/// The address of the list of a user's repositories: a hundred of them,
/// the last updated first.
pub open spec fn user_repos_address(username: Seq<char>) -> Seq<char> {
    "https://api.github.com/users/"@ + username + "/repos?per_page=100&sort=updated"@
}

/// The address of the list of a repository's commits, `per_page` of them.
pub open spec fn repo_commits_address(owner: Seq<char>, repo: Seq<char>, per_page: nat) -> Seq<
    char,
> {
    "https://api.github.com/repos/"@ + owner + "/"@ + repo + "/commits?per_page="@ + decimal(
        per_page,
    )
}

/// The address of one commit.
pub open spec fn commit_address(owner: Seq<char>, repo: Seq<char>, sha: Seq<char>) -> Seq<char> {
    "https://api.github.com/repos/"@ + owner + "/"@ + repo + "/commits/"@ + sha
}

/// The `Authorization` header that shows a token.
pub open spec fn bearer_of(token: Seq<char>) -> Seq<char> {
    "Bearer "@ + token
}

/// Owner and name of a repository, out of its full name: the two pieces
/// round its one slash.
pub open spec fn owner_and_name_of(full_name: Seq<char>) -> Option<(Seq<char>, Seq<char>)> {
    let parts = split_on(full_name, '/');
    if parts.len() == 2 {
        Some((parts[0], parts[1]))
    } else {
        None
    }
}

/// Whether a repository's full name starts with the user's name and a slash.
pub open spec fn is_under(full_name: Seq<char>, username: Seq<char>) -> bool {
    occurs_at(full_name, username + "/"@, 0)
}

/// The address of the list of a user's repositories.
pub fn user_repos_url(username: &str) -> (url: String)
    ensures
        url@ == user_repos_address(username@),
{
    let mut url = String::from_str("https://api.github.com/users/");
    url.append(username);
    url.append("/repos?per_page=100&sort=updated");
    url
}

/// The address of the list of a repository's commits.
pub fn repo_commits_url(owner: &str, repo: &str, per_page: u32) -> (url: String)
    ensures
        url@ == repo_commits_address(owner@, repo@, per_page as nat),
{
    let mut url = String::from_str("https://api.github.com/repos/");
    url.append(owner);
    url.append("/");
    url.append(repo);
    url.append("/commits?per_page=");
    push_decimal(&mut url, per_page as u64);
    url
}

/// The address of one commit.
pub fn commit_url(owner: &str, repo: &str, sha: &str) -> (url: String)
    ensures
        url@ == commit_address(owner@, repo@, sha@),
{
    let mut url = String::from_str("https://api.github.com/repos/");
    url.append(owner);
    url.append("/");
    url.append(repo);
    url.append("/commits/");
    url.append(sha);
    url
}

/// The `Authorization` header that shows a token.
pub fn bearer_header(token: &str) -> (value: String)
    ensures
        value@ == bearer_of(token@),
{
    let mut value = String::from_str("Bearer ");
    value.append(token);
    value
}

/// Parts a repository's full name into owner and name.
pub fn owner_and_name(full_name: &str) -> (r: Option<(String, String)>)
    ensures
        r.deep_view() == owner_and_name_of(full_name@),
{
    let parts = split(full_name, '/');
    if parts.len() == 2 {
        proof {
            lemma_chars_deep_view(parts@[0]);
            lemma_chars_deep_view(parts@[1]);
        }
        Some((string_of(&parts[0]), string_of(&parts[1])))
    } else {
        None
    }
}

/// Whether a repository's full name starts with the user's name and a
/// slash. Such a repository is passed over when repositories are taken over.
pub fn is_under_user(full_name: &str, username: &str) -> (r: bool)
    ensures
        r == is_under(full_name@, username@),
{
    let mut prefix = String::from_str(username);
    prefix.append("/");
    let name = chars_of(full_name);
    let start = chars_of(prefix.as_str());
    matches_at(&name, &start, 0)
}

} // verus!

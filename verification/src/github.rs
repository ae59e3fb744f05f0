//! The pull-request data model.
//!
//! Values of these types are built from the hosting API's JSON responses by
//! the surrounding binary, which hands them to the library as plain values.

use vstd::prelude::*;

verus! {

/// An open pull request, as fetched from the hosting API.
pub struct GithubPullRequest {
    pub id: u64,
    /// The API URL of the pull request (its review collection hangs off it).
    pub url: String,
    /// The browser-facing URL of the pull request.
    pub html_url: String,
    pub title: String,
    pub user: GithubUser,
    pub draft: bool,
    pub number: u64,
    pub head: GithubBranch,
    pub labels: Vec<GithubLabel>,
    /// Creation time, in seconds since the Unix epoch.
    pub created_at: i64,
}

/// The source branch of a pull request.
pub struct GithubBranch {
    pub repo: GithubRepository,
}

/// The repository a branch belongs to.
pub struct GithubRepository {
    pub name: String,
    pub visibility: String,
}

/// A label attached to a pull request.
pub struct GithubLabel {
    pub name: String,
}

/// A user account: a pull request's author, or a member of the exclusion or
/// allow lists.
pub struct GithubUser {
    pub id: u64,
    pub login: String,
    /// The account kind reported by the API, e.g. `"User"` or `"Bot"`.
    pub user_type: String,
}

/// A single review of a pull request.
pub struct GithubReview {
    pub id: u64,
    /// The review state reported by the API, e.g. `"APPROVED"` or
    /// `"CHANGES_REQUESTED"`.
    pub state: String,
}

} // verus!

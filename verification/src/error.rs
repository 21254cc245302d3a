//! Error type of the branch-cleanup core.
use vstd::prelude::*;

use vstd::string::StringExecFns;

verus! {

/// Errors surfaced by the branch-cleanup core. I/O-classed causes arrive
/// from the collaborators as plain messages; the core adds the taxonomy.
#[derive(Debug)]
pub enum BranchCleanerError {
    /// A repository operation failed; the payload carries the cause.
    GitError(String),
    /// A remote API call failed; the payload carries the cause.
    GitHubError(String),
    /// A remote URL could not be parsed into owner and repository.
    RemoteParseError(String),
    /// No credential for the remote API was found.
    TokenNotFound,
    /// The repository has no origin remote configured.
    NoOriginRemote,
}

impl BranchCleanerError {
    /// The user-facing description of the error.
    pub open spec fn message_spec(self) -> Seq<char> {
        match self {
            BranchCleanerError::GitError(m) => "Git error: "@ + m@,
            BranchCleanerError::GitHubError(m) => "GitHub API error: "@ + m@,
            BranchCleanerError::RemoteParseError(m) => "Remote URL parsing error: "@ + m@,
            BranchCleanerError::TokenNotFound => "GitHub token not found in environment"@,
            BranchCleanerError::NoOriginRemote => "No origin remote found in repository"@,
        }
    }

    /// Render the user-facing description.
    pub fn message(&self) -> (r: String)
        ensures
            r@ == self.message_spec(),
    {
        match self {
            BranchCleanerError::GitError(m) => {
                let mut s: String = "Git error: ".to_owned();
                s.append(m.as_str());
                s
            },
            BranchCleanerError::GitHubError(m) => {
                let mut s: String = "GitHub API error: ".to_owned();
                s.append(m.as_str());
                s
            },
            BranchCleanerError::RemoteParseError(m) => {
                let mut s: String = "Remote URL parsing error: ".to_owned();
                s.append(m.as_str());
                s
            },
            BranchCleanerError::TokenNotFound => "GitHub token not found in environment".to_owned(),
            BranchCleanerError::NoOriginRemote => "No origin remote found in repository".to_owned(),
        }
    }
}

} // verus!

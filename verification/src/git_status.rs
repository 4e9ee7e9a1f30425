//! The classification step of the git status scanner: deciding from the
//! `git status --porcelain` output whether a repository is modified, and
//! whether it should be shown. Walking directories and running git are the
//! caller's business.

use vstd::prelude::*;

verus! {

/// The state of one repository.
#[derive(Clone, Debug, PartialOrd, Eq, PartialEq, Structural)]
pub enum GitStatus {
    Aok,
    Modified,
    Unknown,
}

/// Classify the output of `git status --porcelain`: an empty output means a
/// clean repository, anything at all means a modified one.
pub fn parse_git_status(status: String) -> (r: GitStatus)
    ensures
        r == (if status@.len() == 0 {
            GitStatus::Aok
        } else {
            GitStatus::Modified
        }),
{
    if status.as_str().is_empty() {
        return GitStatus::Aok;
    }
    GitStatus::Modified
}

/// Whether a repository with this status is shown: modified ones always,
/// the rest only when not restricted to modified ones.
pub fn should_display(status: &GitStatus, modified_only: bool) -> (r: bool)
    ensures
        r == (*status is Modified || !modified_only),
{
    match status {
        GitStatus::Modified => true,
        _ => !modified_only,
    }
}

} // verus!

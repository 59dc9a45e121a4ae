//! Data model of the git widget: the repository status it displays and
//! publishes. Reading a repository is the git backend's job; it fills these
//! plain values.

use vstd::prelude::*;

verus! {

/// Status of a git repository, as the widget displays it.
#[derive(Debug, Clone)]
pub struct GitStatus {
    /// The checked-out branch.
    pub branch: String,
    /// The upstream branch, when one is configured.
    pub remote_branch: Option<String>,
    /// Commits ahead of the upstream.
    pub ahead: usize,
    /// Commits behind the upstream.
    pub behind: usize,
    /// Staged changes.
    pub staged: usize,
    /// Unstaged changes.
    pub unstaged: usize,
    /// Untracked files.
    pub untracked: usize,
    /// The most recent commits, newest first.
    pub last_commits: Vec<CommitInfo>,
}

/// One commit line of the git widget.
#[derive(Debug, Clone)]
pub struct CommitInfo {
    /// Short hash.
    pub hash: String,
    /// First line of the commit message.
    pub message: String,
    /// Author name.
    pub author: String,
}

} // verus!

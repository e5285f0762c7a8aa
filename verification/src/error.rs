//! The error taxonomy of the crate.
//!
//! Guard failures (protected, current, unmerged) are expected user-facing
//! outcomes of the deletion engine; the remaining variants report
//! configuration or repository failures.

use vstd::prelude::*;

verus! {

#[derive(Debug, Clone)]
pub enum GitTidyError {
    /// No git repository was found at the given path.
    RepositoryNotFound(String),
    /// The given path exists but is not a git repository.
    NotAGitRepository(String),
    /// The named branch does not exist (any more).
    BranchNotFound(String),
    /// The branch is protected by an exact name or a glob pattern.
    /// `matched_by_glob` only changes the message, not the error kind.
    BranchProtected { name: String, matched_by_glob: bool },
    /// The branch is checked out and so cannot be deleted.
    CurrentBranchCannotBeDeleted(String),
    /// The branch tip is not an ancestor of the trunk tip.
    BranchNotMerged(String),
    /// Malformed configuration, including an invalid regular expression.
    ConfigError(String),
    /// A file could not be accessed.
    PermissionDenied(String),
    /// Any other error of the underlying git library, message preserved.
    UnderlyingGitError(String),
}

/// The characters of the user-legible message of each error.
pub open spec fn spec_message(e: GitTidyError) -> Seq<char> {
    match e {
        GitTidyError::RepositoryNotFound(p) => "Git repository not found at "@ + p@
            + ". Run this command inside a git repository."@,
        GitTidyError::NotAGitRepository(p) => p@ + " is not a git repository."@,
        GitTidyError::BranchNotFound(n) => "Branch '"@ + n@ + "' not found."@,
        GitTidyError::BranchProtected { name, matched_by_glob } => if matched_by_glob {
            "Branch '"@ + name@
                + "' is protected by a glob pattern and cannot be deleted. Update your config if you want to delete it."@
        } else {
            "Branch '"@ + name@
                + "' is protected and cannot be deleted. Update your config if you want to delete it."@
        },
        GitTidyError::CurrentBranchCannotBeDeleted(n) => "Cannot delete current branch '"@ + n@
            + "'. Switch to another branch first."@,
        GitTidyError::BranchNotMerged(n) => "Branch '"@ + n@
            + "' is not merged. Refusing to delete unmerged branch. Use 'git branch -D "@ + n@
            + "' if you really want to delete it."@,
        GitTidyError::ConfigError(m) => "Configuration error: "@ + m@,
        GitTidyError::PermissionDenied(p) => "Permission denied accessing "@ + p@
            + ". Check file permissions."@,
        GitTidyError::UnderlyingGitError(m) => "Git error: "@ + m@,
    }
}

/// Guard failures are expected outcomes of the deletion engine, as opposed
/// to configuration or repository failures.
pub open spec fn spec_is_guard_failure(e: GitTidyError) -> bool {
    match e {
        GitTidyError::BranchProtected { .. } => true,
        GitTidyError::CurrentBranchCannotBeDeleted(_) => true,
        GitTidyError::BranchNotMerged(_) => true,
        _ => false,
    }
}

impl GitTidyError {
    /// The user-legible message; rendering (color, symbols) is left to callers.
    pub fn message(&self) -> (r: String)
        ensures
            r@ == spec_message(*self),
    {
        match self {
            GitTidyError::RepositoryNotFound(p) => String::from_str(
                "Git repository not found at ",
            ).concat(p.as_str()).concat(". Run this command inside a git repository."),
            GitTidyError::NotAGitRepository(p) => String::from_str(p.as_str()).concat(
                " is not a git repository.",
            ),
            GitTidyError::BranchNotFound(n) => String::from_str("Branch '").concat(n.as_str())
                .concat("' not found."),
            GitTidyError::BranchProtected { name, matched_by_glob } => if *matched_by_glob {
                String::from_str("Branch '").concat(name.as_str()).concat(
                    "' is protected by a glob pattern and cannot be deleted. Update your config if you want to delete it.",
                )
            } else {
                String::from_str("Branch '").concat(name.as_str()).concat(
                    "' is protected and cannot be deleted. Update your config if you want to delete it.",
                )
            },
            GitTidyError::CurrentBranchCannotBeDeleted(n) => String::from_str(
                "Cannot delete current branch '",
            ).concat(n.as_str()).concat("'. Switch to another branch first."),
            GitTidyError::BranchNotMerged(n) => String::from_str("Branch '").concat(n.as_str())
                .concat("' is not merged. Refusing to delete unmerged branch. Use 'git branch -D ")
                .concat(n.as_str()).concat("' if you really want to delete it."),
            GitTidyError::ConfigError(m) => String::from_str("Configuration error: ").concat(
                m.as_str(),
            ),
            GitTidyError::PermissionDenied(p) => String::from_str("Permission denied accessing ")
                .concat(p.as_str()).concat(". Check file permissions."),
            GitTidyError::UnderlyingGitError(m) => String::from_str("Git error: ").concat(
                m.as_str(),
            ),
        }
    }

    /// Whether this error is an expected guard outcome rather than an
    /// infrastructure failure.
    pub fn is_guard_failure(&self) -> (r: bool)
        ensures
            r == spec_is_guard_failure(*self),
    {
        match self {
            GitTidyError::BranchProtected { .. } => true,
            GitTidyError::CurrentBranchCannotBeDeleted(_) => true,
            GitTidyError::BranchNotMerged(_) => true,
            _ => false,
        }
    }
}

} // verus!

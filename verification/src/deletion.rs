//! The deletion guards: the checks re-validated immediately before each
//! branch ref is deleted.

use vstd::prelude::*;

use crate::config::{spec_any_glob, spec_protected_names, Config};
use crate::error::GitTidyError;
use crate::policy::spec_is_current;
use crate::strutil::{contains_name, seq_contains_str};

verus! {

/// The guards pass exactly when the branch is not checked out, not
/// protected by exact name or glob, and merged into the trunk.
pub open spec fn spec_guards_pass(
    name: Seq<char>,
    c: Config,
    current: Option<Seq<char>>,
    is_merged: bool,
) -> bool {
    &&& !spec_is_current(current, name)
    &&& !seq_contains_str(spec_protected_names(c), name)
    &&& !spec_any_glob(spec_protected_names(c), name)
    &&& is_merged
}

/// Check the fixed guard order of the deletion executor on one branch:
/// current branch first, then exact-name protection, then glob
/// protection, then merge safety. Each failure yields its own error kind
/// (the two protection guards share a kind and differ in the message).
/// The check reads its inputs and mutates nothing.
pub fn check_deletion_guards(
    branch_name: &str,
    config: &Config,
    current_branch: &Option<String>,
    is_merged: bool,
) -> (r: Result<(), GitTidyError>)
    ensures
        r is Ok <==> spec_guards_pass(
            branch_name@,
            *config,
            current_branch.deep_view(),
            is_merged,
        ),
        spec_is_current(current_branch.deep_view(), branch_name@) ==> (r matches Err(e)
            && e matches GitTidyError::CurrentBranchCannotBeDeleted(n) && n@ == branch_name@),
        !spec_is_current(current_branch.deep_view(), branch_name@) && seq_contains_str(
            spec_protected_names(*config),
            branch_name@,
        ) ==> (r matches Err(e) && e matches GitTidyError::BranchProtected {
            name: n,
            matched_by_glob,
        } && n@ == branch_name@ && !matched_by_glob),
        !spec_is_current(current_branch.deep_view(), branch_name@) && !seq_contains_str(
            spec_protected_names(*config),
            branch_name@,
        ) && spec_any_glob(spec_protected_names(*config), branch_name@) ==> (r matches Err(e)
            && e matches GitTidyError::BranchProtected {
            name: n,
            matched_by_glob,
        } && n@ == branch_name@ && matched_by_glob),
        !spec_is_current(current_branch.deep_view(), branch_name@) && !seq_contains_str(
            spec_protected_names(*config),
            branch_name@,
        ) && !spec_any_glob(spec_protected_names(*config), branch_name@) && !is_merged ==> (
        r matches Err(e) && e matches GitTidyError::BranchNotMerged(n) && n@ == branch_name@),
{
    let is_current = match current_branch {
        Some(c) => crate::strutil::string_eq_str(c, branch_name),
        None => false,
    };
    if is_current {
        return Err(GitTidyError::CurrentBranchCannotBeDeleted(branch_name.to_owned()));
    }
    let names = config.get_protected_branches();
    if contains_name(&names, branch_name) {
        return Err(
            GitTidyError::BranchProtected {
                name: branch_name.to_owned(),
                matched_by_glob: false,
            },
        );
    }
    if config.is_protected(branch_name) {
        return Err(
            GitTidyError::BranchProtected { name: branch_name.to_owned(), matched_by_glob: true },
        );
    }
    if !is_merged {
        return Err(GitTidyError::BranchNotMerged(branch_name.to_owned()));
    }
    Ok(())
}

/// A dry guard check holds no hidden state: its verdict is a function of
/// the snapshot alone, so checking the same unprotected, merged,
/// non-current branch twice passes both times.
pub proof fn lemma_guard_check_idempotent(
    r1: Result<(), GitTidyError>,
    r2: Result<(), GitTidyError>,
    name: Seq<char>,
    c: Config,
    current: Option<Seq<char>>,
    is_merged: bool,
)
    requires
        (r1 is Ok) == spec_guards_pass(name, c, current, is_merged),
        (r2 is Ok) == spec_guards_pass(name, c, current, is_merged),
        spec_guards_pass(name, c, current, is_merged),
    ensures
        r1 is Ok,
        r2 is Ok,
{
}

} // verus!

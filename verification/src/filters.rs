//! Filters over a branch list: merge status, age, name pattern, and the
//! protection re-check applied just before deletion.

use vstd::prelude::*;

use crate::branches::BranchInfo;
use crate::error::GitTidyError;
use crate::pattern::{regex_is_match, regex_is_valid, regex_match, regex_valid};
use crate::policy::spec_is_current;
use crate::strutil::{contains_name, seq_contains_str, string_eq_str};

verus! {

/// The branches that survive the merge-status filter: all of them unless
/// `merged_only` is set, then only the merged ones.
pub open spec fn spec_filter_merge(s: Seq<BranchInfo>, merged_only: bool) -> Seq<BranchInfo>
    decreases s.len(),
{
    if s.len() == 0 {
        Seq::empty()
    } else {
        let rest = spec_filter_merge(s.drop_last(), merged_only);
        if !merged_only || s.last().is_merged {
            rest.push(s.last())
        } else {
            rest
        }
    }
}

/// The branches whose tip is at or before the cutoff instant.
pub open spec fn spec_filter_age(s: Seq<BranchInfo>, cutoff: int) -> Seq<BranchInfo>
    decreases s.len(),
{
    if s.len() == 0 {
        Seq::empty()
    } else {
        let rest = spec_filter_age(s.drop_last(), cutoff);
        if s.last().last_commit_date <= cutoff {
            rest.push(s.last())
        } else {
            rest
        }
    }
}

/// The branches whose name the pattern regex-matches.
pub open spec fn spec_filter_pattern(s: Seq<BranchInfo>, pattern: Seq<char>) -> Seq<BranchInfo>
    decreases s.len(),
{
    if s.len() == 0 {
        Seq::empty()
    } else {
        let rest = spec_filter_pattern(s.drop_last(), pattern);
        if regex_match(pattern, s.last().name@) {
            rest.push(s.last())
        } else {
            rest
        }
    }
}

/// The branches that are neither in the protected-name list nor currently
/// checked out.
pub open spec fn spec_filter_unprotected(
    s: Seq<BranchInfo>,
    names: Seq<Seq<char>>,
    current: Option<Seq<char>>,
) -> Seq<BranchInfo>
    decreases s.len(),
{
    if s.len() == 0 {
        Seq::empty()
    } else {
        let rest = spec_filter_unprotected(s.drop_last(), names, current);
        if !seq_contains_str(names, s.last().name@) && !spec_is_current(
            current,
            s.last().name@,
        ) {
            rest.push(s.last())
        } else {
            rest
        }
    }
}

/// Keep every branch, or only the merged ones when `merged_only` is set.
pub fn filter_by_merge_status(branches: &Vec<BranchInfo>, merged_only: bool) -> (r: Vec<
    BranchInfo,
>)
    ensures
        r@ == spec_filter_merge(branches@, merged_only),
{
    let mut out: Vec<BranchInfo> = Vec::new();
    let mut i: usize = 0;
    while i < branches.len()
        invariant
            0 <= i <= branches.len(),
            out@ =~= spec_filter_merge(branches@.take(i as int), merged_only),
        decreases branches.len() - i,
    {
        let ghost next = branches@.take(i + 1);
        assert(next.drop_last() =~= branches@.take(i as int));
        assert(next.last() == branches@[i as int]);
        if !merged_only || branches[i].is_merged {
            out.push(branches[i].clone());
        }
        assert(out@ =~= spec_filter_merge(branches@.take(i + 1), merged_only));
        i = i + 1;
    }
    assert(branches@.take(branches.len() as int) =~= branches@);
    out
}

/// Keep the branches whose last commit lies at least `older_than` seconds
/// before `now`: the cutoff is inclusive, a branch exactly `older_than`
/// old is kept.
pub fn filter_by_age(branches: &Vec<BranchInfo>, older_than: i64, now: i64) -> (r: Vec<
    BranchInfo,
>)
    requires
        i64::MIN <= now - older_than <= i64::MAX,
    ensures
        r@ == spec_filter_age(branches@, now - older_than),
{
    let cutoff: i64 = now - older_than;
    let mut out: Vec<BranchInfo> = Vec::new();
    let mut i: usize = 0;
    while i < branches.len()
        invariant
            0 <= i <= branches.len(),
            cutoff == now - older_than,
            out@ =~= spec_filter_age(branches@.take(i as int), cutoff as int),
        decreases branches.len() - i,
    {
        let ghost next = branches@.take(i + 1);
        assert(next.drop_last() =~= branches@.take(i as int));
        assert(next.last() == branches@[i as int]);
        if branches[i].last_commit_date <= cutoff {
            out.push(branches[i].clone());
        }
        assert(out@ =~= spec_filter_age(branches@.take(i + 1), cutoff as int));
        i = i + 1;
    }
    assert(branches@.take(branches.len() as int) =~= branches@);
    out
}

/// Keep the branches whose name the pattern matches; an invalid pattern
/// is a configuration error.
pub fn filter_by_pattern(branches: &Vec<BranchInfo>, pattern: &str) -> (r: Result<
    Vec<BranchInfo>,
    GitTidyError,
>)
    ensures
        r is Ok <==> regex_valid(pattern@),
        r matches Ok(v) ==> v@ == spec_filter_pattern(branches@, pattern@),
        r matches Err(e) ==> (e matches GitTidyError::ConfigError(m) && m@ == "Invalid regex '"@
            + pattern@ + "'"@),
{
    if !regex_is_valid(pattern) {
        return Err(
            GitTidyError::ConfigError(
                String::from_str("Invalid regex '").concat(pattern).concat("'"),
            ),
        );
    }
    let mut out: Vec<BranchInfo> = Vec::new();
    let mut i: usize = 0;
    while i < branches.len()
        invariant
            0 <= i <= branches.len(),
            regex_valid(pattern@),
            out@ =~= spec_filter_pattern(branches@.take(i as int), pattern@),
        decreases branches.len() - i,
    {
        let ghost next = branches@.take(i + 1);
        assert(next.drop_last() =~= branches@.take(i as int));
        assert(next.last() == branches@[i as int]);
        if regex_is_match(pattern, branches[i].name.as_str()) {
            out.push(branches[i].clone());
        }
        assert(out@ =~= spec_filter_pattern(branches@.take(i + 1), pattern@));
        i = i + 1;
    }
    assert(branches@.take(branches.len() as int) =~= branches@);
    Ok(out)
}

/// Keep the branches that are neither listed as protected names nor the
/// current branch: the last line of defence before a deletion batch.
pub fn filter_out_protected(
    branches: &Vec<BranchInfo>,
    protected_branches: &Vec<String>,
    current_branch: &Option<String>,
) -> (r: Vec<BranchInfo>)
    ensures
        r@ == spec_filter_unprotected(
            branches@,
            protected_branches.deep_view(),
            current_branch.deep_view(),
        ),
{
    let ghost names = protected_branches.deep_view();
    let ghost cur = current_branch.deep_view();
    let mut out: Vec<BranchInfo> = Vec::new();
    let mut i: usize = 0;
    while i < branches.len()
        invariant
            0 <= i <= branches.len(),
            names == protected_branches.deep_view(),
            cur == current_branch.deep_view(),
            out@ =~= spec_filter_unprotected(branches@.take(i as int), names, cur),
        decreases branches.len() - i,
    {
        let ghost next = branches@.take(i + 1);
        assert(next.drop_last() =~= branches@.take(i as int));
        assert(next.last() == branches@[i as int]);
        let listed = contains_name(protected_branches, branches[i].name.as_str());
        let is_current = match current_branch {
            Some(c) => string_eq_str(c, branches[i].name.as_str()),
            None => false,
        };
        if !listed && !is_current {
            out.push(branches[i].clone());
        }
        assert(out@ =~= spec_filter_unprotected(branches@.take(i + 1), names, cur));
        i = i + 1;
    }
    assert(branches@.take(branches.len() as int) =~= branches@);
    out
}

} // verus!

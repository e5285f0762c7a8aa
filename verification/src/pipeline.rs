//! The filter pipeline: partition a branch snapshot into the deletion
//! list, the kept-with-reasons list, and the protected list.

use vstd::prelude::*;

use crate::branches::BranchInfo;
use crate::config::Config;
use crate::error::GitTidyError;
use crate::filters::{filter_out_protected, spec_filter_unprotected};
use crate::policy::{build_policy, policy_wf, spec_is_current, spec_policy_buildable,
    spec_policy_of, spec_protects, spec_reason, PolicyView, ProtectionPolicy, ProtectionReason};
use crate::strutil::seq_contains_str;

verus! {

/// A branch kept back by the filters, with every reason that applies.
pub struct KeptBranch {
    pub branch: BranchInfo,
    /// Only merged branches were asked for and this one is not merged.
    pub not_merged: bool,
    /// An age threshold was given and this branch is younger.
    pub too_new: bool,
}

/// A protected branch with the highest-precedence reason it is protected.
pub struct ProtectedBranch {
    pub branch: BranchInfo,
    pub reason: ProtectionReason,
}

/// The outcome of the filter pipeline on one snapshot.
pub struct Partition {
    /// Unprotected branches that passed every filter, in snapshot order.
    pub to_delete: Vec<BranchInfo>,
    /// Unprotected branches held back by a filter, with their reasons.
    pub kept: Vec<KeptBranch>,
    /// Protected branches, with their protection reasons.
    pub protected: Vec<ProtectedBranch>,
}

/// The merge filter excludes the branch: only merged branches were asked
/// for and this one is not merged.
pub open spec fn spec_excluded_not_merged(b: BranchInfo, merged_only: bool) -> bool {
    merged_only && !b.is_merged
}

/// The age filter excludes the branch: a threshold was given and the last
/// commit is younger than it. The boundary is inclusive: a branch exactly
/// `older_than` seconds old stays eligible.
pub open spec fn spec_excluded_too_new(b: BranchInfo, older_than: Option<i64>, now: i64) -> bool {
    match older_than {
        Some(t) => b.last_commit_date > now - t,
        None => false,
    }
}

/// The branch is unprotected and passes every active filter.
pub open spec fn spec_deletable(
    b: BranchInfo,
    pv: PolicyView,
    current: Option<Seq<char>>,
    merged_only: bool,
    older_than: Option<i64>,
    now: int,
) -> bool {
    &&& !spec_protects(pv, current, b.name@)
    &&& !spec_excluded_not_merged(b, merged_only)
    &&& !spec_excluded_too_new(b, older_than, now as i64)
}

/// The deletion list: the deletable branches, in order.
pub open spec fn spec_to_delete(
    s: Seq<BranchInfo>,
    pv: PolicyView,
    current: Option<Seq<char>>,
    merged_only: bool,
    older_than: Option<i64>,
    now: i64,
) -> Seq<BranchInfo>
    decreases s.len(),
{
    if s.len() == 0 {
        Seq::empty()
    } else {
        let rest = spec_to_delete(s.drop_last(), pv, current, merged_only, older_than, now);
        if spec_deletable(s.last(), pv, current, merged_only, older_than, now as int) {
            rest.push(s.last())
        } else {
            rest
        }
    }
}

/// The kept list: unprotected branches excluded by some filter, each with
/// every reason that applies.
pub open spec fn spec_kept(
    s: Seq<BranchInfo>,
    pv: PolicyView,
    current: Option<Seq<char>>,
    merged_only: bool,
    older_than: Option<i64>,
    now: i64,
) -> Seq<KeptBranch>
    decreases s.len(),
{
    if s.len() == 0 {
        Seq::empty()
    } else {
        let rest = spec_kept(s.drop_last(), pv, current, merged_only, older_than, now);
        let b = s.last();
        let nm = spec_excluded_not_merged(b, merged_only);
        let tn = spec_excluded_too_new(b, older_than, now);
        if !spec_protects(pv, current, b.name@) && (nm || tn) {
            rest.push(KeptBranch { branch: b, not_merged: nm, too_new: tn })
        } else {
            rest
        }
    }
}

/// The protected list, with the reported reason of each branch.
pub open spec fn spec_protected_list(
    s: Seq<BranchInfo>,
    pv: PolicyView,
    current: Option<Seq<char>>,
) -> Seq<ProtectedBranch>
    decreases s.len(),
{
    if s.len() == 0 {
        Seq::empty()
    } else {
        let rest = spec_protected_list(s.drop_last(), pv, current);
        let b = s.last();
        match spec_reason(pv, current, b.name@) {
            Some(reason) => rest.push(ProtectedBranch { branch: b, reason }),
            None => rest,
        }
    }
}

/// Every branch of the deletion list is deletable.
proof fn lemma_to_delete_elements(
    s: Seq<BranchInfo>,
    pv: PolicyView,
    current: Option<Seq<char>>,
    merged_only: bool,
    older_than: Option<i64>,
    now: i64,
)
    ensures
        forall|i: int|
            0 <= i < spec_to_delete(s, pv, current, merged_only, older_than, now).len()
                ==> spec_deletable(
                #[trigger] spec_to_delete(s, pv, current, merged_only, older_than, now)[i],
                pv,
                current,
                merged_only,
                older_than,
                now as int,
            ),
    decreases s.len(),
{
    if s.len() > 0 {
        lemma_to_delete_elements(s.drop_last(), pv, current, merged_only, older_than, now);
        let rest = spec_to_delete(s.drop_last(), pv, current, merged_only, older_than, now);
        let full = spec_to_delete(s, pv, current, merged_only, older_than, now);
        assert forall|i: int| 0 <= i < full.len() implies spec_deletable(
            full[i],
            pv,
            current,
            merged_only,
            older_than,
            now as int,
        ) by {
            if spec_deletable(s.last(), pv, current, merged_only, older_than, now as int) {
                assert(full == rest.push(s.last()));
                if i < rest.len() {
                    assert(full[i] == rest[i]);
                } else {
                    assert(full[i] == s.last());
                }
            } else {
                assert(full == rest);
            }
        }
    }
}

/// Filtering out protected names removes nothing from a list whose every
/// element is unprotected and not current.
proof fn lemma_filter_unprotected_identity(
    s: Seq<BranchInfo>,
    names: Seq<Seq<char>>,
    current: Option<Seq<char>>,
)
    requires
        forall|i: int|
            0 <= i < s.len() ==> !seq_contains_str(names, (#[trigger] s[i]).name@)
                && !spec_is_current(current, s[i].name@),
    ensures
        spec_filter_unprotected(s, names, current) == s,
    decreases s.len(),
{
    if s.len() > 0 {
        let d = s.drop_last();
        assert(forall|i: int| 0 <= i < d.len() ==> d[i] == s[i]);
        lemma_filter_unprotected_identity(d, names, current);
        assert(s[s.len() - 1] == s.last());
        assert(spec_filter_unprotected(s, names, current) =~= s);
    } else {
        assert(spec_filter_unprotected(s, names, current) =~= s);
    }
}

/// Partition a snapshot: protected branches are set aside with their
/// reasons; the rest pass through the merge-status and age filters, and a
/// branch excluded by both carries both reasons; what remains is the
/// deletion list, re-checked once more against the exact names and the
/// current branch before it is returned.
pub fn partition_branches(
    branches: &Vec<BranchInfo>,
    policy: &ProtectionPolicy,
    current_branch: &Option<String>,
    merged_only: bool,
    older_than: Option<i64>,
    now: i64,
) -> (r: Partition)
    requires
        policy.wf(),
        match older_than {
            Some(t) => i64::MIN <= now - t <= i64::MAX,
            None => true,
        },
    ensures
        r.to_delete@ == spec_to_delete(
            branches@,
            policy@,
            current_branch.deep_view(),
            merged_only,
            older_than,
            now,
        ),
        r.kept@ == spec_kept(
            branches@,
            policy@,
            current_branch.deep_view(),
            merged_only,
            older_than,
            now,
        ),
        r.protected@ == spec_protected_list(branches@, policy@, current_branch.deep_view()),
{
    let ghost pv = policy@;
    let ghost cur = current_branch.deep_view();
    let mut to_delete: Vec<BranchInfo> = Vec::new();
    let mut kept: Vec<KeptBranch> = Vec::new();
    let mut protected: Vec<ProtectedBranch> = Vec::new();
    let mut i: usize = 0;
    while i < branches.len()
        invariant
            0 <= i <= branches.len(),
            policy.wf(),
            pv == policy@,
            cur == current_branch.deep_view(),
            match older_than {
                Some(t) => i64::MIN <= now - t <= i64::MAX,
                None => true,
            },
            to_delete@ =~= spec_to_delete(
                branches@.take(i as int),
                pv,
                cur,
                merged_only,
                older_than,
                now,
            ),
            kept@ =~= spec_kept(branches@.take(i as int), pv, cur, merged_only, older_than, now),
            protected@ =~= spec_protected_list(branches@.take(i as int), pv, cur),
        decreases branches.len() - i,
    {
        let ghost next = branches@.take(i + 1);
        assert(next.drop_last() =~= branches@.take(i as int));
        assert(next.last() == branches@[i as int]);
        let b = &branches[i];
        match policy.reason(current_branch, b.name.as_str()) {
            Some(reason) => {
                protected.push(ProtectedBranch { branch: b.clone(), reason });
            },
            None => {
                let not_merged = merged_only && !b.is_merged;
                let too_new = match older_than {
                    Some(t) => b.last_commit_date > now - t,
                    None => false,
                };
                if not_merged || too_new {
                    kept.push(KeptBranch { branch: b.clone(), not_merged, too_new });
                } else {
                    to_delete.push(b.clone());
                }
            },
        }
        assert(to_delete@ =~= spec_to_delete(
            branches@.take(i + 1),
            pv,
            cur,
            merged_only,
            older_than,
            now,
        ));
        assert(kept@ =~= spec_kept(branches@.take(i + 1), pv, cur, merged_only, older_than, now));
        assert(protected@ =~= spec_protected_list(branches@.take(i + 1), pv, cur));
        i = i + 1;
    }
    assert(branches@.take(branches.len() as int) =~= branches@);
    proof {
        lemma_to_delete_elements(branches@, pv, cur, merged_only, older_than, now);
        lemma_filter_unprotected_identity(
            spec_to_delete(branches@, pv, cur, merged_only, older_than, now),
            pv.exact_names,
            cur,
        );
    }
    let to_delete = filter_out_protected(&to_delete, &policy.exact_names, current_branch);
    Partition { to_delete, kept, protected }
}

/// Plan one run: resolve the protection policy from the configuration and
/// the optional ad-hoc keep pattern, then partition the snapshot. An
/// invalid pattern is reported before any branch is looked at.
pub fn plan(
    config: &Config,
    keep_pattern: Option<&str>,
    branches: &Vec<BranchInfo>,
    current_branch: &Option<String>,
    merged_only: bool,
    older_than: Option<i64>,
    now: i64,
) -> (r: Result<Partition, GitTidyError>)
    requires
        match older_than {
            Some(t) => i64::MIN <= now - t <= i64::MAX,
            None => true,
        },
    ensures
        r is Ok <==> spec_policy_buildable(
            *config,
            match keep_pattern {
                Some(k) => Some(k@),
                None => None,
            },
        ),
        r matches Ok(part) ==> ({
            let pv = spec_policy_of(
                *config,
                match keep_pattern {
                    Some(k) => Some(k@),
                    None => None,
                },
            );
            &&& part.to_delete@ == spec_to_delete(
                branches@,
                pv,
                current_branch.deep_view(),
                merged_only,
                older_than,
                now,
            )
            &&& part.kept@ == spec_kept(
                branches@,
                pv,
                current_branch.deep_view(),
                merged_only,
                older_than,
                now,
            )
            &&& part.protected@ == spec_protected_list(
                branches@,
                pv,
                current_branch.deep_view(),
            )
        }),
        r matches Err(e) ==> e matches GitTidyError::ConfigError(_),
{
    let policy = match build_policy(config, keep_pattern) {
        Ok(p) => p,
        Err(e) => {
            return Err(e);
        },
    };
    Ok(partition_branches(branches, &policy, current_branch, merged_only, older_than, now))
}

/// Whether one branch is protected under the given configuration, ad-hoc
/// keep pattern and current branch; an invalid pattern is a configuration
/// error.
pub fn is_branch_protected(
    config: &Config,
    keep_pattern: Option<&str>,
    current_branch: &Option<String>,
    branch_name: &str,
) -> (r: Result<bool, GitTidyError>)
    ensures
        r is Ok <==> spec_policy_buildable(
            *config,
            match keep_pattern {
                Some(k) => Some(k@),
                None => None,
            },
        ),
        r matches Ok(b) ==> b == spec_protects(
            spec_policy_of(
                *config,
                match keep_pattern {
                    Some(k) => Some(k@),
                    None => None,
                },
            ),
            current_branch.deep_view(),
            branch_name@,
        ),
        r matches Err(e) ==> e matches GitTidyError::ConfigError(_),
{
    let policy = match build_policy(config, keep_pattern) {
        Ok(p) => p,
        Err(e) => {
            return Err(e);
        },
    };
    Ok(policy.is_protected(current_branch, branch_name))
}

} // verus!

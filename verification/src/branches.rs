//! Branch records, their presentation order, and trunk resolution.

use vstd::prelude::*;
use vstd::seq_lib::group_to_multiset_ensures;

use crate::strutil::string_eq_str;

verus! {

/// One local branch: its short name, whether its tip is an ancestor of the
/// trunk tip, and the commit timestamp of its tip in seconds since the
/// Unix epoch (UTC).
#[derive(Debug)]
pub struct BranchInfo {
    pub name: String,
    pub is_merged: bool,
    pub last_commit_date: i64,
    pub is_remote: bool,
}

impl Clone for BranchInfo {
    fn clone(&self) -> (r: Self)
        ensures
            r == *self,
    {
        BranchInfo {
            name: self.name.clone(),
            is_merged: self.is_merged,
            last_commit_date: self.last_commit_date,
            is_remote: self.is_remote,
        }
    }
}

/// The names of the branches, in order.
pub open spec fn branch_names(s: Seq<BranchInfo>) -> Seq<Seq<char>> {
    Seq::new(s.len(), |i: int| s[i].name@)
}

/// Most recently active first.
pub open spec fn sorted_desc(s: Seq<BranchInfo>) -> bool {
    forall|i: int, j: int|
        0 <= i < j < s.len() ==> s[i].last_commit_date >= s[j].last_commit_date
}

/// Inserting anywhere adds exactly one occurrence to the multiset.
proof fn lemma_insert_to_multiset(s: Seq<BranchInfo>, p: int, x: BranchInfo)
    requires
        0 <= p <= s.len(),
    ensures
        s.insert(p, x).to_multiset() =~= s.to_multiset().insert(x),
{
    broadcast use group_to_multiset_ensures;

    let t = s.insert(p, x);
    assert(t[p] == x);
    assert(t.remove(p) =~= s);
    assert(s.to_multiset() =~= t.to_multiset().remove(x));
    assert(t.to_multiset().count(x) > 0);
}

/// Order the branches by their tip timestamp, most recent first. The
/// result holds exactly the given records.
pub fn sort_branches_by_recency(branches: &Vec<BranchInfo>) -> (r: Vec<BranchInfo>)
    ensures
        sorted_desc(r@),
        r@.to_multiset() == branches@.to_multiset(),
{
    broadcast use group_to_multiset_ensures;

    let mut out: Vec<BranchInfo> = Vec::new();
    let mut i: usize = 0;
    while i < branches.len()
        invariant
            0 <= i <= branches.len(),
            sorted_desc(out@),
            out@.to_multiset() == branches@.take(i as int).to_multiset(),
        decreases branches.len() - i,
    {
        broadcast use group_to_multiset_ensures;

        let b = branches[i].clone();
        let mut p: usize = 0;
        while p < out.len() && !(out[p].last_commit_date < b.last_commit_date)
            invariant
                0 <= p <= out.len(),
                forall|k: int| 0 <= k < p ==> out@[k].last_commit_date >= b.last_commit_date,
            decreases out.len() - p,
        {
            p = p + 1;
        }
        let ghost before = out@;
        out.insert(p, b);
        proof {
            lemma_insert_to_multiset(before, p as int, b);
            assert(branches@.take(i + 1).drop_last() =~= branches@.take(i as int));
            assert(branches@.take(i + 1) =~= branches@.take(i as int).push(branches@[i as int]));
            assert(out@.to_multiset() =~= branches@.take(i + 1).to_multiset());
            assert forall|x: int, y: int| 0 <= x < y < out@.len() implies out@[x].last_commit_date
                >= out@[y].last_commit_date by {
                if p < before.len() {
                    assert(before[p as int].last_commit_date < b.last_commit_date);
                }
            }
        }
        i = i + 1;
    }
    assert(branches@.take(branches.len() as int) =~= branches@);
    out
}

/// Prefer a local branch named `main`; fall back to `master`; a repository
/// with neither has no trunk.
pub fn resolve_trunk(branches: &Vec<BranchInfo>) -> (r: Option<String>)
    ensures
        crate::strutil::seq_contains_str(branch_names(branches@), "main"@) ==> (r matches Some(t)
            && t@ == "main"@),
        !crate::strutil::seq_contains_str(branch_names(branches@), "main"@)
            && crate::strutil::seq_contains_str(branch_names(branches@), "master"@) ==> (r matches
        Some(t) && t@ == "master"@),
        !crate::strutil::seq_contains_str(branch_names(branches@), "main"@)
            && !crate::strutil::seq_contains_str(branch_names(branches@), "master"@) ==> r is None,
{
    let ghost names = branch_names(branches@);
    let mut has_main = false;
    let mut has_master = false;
    let mut i: usize = 0;
    while i < branches.len()
        invariant
            0 <= i <= branches.len(),
            names == branch_names(branches@),
            has_main == exists|k: int| 0 <= k < i && names[k] == "main"@,
            has_master == exists|k: int| 0 <= k < i && names[k] == "master"@,
        decreases branches.len() - i,
    {
        assert(names[i as int] == branches@[i as int].name@);
        if string_eq_str(&branches[i].name, "main") {
            has_main = true;
        }
        if string_eq_str(&branches[i].name, "master") {
            has_master = true;
        }
        i = i + 1;
    }
    if has_main {
        Some("main".to_owned())
    } else if has_master {
        Some("master".to_owned())
    } else {
        None
    }
}

/// The bucket a branch age falls in for display, with the count shown.
#[derive(Clone, Copy, Debug, PartialEq, Eq, Structural)]
pub enum AgeBucket {
    Minutes(u64),
    Hours(u64),
    Days(u64),
    Months(u64),
    Years(u64),
}

/// The display bucket of an age: whole days if under a month, else whole
/// months of thirty days, else whole years of 365 days; under a day,
/// whole hours, and under an hour, whole minutes.
pub open spec fn spec_age_bucket(secs: int) -> AgeBucket {
    let days = secs / 86400;
    if days == 0 {
        let hours = secs / 3600;
        if hours == 0 {
            AgeBucket::Minutes((secs / 60) as u64)
        } else {
            AgeBucket::Hours(hours as u64)
        }
    } else if days < 30 {
        AgeBucket::Days(days as u64)
    } else if days < 365 {
        AgeBucket::Months((days / 30) as u64)
    } else {
        AgeBucket::Years((days / 365) as u64)
    }
}

/// Classify the age of a tip committed at `then`, seen at `now`, for
/// display.
pub fn classify_age(now: i64, then: i64) -> (r: AgeBucket)
    requires
        then <= now,
        now - then <= i64::MAX,
    ensures
        r == spec_age_bucket(now - then),
{
    let secs: u64 = (now - then) as u64;
    let days = secs / 86400;
    if days == 0 {
        let hours = secs / 3600;
        if hours == 0 {
            AgeBucket::Minutes(secs / 60)
        } else {
            AgeBucket::Hours(hours)
        }
    } else if days < 30 {
        AgeBucket::Days(days)
    } else if days < 365 {
        AgeBucket::Months(days / 30)
    } else {
        AgeBucket::Years(days / 365)
    }
}

/// A branch counts as merged only when a trunk exists and the branch tip
/// is an ancestor of the trunk tip; without a trunk nothing can be shown
/// merged, so the answer is conservatively `false`.
pub fn merge_status(trunk: &Option<String>, tip_is_ancestor_of_trunk: bool) -> (r: bool)
    ensures
        r == (trunk is Some && tip_is_ancestor_of_trunk),
{
    match trunk {
        Some(_) => tip_is_ancestor_of_trunk,
        None => false,
    }
}

} // verus!

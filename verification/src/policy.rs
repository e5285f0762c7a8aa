//! The resolved protection policy and the protection resolver.
//!
//! One configured list serves two roles: entries holding a wildcard act as
//! glob patterns, the rest as exact names. The split is made once, when
//! the policy is built; regular expressions are validated at the same
//! time, so resolving a branch needs no further validity checks.

use vstd::prelude::*;

use crate::config::{opt_names, spec_glob_entries, spec_protected_names, Config};
use crate::error::GitTidyError;
use crate::pattern::{glob_is_match, glob_is_valid, glob_match, glob_valid, regex_is_match,
    regex_is_valid, regex_match, regex_valid};
use crate::strutil::{contains_name, contains_wildcard, has_wildcard, seq_contains_str,
    string_eq_str};

verus! {

/// Why a branch is protected, by decreasing precedence.
#[derive(Clone, Copy, Debug, PartialEq, Eq, Structural)]
pub enum ProtectionReason {
    /// The branch is currently checked out.
    Current,
    /// The ad-hoc pattern given for this invocation matches.
    CliPattern,
    /// A configured regular expression matches.
    RegexPattern,
    /// A wildcard-bearing configured entry glob-matches.
    GlobPattern,
    /// The exact-name list contains the branch.
    Protected,
}

/// The resolved, immutable protection policy of one run.
pub struct ProtectionPolicy {
    /// Entries compared literally.
    pub exact_names: Vec<String>,
    /// Wildcard-bearing entries, each a valid glob pattern.
    pub glob_patterns: Vec<String>,
    /// Configured regular expressions, each valid.
    pub regex_patterns: Vec<String>,
    /// The optional per-invocation keep pattern, valid when present.
    pub ad_hoc_pattern: Option<String>,
}

/// The mathematical content of a policy.
pub ghost struct PolicyView {
    pub exact_names: Seq<Seq<char>>,
    pub glob_patterns: Seq<Seq<char>>,
    pub regex_patterns: Seq<Seq<char>>,
    pub ad_hoc_pattern: Option<Seq<char>>,
}

impl View for ProtectionPolicy {
    type V = PolicyView;

    open spec fn view(&self) -> PolicyView {
        PolicyView {
            exact_names: self.exact_names.deep_view(),
            glob_patterns: self.glob_patterns.deep_view(),
            regex_patterns: self.regex_patterns.deep_view(),
            ad_hoc_pattern: self.ad_hoc_pattern.deep_view(),
        }
    }
}

/// Every stored pattern is valid, and glob entries carry a wildcard.
pub open spec fn policy_wf(pv: PolicyView) -> bool {
    &&& forall|i: int|
        0 <= i < pv.glob_patterns.len() ==> has_wildcard(#[trigger] pv.glob_patterns[i])
            && glob_valid(pv.glob_patterns[i])
    &&& forall|i: int|
        0 <= i < pv.regex_patterns.len() ==> regex_valid(#[trigger] pv.regex_patterns[i])
    &&& match pv.ad_hoc_pattern {
        Some(q) => regex_valid(q),
        None => true,
    }
}

/// The branch name equals the currently checked-out branch name.
pub open spec fn spec_is_current(current: Option<Seq<char>>, name: Seq<char>) -> bool {
    match current {
        Some(c) => c == name,
        None => false,
    }
}

/// Some pattern of the list regex-matches the name.
pub open spec fn spec_any_regex(patterns: Seq<Seq<char>>, name: Seq<char>) -> bool {
    exists|i: int| 0 <= i < patterns.len() && regex_match(patterns[i], name)
}

/// Some pattern of the list glob-matches the name.
pub open spec fn spec_any_glob_pattern(patterns: Seq<Seq<char>>, name: Seq<char>) -> bool {
    exists|i: int| 0 <= i < patterns.len() && glob_match(patterns[i], name)
}

/// The ad-hoc pattern is present and regex-matches the name.
pub open spec fn spec_adhoc_matches(pv: PolicyView, name: Seq<char>) -> bool {
    match pv.ad_hoc_pattern {
        Some(q) => regex_match(q, name),
        None => false,
    }
}

/// Protection is a pure union: current branch, ad-hoc pattern, configured
/// regex, derived glob, or exact name — never a negation.
pub open spec fn spec_protects(pv: PolicyView, current: Option<Seq<char>>, name: Seq<char>) -> bool {
    ||| spec_is_current(current, name)
    ||| spec_adhoc_matches(pv, name)
    ||| spec_any_regex(pv.regex_patterns, name)
    ||| spec_any_glob_pattern(pv.glob_patterns, name)
    ||| seq_contains_str(pv.exact_names, name)
}

/// The reported reason follows a fixed precedence, though the result of
/// `spec_protects` is a pure union.
pub open spec fn spec_reason(pv: PolicyView, current: Option<Seq<char>>, name: Seq<char>) -> Option<
    ProtectionReason,
> {
    if spec_is_current(current, name) {
        Some(ProtectionReason::Current)
    } else if spec_adhoc_matches(pv, name) {
        Some(ProtectionReason::CliPattern)
    } else if spec_any_regex(pv.regex_patterns, name) {
        Some(ProtectionReason::RegexPattern)
    } else if spec_any_glob_pattern(pv.glob_patterns, name) {
        Some(ProtectionReason::GlobPattern)
    } else if seq_contains_str(pv.exact_names, name) {
        Some(ProtectionReason::Protected)
    } else {
        None
    }
}

/// The protected entries that are kept for literal comparison: those
/// without a wildcard, and wildcard-bearing entries that do not form a
/// valid glob pattern and so can only ever match literally.
pub open spec fn spec_exact_entries(names: Seq<Seq<char>>) -> Seq<Seq<char>>
    decreases names.len(),
{
    if names.len() == 0 {
        Seq::empty()
    } else {
        let rest = spec_exact_entries(names.drop_last());
        if has_wildcard(names.last()) && glob_valid(names.last()) {
            rest
        } else {
            rest.push(names.last())
        }
    }
}

/// The view of the policy that `build_policy` resolves from a
/// configuration and an optional ad-hoc keep pattern.
pub open spec fn spec_policy_of(c: Config, keep_pattern: Option<Seq<char>>) -> PolicyView {
    PolicyView {
        exact_names: spec_exact_entries(spec_protected_names(c)),
        glob_patterns: spec_glob_entries(spec_protected_names(c)),
        regex_patterns: opt_names(c@.patterns),
        ad_hoc_pattern: keep_pattern,
    }
}

/// The policy can be built: every configured regex is valid, and so is
/// the ad-hoc pattern when one is given.
pub open spec fn spec_policy_buildable(c: Config, keep_pattern: Option<Seq<char>>) -> bool {
    &&& forall|i: int|
        0 <= i < opt_names(c@.patterns).len() ==> regex_valid(#[trigger] opt_names(c@.patterns)[i])
    &&& match keep_pattern {
        Some(k) => regex_valid(k),
        None => true,
    }
}

impl ProtectionPolicy {
    /// Every stored pattern is valid, and glob entries carry a wildcard.
    pub open spec fn wf(self) -> bool {
        policy_wf(self@)
    }

    fn matches_current(&self, current_branch: &Option<String>, branch_name: &str) -> (r: bool)
        ensures
            r == spec_is_current(current_branch.deep_view(), branch_name@),
    {
        match current_branch {
            Some(c) => string_eq_str(c, branch_name),
            None => false,
        }
    }

    fn matches_adhoc(&self, branch_name: &str) -> (r: bool)
        requires
            self.wf(),
        ensures
            r == spec_adhoc_matches(self@, branch_name@),
    {
        match &self.ad_hoc_pattern {
            Some(p) => regex_is_match(p.as_str(), branch_name),
            None => false,
        }
    }

    fn matches_any_regex(&self, branch_name: &str) -> (r: bool)
        requires
            self.wf(),
        ensures
            r == spec_any_regex(self@.regex_patterns, branch_name@),
    {
        let ghost pats = self.regex_patterns.deep_view();
        let mut i: usize = 0;
        while i < self.regex_patterns.len()
            invariant
                0 <= i <= self.regex_patterns.len(),
                pats == self.regex_patterns.deep_view(),
                self.wf(),
                forall|k: int| 0 <= k < i ==> !regex_match(#[trigger] pats[k], branch_name@),
            decreases self.regex_patterns.len() - i,
        {
            assert(self.regex_patterns[i as int]@ == pats[i as int]);
            assert(regex_valid(self@.regex_patterns[i as int]));
            if regex_is_match(self.regex_patterns[i].as_str(), branch_name) {
                return true;
            }
            i = i + 1;
        }
        false
    }

    fn matches_any_glob(&self, branch_name: &str) -> (r: bool)
        requires
            self.wf(),
        ensures
            r == spec_any_glob_pattern(self@.glob_patterns, branch_name@),
    {
        let ghost pats = self.glob_patterns.deep_view();
        let mut i: usize = 0;
        while i < self.glob_patterns.len()
            invariant
                0 <= i <= self.glob_patterns.len(),
                pats == self.glob_patterns.deep_view(),
                self.wf(),
                forall|k: int| 0 <= k < i ==> !glob_match(#[trigger] pats[k], branch_name@),
            decreases self.glob_patterns.len() - i,
        {
            assert(self.glob_patterns[i as int]@ == pats[i as int]);
            assert(glob_valid(self@.glob_patterns[i as int]));
            if glob_is_match(self.glob_patterns[i].as_str(), branch_name) {
                return true;
            }
            i = i + 1;
        }
        false
    }

    /// Whether the branch is protected: by being current, by the ad-hoc
    /// pattern, by a configured regex, by a glob entry, or by exact name.
    pub fn is_protected(&self, current_branch: &Option<String>, branch_name: &str) -> (r: bool)
        requires
            self.wf(),
        ensures
            r == spec_protects(self@, current_branch.deep_view(), branch_name@),
    {
        if self.matches_current(current_branch, branch_name) {
            return true;
        }
        if self.matches_adhoc(branch_name) {
            return true;
        }
        if self.matches_any_regex(branch_name) {
            return true;
        }
        if self.matches_any_glob(branch_name) {
            return true;
        }
        contains_name(&self.exact_names, branch_name)
    }

    /// The highest-precedence reason the branch is protected, or `None`
    /// when it is not protected at all.
    pub fn reason(&self, current_branch: &Option<String>, branch_name: &str) -> (r: Option<
        ProtectionReason,
    >)
        requires
            self.wf(),
        ensures
            r == spec_reason(self@, current_branch.deep_view(), branch_name@),
            r is Some <==> spec_protects(self@, current_branch.deep_view(), branch_name@),
    {
        if self.matches_current(current_branch, branch_name) {
            Some(ProtectionReason::Current)
        } else if self.matches_adhoc(branch_name) {
            Some(ProtectionReason::CliPattern)
        } else if self.matches_any_regex(branch_name) {
            Some(ProtectionReason::RegexPattern)
        } else if self.matches_any_glob(branch_name) {
            Some(ProtectionReason::GlobPattern)
        } else if contains_name(&self.exact_names, branch_name) {
            Some(ProtectionReason::Protected)
        } else {
            None
        }
    }
}

/// Build the resolved policy of one run: split the configured entries
/// into exact names and glob patterns, validate every configured regular
/// expression, and validate the optional ad-hoc keep pattern. An invalid
/// regular expression is a configuration error before any branch is
/// looked at; a wildcard entry that is no valid glob stays a literal name.
pub fn build_policy(config: &Config, keep_pattern: Option<&str>) -> (r: Result<
    ProtectionPolicy,
    GitTidyError,
>)
    ensures
        r is Ok <==> spec_policy_buildable(
            *config,
            match keep_pattern {
                Some(k) => Some(k@),
                None => None,
            },
        ),
        r matches Ok(p) ==> p.wf() && p@ == spec_policy_of(
            *config,
            match keep_pattern {
                Some(k) => Some(k@),
                None => None,
            },
        ),
        r matches Err(e) ==> e matches GitTidyError::ConfigError(_),
{
    let regex_patterns = match config.get_protected_patterns() {
        Ok(v) => v,
        Err(e) => {
            return Err(e);
        },
    };
    let ad_hoc_pattern = match keep_pattern {
        Some(k) => {
            if !regex_is_valid(k) {
                return Err(
                    GitTidyError::ConfigError(
                        String::from_str("Invalid regex '").concat(k).concat("'"),
                    ),
                );
            }
            Some(k.to_owned())
        },
        None => None,
    };
    let names = config.get_protected_branches();
    let ghost dv = names.deep_view();
    let mut exact_names: Vec<String> = Vec::new();
    let mut glob_patterns: Vec<String> = Vec::new();
    let mut i: usize = 0;
    while i < names.len()
        invariant
            0 <= i <= names.len(),
            dv == names.deep_view(),
            exact_names.deep_view() =~= spec_exact_entries(dv.take(i as int)),
            glob_patterns.deep_view() =~= spec_glob_entries(dv.take(i as int)),
        decreases names.len() - i,
    {
        let ghost next = dv.take(i + 1);
        assert(next.drop_last() =~= dv.take(i as int));
        assert(next.last() == dv[i as int]);
        assert(names[i as int]@ == dv[i as int]);
        let entry = names[i].clone();
        assert(entry@ == dv[i as int]);
        if contains_wildcard(entry.as_str()) && glob_is_valid(entry.as_str()) {
            glob_patterns.push(entry);
        } else {
            exact_names.push(entry);
        }
        assert(exact_names.deep_view() =~= spec_exact_entries(dv.take(i + 1)));
        assert(glob_patterns.deep_view() =~= spec_glob_entries(dv.take(i + 1)));
        i = i + 1;
    }
    assert(dv.take(names.len() as int) =~= dv);
    proof {
        crate::config::lemma_glob_entries(dv);
    }
    Ok(ProtectionPolicy { exact_names, glob_patterns, regex_patterns, ad_hoc_pattern })
}

/// While a branch is checked out it is protected, whatever else the
/// policy holds.
pub proof fn lemma_current_branch_protected(
    pv: PolicyView,
    current: Option<Seq<char>>,
    name: Seq<char>,
)
    requires
        current == Some(name),
    ensures
        spec_protects(pv, current, name),
{
}

/// Entries without a wildcard yield no glob patterns and are all kept as
/// exact names.
pub proof fn lemma_no_wildcard_no_globs(names: Seq<Seq<char>>)
    requires
        forall|i: int| 0 <= i < names.len() ==> !has_wildcard(#[trigger] names[i]),
    ensures
        spec_glob_entries(names).len() == 0,
        spec_exact_entries(names) == names,
    decreases names.len(),
{
    if names.len() > 0 {
        let d = names.drop_last();
        assert(forall|i: int| 0 <= i < d.len() ==> d[i] == names[i]);
        lemma_no_wildcard_no_globs(d);
        assert(names[names.len() - 1] == names.last());
        assert(spec_exact_entries(names) =~= names);
    } else {
        assert(spec_exact_entries(names) =~= names);
    }
}

/// For a policy with no glob patterns, no regex patterns and no ad-hoc
/// pattern, protection of a branch that is not the current one is pure
/// set membership in the exact-name list.
pub proof fn lemma_protection_is_set_membership(
    pv: PolicyView,
    current: Option<Seq<char>>,
    name: Seq<char>,
)
    requires
        pv.glob_patterns.len() == 0,
        pv.regex_patterns.len() == 0,
        pv.ad_hoc_pattern is None,
        current != Some(name),
    ensures
        spec_protects(pv, current, name) == seq_contains_str(pv.exact_names, name),
{
}

} // verus!

//! Protection configuration: the layered name lists, their merge, the
//! glob/regex interpretation of entries, and the duration parser.

use vstd::prelude::*;

use crate::error::GitTidyError;
use crate::pattern::{glob_is_match, glob_is_valid, glob_match, glob_valid, regex_is_valid,
    regex_valid};
use crate::strutil::{contains_wildcard, dedup_names, has_wildcard, int_str_val, parse_i64,
    push_names, seq_contains_str, spec_dedup, spec_trim, trim_ascii, valid_int_str};

verus! {

/// The three configured lists of protected-branch entries. Each may be
/// absent, which is distinct from being present and empty when layers are
/// merged.
#[derive(Debug)]
pub struct ProtectedBranches {
    pub defaults: Option<Vec<String>>,
    pub additional: Option<Vec<String>>,
    pub patterns: Option<Vec<String>>,
}

#[derive(Debug)]
pub struct Config {
    pub protected_branches: ProtectedBranches,
}

/// The mathematical content of a `Config`: each list as an optional
/// sequence of character sequences.
pub ghost struct ConfigView {
    pub defaults: Option<Seq<Seq<char>>>,
    pub additional: Option<Seq<Seq<char>>>,
    pub patterns: Option<Seq<Seq<char>>>,
}

impl View for Config {
    type V = ConfigView;

    open spec fn view(&self) -> ConfigView {
        ConfigView {
            defaults: self.protected_branches.defaults.deep_view(),
            additional: self.protected_branches.additional.deep_view(),
            patterns: self.protected_branches.patterns.deep_view(),
        }
    }
}

/// An absent list reads as empty.
pub open spec fn opt_names(o: Option<Seq<Seq<char>>>) -> Seq<Seq<char>> {
    match o {
        Some(v) => v,
        None => Seq::empty(),
    }
}

/// The built-in protected branch names.
pub open spec fn spec_default_names() -> Seq<Seq<char>> {
    seq!["master"@, "develop"@, "main"@]
}

/// The view of the configuration that `Config::new` builds.
pub open spec fn spec_new_config() -> ConfigView {
    ConfigView { defaults: Some(spec_default_names()), additional: None, patterns: None }
}

/// All configured protected entries: defaults then additions.
pub open spec fn spec_protected_names(c: Config) -> Seq<Seq<char>> {
    opt_names(c@.defaults) + opt_names(c@.additional)
}

/// Overlaying a list: a present overlay of `defaults` replaces the base
/// list entirely; a present overlay of an additive list is appended and
/// the result deduplicated, keeping first occurrences.
pub open spec fn spec_merge_names(
    base: Option<Seq<Seq<char>>>,
    overlay: Option<Seq<Seq<char>>>,
) -> Option<Seq<Seq<char>>> {
    match overlay {
        None => base,
        Some(o) => Some(spec_dedup(opt_names(base) + o)),
    }
}

/// Merging one configuration layer over another, as a pure function on
/// views.
pub open spec fn spec_merge(base: ConfigView, overlay: ConfigView) -> ConfigView {
    ConfigView {
        defaults: match overlay.defaults {
            None => base.defaults,
            Some(d) => Some(d),
        },
        additional: spec_merge_names(base.additional, overlay.additional),
        patterns: spec_merge_names(base.patterns, overlay.patterns),
    }
}

/// The configuration that results from layering the optional global and
/// project overlays over the built-in defaults.
pub open spec fn spec_resolved_config(global: Option<Config>, project: Option<Config>)
    -> ConfigView {
    let after_global = match global {
        Some(g) => spec_merge(spec_new_config(), g@),
        None => spec_new_config(),
    };
    match project {
        Some(p) => spec_merge(after_global, p@),
        None => after_global,
    }
}

impl Config {
    /// The built-in configuration: `master`, `develop` and `main` are
    /// protected, nothing else is configured.
    pub fn new() -> (r: Self)
        ensures
            r@ == spec_new_config(),
    {
        let mut defaults: Vec<String> = Vec::new();
        defaults.push("master".to_owned());
        defaults.push("develop".to_owned());
        defaults.push("main".to_owned());
        assert(defaults.deep_view() =~= spec_default_names());
        Config {
            protected_branches: ProtectedBranches {
                defaults: Some(defaults),
                additional: None,
                patterns: None,
            },
        }
    }

    /// All protected entries: the default list followed by the additions.
    pub fn get_protected_branches(&self) -> (r: Vec<String>)
        ensures
            r.deep_view() == spec_protected_names(*self),
    {
        let mut out: Vec<String> = Vec::new();
        match &self.protected_branches.defaults {
            Some(d) => push_names(&mut out, d),
            None => (),
        }
        match &self.protected_branches.additional {
            Some(a) => push_names(&mut out, a),
            None => (),
        }
        assert(out.deep_view() =~= spec_protected_names(*self));
        out
    }
}

/// The protected entries that act as glob patterns: those holding a
/// wildcard and forming a valid pattern.
pub open spec fn spec_glob_entries(names: Seq<Seq<char>>) -> Seq<Seq<char>>
    decreases names.len(),
{
    if names.len() == 0 {
        Seq::empty()
    } else {
        let rest = spec_glob_entries(names.drop_last());
        if has_wildcard(names.last()) && glob_valid(names.last()) {
            rest.push(names.last())
        } else {
            rest
        }
    }
}

/// Some wildcard-bearing, valid entry glob-matches the text.
pub open spec fn spec_any_glob(names: Seq<Seq<char>>, text: Seq<char>) -> bool {
    exists|i: int|
        0 <= i < names.len() && has_wildcard(names[i]) && glob_valid(names[i]) && glob_match(
            names[i],
            text,
        )
}

/// The derived glob entries are exactly the wildcard-bearing valid entries.
pub proof fn lemma_glob_entries(names: Seq<Seq<char>>)
    ensures
        forall|j: int|
            0 <= j < spec_glob_entries(names).len() ==> {
                let e = #[trigger] spec_glob_entries(names)[j];
                has_wildcard(e) && glob_valid(e) && seq_contains_str(names, e)
            },
        forall|i: int|
            0 <= i < names.len() && has_wildcard(#[trigger] names[i]) && glob_valid(names[i])
                ==> seq_contains_str(spec_glob_entries(names), names[i]),
    decreases names.len(),
{
    if names.len() > 0 {
        let d = names.drop_last();
        lemma_glob_entries(d);
        assert(forall|i: int| 0 <= i < d.len() ==> d[i] == names[i]);
        assert forall|j: int| 0 <= j < spec_glob_entries(names).len() implies {
            let e = #[trigger] spec_glob_entries(names)[j];
            has_wildcard(e) && glob_valid(e) && seq_contains_str(names, e)
        } by {
            let e = spec_glob_entries(names)[j];
            if j < spec_glob_entries(d).len() {
                assert(e == spec_glob_entries(d)[j]);
                let i = choose|i: int| 0 <= i < d.len() && d[i] == e;
                assert(names[i] == e);
            } else {
                assert(e == names.last());
                assert(names[names.len() - 1] == e);
            }
        }
        assert forall|i: int|
            0 <= i < names.len() && has_wildcard(#[trigger] names[i]) && glob_valid(names[i])
            implies seq_contains_str(spec_glob_entries(names), names[i]) by {
            if i < names.len() - 1 {
                assert(d[i] == names[i]);
                assert(seq_contains_str(spec_glob_entries(d), names[i]));
                let j = choose|j: int|
                    0 <= j < spec_glob_entries(d).len() && spec_glob_entries(d)[j] == names[i];
                assert(spec_glob_entries(names)[j] == names[i]);
            } else {
                let g = spec_glob_entries(names);
                assert(g[g.len() - 1] == names.last());
            }
        }
    }
}

impl Config {
    /// The entries of the protected list that act as glob patterns.
    pub fn get_glob_patterns(&self) -> (r: Vec<String>)
        ensures
            r.deep_view() == spec_glob_entries(spec_protected_names(*self)),
    {
        let names = self.get_protected_branches();
        let ghost dv = names.deep_view();
        let mut out: Vec<String> = Vec::new();
        let mut i: usize = 0;
        while i < names.len()
            invariant
                0 <= i <= names.len(),
                dv == names.deep_view(),
                out.deep_view() =~= spec_glob_entries(dv.take(i as int)),
            decreases names.len() - i,
        {
            let ghost next = dv.take(i + 1);
            assert(next.drop_last() =~= dv.take(i as int));
            assert(next.last() == dv[i as int]);
            if contains_wildcard(names[i].as_str()) && glob_is_valid(names[i].as_str()) {
                let cloned = names[i].clone();
                assert(cloned.deep_view() == dv[i as int]);
                out.push(cloned);
            }
            assert(out.deep_view() =~= spec_glob_entries(dv.take(i + 1)));
            i = i + 1;
        }
        assert(dv.take(names.len() as int) =~= dv);
        out
    }

    /// Whether some wildcard-bearing protected entry glob-matches the
    /// branch name. Entries without a wildcard play no part here.
    pub fn is_protected(&self, branch_name: &str) -> (r: bool)
        ensures
            r == spec_any_glob(spec_protected_names(*self), branch_name@),
    {
        let ghost names = spec_protected_names(*self);
        let pats = self.get_glob_patterns();
        let ghost entries = spec_glob_entries(names);
        proof {
            lemma_glob_entries(names);
        }
        let mut j: usize = 0;
        while j < pats.len()
            invariant
                0 <= j <= pats.len(),
                pats.deep_view() == entries,
                names == spec_protected_names(*self),
                entries == spec_glob_entries(names),
                forall|k: int|
                    0 <= k < entries.len() ==> {
                        let e = #[trigger] entries[k];
                        has_wildcard(e) && glob_valid(e) && seq_contains_str(names, e)
                    },
                forall|i: int|
                    0 <= i < names.len() && has_wildcard(#[trigger] names[i]) && glob_valid(
                        names[i],
                    ) ==> seq_contains_str(entries, names[i]),
                forall|k: int| 0 <= k < j ==> !glob_match(#[trigger] entries[k], branch_name@),
            decreases pats.len() - j,
        {
            assert(pats[j as int]@ == entries[j as int]);
            if glob_is_match(pats[j].as_str(), branch_name) {
                proof {
                    let e = entries[j as int];
                    let i = choose|i: int| 0 <= i < names.len() && names[i] == e;
                    assert(has_wildcard(names[i]) && glob_valid(names[i]) && glob_match(
                        names[i],
                        branch_name@,
                    ));
                }
                return true;
            }
            j = j + 1;
        }
        proof {
            if spec_any_glob(names, branch_name@) {
                let i = choose|i: int|
                    0 <= i < names.len() && has_wildcard(names[i]) && glob_valid(names[i])
                        && glob_match(names[i], branch_name@);
                assert(seq_contains_str(entries, names[i]));
                let k = choose|k: int| 0 <= k < entries.len() && entries[k] == names[i];
                assert(!glob_match(entries[k], branch_name@));
            }
        }
        false
    }

    /// The configured regular-expression patterns, each checked for
    /// validity; an invalid pattern is a configuration error naming it.
    pub fn get_protected_patterns(&self) -> (r: Result<Vec<String>, GitTidyError>)
        ensures
            r is Ok <==> (forall|i: int|
                0 <= i < opt_names(self@.patterns).len() ==> regex_valid(
                    #[trigger] opt_names(self@.patterns)[i],
                )),
            r matches Ok(v) ==> v.deep_view() == opt_names(self@.patterns),
            r matches Err(e) ==> (e matches GitTidyError::ConfigError(m) && exists|i: int|
                0 <= i < opt_names(self@.patterns).len() && !regex_valid(
                    #[trigger] opt_names(self@.patterns)[i],
                ) && m@ == "Invalid regex '"@ + opt_names(self@.patterns)[i] + "'"@),
    {
        let ghost ps = opt_names(self@.patterns);
        match &self.protected_branches.patterns {
            None => {
                let empty: Vec<String> = Vec::new();
                assert(empty.deep_view() =~= ps);
                Ok(empty)
            },
            Some(list) => {
                let mut out: Vec<String> = Vec::new();
                let mut i: usize = 0;
                while i < list.len()
                    invariant
                        0 <= i <= list.len(),
                        ps == list.deep_view(),
                        ps == opt_names(self@.patterns),
                        out.deep_view() =~= ps.take(i as int),
                        forall|k: int| 0 <= k < i ==> regex_valid(#[trigger] ps[k]),
                    decreases list.len() - i,
                {
                    assert(list[i as int]@ == ps[i as int]);
                    if !regex_is_valid(list[i].as_str()) {
                        proof {
                            assert(ps == opt_names(self@.patterns));
                            assert(!regex_valid(opt_names(self@.patterns)[i as int]));
                        }
                        return Err(
                            GitTidyError::ConfigError(
                                String::from_str("Invalid regex '").concat(list[i].as_str())
                                    .concat("'"),
                            ),
                        );
                    }
                    let ghost before = out.deep_view();
                    let cloned = list[i].clone();
                    assert(cloned.deep_view() == ps[i as int]);
                    out.push(cloned);
                    assert(out.deep_view() =~= before.push(ps[i as int]));
                    assert(ps.take(i + 1) =~= ps.take(i as int).push(ps[i as int]));
                    assert(out.deep_view() =~= ps.take(i + 1));
                    i = i + 1;
                }
                assert(ps.take(list.len() as int) =~= ps);
                Ok(out)
            },
        }
    }
}

/// Lay `overlay` over `base`: a present `defaults` replaces the base list;
/// present additive lists are appended and deduplicated.
pub fn merge_config(base: &mut Config, overlay: &Config)
    ensures
        final(base)@ == spec_merge(old(base)@, overlay@),
{
    match &overlay.protected_branches.defaults {
        Some(od) => {
            let mut nv: Vec<String> = Vec::new();
            push_names(&mut nv, od);
            assert(nv.deep_view() =~= od.deep_view());
            base.protected_branches.defaults = Some(nv);
        },
        None => (),
    }
    match &overlay.protected_branches.additional {
        Some(oa) => {
            let mut combined: Vec<String> = Vec::new();
            match &base.protected_branches.additional {
                Some(ba) => push_names(&mut combined, ba),
                None => (),
            }
            push_names(&mut combined, oa);
            assert(combined.deep_view() =~= opt_names(old(base)@.additional) + oa.deep_view());
            let deduped = dedup_names(&combined);
            base.protected_branches.additional = Some(deduped);
        },
        None => (),
    }
    match &overlay.protected_branches.patterns {
        Some(op) => {
            let mut combined: Vec<String> = Vec::new();
            match &base.protected_branches.patterns {
                Some(bp) => push_names(&mut combined, bp),
                None => (),
            }
            push_names(&mut combined, op);
            assert(combined.deep_view() =~= opt_names(old(base)@.patterns) + op.deep_view());
            let deduped = dedup_names(&combined);
            base.protected_branches.patterns = Some(deduped);
        },
        None => (),
    }
}

/// Resolve the effective configuration from the optional global and
/// project layers: built-in defaults, overlaid by the global layer, then
/// by the project layer, as a pure fold.
pub fn load_config(global: Option<Config>, project: Option<Config>) -> (r: Config)
    ensures
        r@ == spec_resolved_config(global, project),
{
    let mut config = Config::new();
    match &global {
        Some(g) => merge_config(&mut config, g),
        None => (),
    }
    match &project {
        Some(p) => merge_config(&mut config, p),
        None => (),
    }
    config
}

/// The number of seconds one unit letter stands for.
pub open spec fn unit_secs(c: char) -> int {
    if c == 's' {
        1
    } else if c == 'm' {
        60
    } else if c == 'h' {
        3600
    } else if c == 'd' {
        86400
    } else if c == 'w' {
        604800
    } else {
        0
    }
}

pub open spec fn valid_unit(c: char) -> bool {
    c == 's' || c == 'm' || c == 'h' || c == 'd' || c == 'w'
}

/// The number part of a trimmed duration string.
pub open spec fn spec_duration_num(t: Seq<char>) -> Seq<char> {
    t.drop_last()
}

/// A trimmed duration string is well formed when it has a parsable
/// magnitude and a known unit letter.
pub open spec fn spec_duration_wf(t: Seq<char>) -> bool {
    &&& t.len() >= 2
    &&& valid_int_str(spec_duration_num(t))
    &&& i64::MIN <= int_str_val(spec_duration_num(t)) <= i64::MAX
    &&& valid_unit(t.last())
}

/// The span in seconds that a well-formed duration string denotes.
pub open spec fn spec_duration_secs(t: Seq<char>) -> int {
    int_str_val(spec_duration_num(t)) * unit_secs(t.last())
}

/// Parse a human duration such as `30d`: an integer magnitude followed by
/// one of the unit letters `s`, `m`, `h`, `d`, `w`, with surrounding ASCII
/// whitespace ignored. Each way the string can be malformed yields its own
/// message; a span that does not fit in seconds in an `i64` is rejected
/// rather than wrapped.
pub fn parse_duration(duration_str: &str) -> (r: Result<i64, String>)
    ensures
        r is Ok <==> (spec_duration_wf(spec_trim(duration_str@)) && i64::MIN <= spec_duration_secs(
            spec_trim(duration_str@),
        ) <= i64::MAX),
        r matches Ok(v) ==> v == spec_duration_secs(spec_trim(duration_str@)),
        r matches Err(m) ==> ({
            let t = spec_trim(duration_str@);
            if t.len() < 2 {
                m@ == "Invalid duration: '"@ + t + "'. Expected format like '30d'"@
            } else if !(valid_int_str(spec_duration_num(t)) && i64::MIN <= int_str_val(
                spec_duration_num(t),
            ) <= i64::MAX) {
                m@ == "Invalid number: "@ + spec_duration_num(t)
            } else if !valid_unit(t.last()) {
                m@ == "Invalid unit: "@ + t.subrange(t.len() - 1, t.len() as int)
                    + ". Use s, m, h, d, or w"@
            } else {
                m@ == "Duration out of range: '"@ + t + "'"@
            }
        }),
{
    let trimmed = trim_ascii(duration_str);
    let n = trimmed.unicode_len();
    if n < 2 {
        return Err(
            String::from_str("Invalid duration: '").concat(trimmed).concat(
                "'. Expected format like '30d'",
            ),
        );
    }
    let num_str = trimmed.substring_char(0, n - 1);
    assert(num_str@ =~= spec_duration_num(trimmed@));
    let unit_str = trimmed.substring_char(n - 1, n);
    assert(trimmed@[n - 1] == trimmed@.last());
    match parse_i64(num_str) {
        None => Err(String::from_str("Invalid number: ").concat(num_str)),
        Some(num) => {
            let unit_char = trimmed.get_char(n - 1);
            let mult: i64 = if unit_char == 's' {
                1
            } else if unit_char == 'm' {
                60
            } else if unit_char == 'h' {
                3600
            } else if unit_char == 'd' {
                86400
            } else if unit_char == 'w' {
                604800
            } else {
                return Err(
                    String::from_str("Invalid unit: ").concat(unit_str).concat(
                        ". Use s, m, h, d, or w",
                    ),
                );
            };
            match num.checked_mul(mult) {
                Some(v) => Ok(v),
                None => Err(
                    String::from_str("Duration out of range: '").concat(trimmed).concat("'"),
                ),
            }
        },
    }
}

} // verus!

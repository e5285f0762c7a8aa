//! Small executable helpers over strings that the rest of the crate builds on.

use vstd::prelude::*;

verus! {

/// A name sequence contains `name` when some entry's characters equal it.
pub open spec fn seq_contains_str(names: Seq<Seq<char>>, name: Seq<char>) -> bool {
    exists|i: int| 0 <= i < names.len() && names[i] == name
}

/// A string holds the glob wildcard character somewhere.
pub open spec fn has_wildcard(s: Seq<char>) -> bool {
    exists|i: int| 0 <= i < s.len() && s[i] == '*'
}

/// Character-wise equality of a `String` and a `&str`.
pub fn string_eq_str(a: &String, b: &str) -> (r: bool)
    ensures
        r == (a@ == b@),
{
    let owned: String = b.to_owned();
    *a == owned
}

/// Membership of `name` in a list of names, compared character-wise.
pub fn contains_name(names: &Vec<String>, name: &str) -> (r: bool)
    ensures
        r == seq_contains_str(names.deep_view(), name@),
{
    let mut i: usize = 0;
    while i < names.len()
        invariant
            0 <= i <= names.len(),
            forall|j: int| 0 <= j < i ==> names.deep_view()[j] != name@,
        decreases names.len() - i,
    {
        if string_eq_str(&names[i], name) {
            assert(names.deep_view()[i as int] == name@);
            return true;
        }
        i = i + 1;
    }
    false
}

/// Append clones of all of `src` to `out`.
pub fn push_names(out: &mut Vec<String>, src: &Vec<String>)
    ensures
        final(out).deep_view() == old(out).deep_view() + src.deep_view(),
{
    let ghost base = out.deep_view();
    let mut i: usize = 0;
    while i < src.len()
        invariant
            0 <= i <= src.len(),
            out.deep_view() =~= base + src.deep_view().take(i as int),
        decreases src.len() - i,
    {
        let ghost before = out.deep_view();
        let cloned = src[i].clone();
        assert(cloned.deep_view() == src.deep_view()[i as int]);
        out.push(cloned);
        assert(out.deep_view() =~= before.push(src.deep_view()[i as int]));
        assert(out.deep_view() =~= base + src.deep_view().take(i + 1));
        i = i + 1;
    }
    assert(src.deep_view().take(src.len() as int) =~= src.deep_view());
}

/// Keep the first occurrence of each name and drop the later repeats.
pub open spec fn spec_dedup(s: Seq<Seq<char>>) -> Seq<Seq<char>>
    decreases s.len(),
{
    if s.len() == 0 {
        Seq::empty()
    } else if seq_contains_str(s.drop_last(), s.last()) {
        spec_dedup(s.drop_last())
    } else {
        spec_dedup(s.drop_last()).push(s.last())
    }
}

/// Deduplication neither adds nor removes names.
proof fn lemma_dedup_membership(s: Seq<Seq<char>>, x: Seq<char>)
    ensures
        seq_contains_str(spec_dedup(s), x) == seq_contains_str(s, x),
    decreases s.len(),
{
    if s.len() > 0 {
        let d = s.drop_last();
        lemma_dedup_membership(d, x);
        assert(seq_contains_str(s, x) == (seq_contains_str(d, x) || s.last() == x)) by {
            if seq_contains_str(s, x) {
                let i = choose|i: int| 0 <= i < s.len() && s[i] == x;
                if i < s.len() - 1 {
                    assert(d[i] == x);
                }
            }
            if seq_contains_str(d, x) {
                let i = choose|i: int| 0 <= i < d.len() && d[i] == x;
                assert(s[i] == x);
            }
            if s.last() == x {
                assert(s[s.len() - 1] == x);
            }
        }
        if seq_contains_str(d, s.last()) {
            assert(spec_dedup(s) == spec_dedup(d));
        } else {
            let dd = spec_dedup(d);
            assert(spec_dedup(s) == dd.push(s.last()));
            assert(seq_contains_str(dd.push(s.last()), x) == (seq_contains_str(dd, x) || s.last()
                == x)) by {
                if seq_contains_str(dd.push(s.last()), x) {
                    let i = choose|i: int|
                        0 <= i < dd.push(s.last()).len() && dd.push(s.last())[i] == x;
                    if i < dd.len() {
                        assert(dd[i] == x);
                    } else {
                        assert(dd.push(s.last())[dd.len() as int] == s.last());
                    }
                }
                if seq_contains_str(dd, x) {
                    let i = choose|i: int| 0 <= i < dd.len() && dd[i] == x;
                    assert(dd.push(s.last())[i] == x);
                }
                if s.last() == x {
                    assert(dd.push(s.last())[dd.len() as int] == x);
                }
            }
        }
    }
}

/// Build the list of first occurrences of `src`.
pub fn dedup_names(src: &Vec<String>) -> (r: Vec<String>)
    ensures
        r.deep_view() == spec_dedup(src.deep_view()),
{
    let mut out: Vec<String> = Vec::new();
    let mut i: usize = 0;
    while i < src.len()
        invariant
            0 <= i <= src.len(),
            out.deep_view() =~= spec_dedup(src.deep_view().take(i as int)),
        decreases src.len() - i,
    {
        let ghost prefix = src.deep_view().take(i as int);
        let ghost next = src.deep_view().take(i + 1);
        assert(next.drop_last() =~= prefix);
        assert(next.last() == src.deep_view()[i as int]);
        proof {
            lemma_dedup_membership(prefix, src.deep_view()[i as int]);
        }
        if !contains_name(&out, src[i].as_str()) {
            out.push(src[i].clone());
        }
        assert(out.deep_view() =~= spec_dedup(src.deep_view().take(i + 1)));
        i = i + 1;
    }
    assert(src.deep_view().take(src.len() as int) =~= src.deep_view());
    out
}

/// Whether the string holds the glob wildcard `*`.
pub fn contains_wildcard(s: &str) -> (r: bool)
    ensures
        r == has_wildcard(s@),
{
    let n = s.unicode_len();
    let mut i: usize = 0;
    while i < n
        invariant
            0 <= i <= n,
            n == s@.len(),
            forall|j: int| 0 <= j < i ==> s@[j] != '*',
        decreases n - i,
    {
        if s.get_char(i) == '*' {
            return true;
        }
        i = i + 1;
    }
    false
}

/// The ASCII whitespace characters that trimming removes.
pub open spec fn is_space(c: char) -> bool {
    c == ' ' || c == '\t' || c == '\n' || c == '\r'
}

/// The string without its leading ASCII whitespace.
pub open spec fn spec_trim_start(s: Seq<char>) -> Seq<char>
    decreases s.len(),
{
    if s.len() == 0 || !is_space(s[0]) {
        s
    } else {
        spec_trim_start(s.subrange(1, s.len() as int))
    }
}

/// The string without its trailing ASCII whitespace.
pub open spec fn spec_trim_end(s: Seq<char>) -> Seq<char>
    decreases s.len(),
{
    if s.len() == 0 || !is_space(s.last()) {
        s
    } else {
        spec_trim_end(s.drop_last())
    }
}

/// The string without leading and trailing ASCII whitespace.
pub open spec fn spec_trim(s: Seq<char>) -> Seq<char> {
    spec_trim_end(spec_trim_start(s))
}

/// Whether the character at `i` is ASCII whitespace.
fn is_space_at(s: &str, i: usize) -> (r: bool)
    requires
        i < s@.len(),
    ensures
        r == is_space(s@[i as int]),
{
    let c = s.get_char(i);
    c == ' ' || c == '\t' || c == '\n' || c == '\r'
}

/// Strip leading and trailing ASCII whitespace.
pub fn trim_ascii(s: &str) -> (r: &str)
    ensures
        r@ == spec_trim(s@),
{
    let n = s.unicode_len();
    assert(s@.subrange(0, n as int) =~= s@);
    let mut start: usize = 0;
    while start < n && is_space_at(s, start)
        invariant
            0 <= start <= n,
            n == s@.len(),
            spec_trim_start(s@) == spec_trim_start(s@.subrange(start as int, n as int)),
        decreases n - start,
    {
        let ghost cur = s@.subrange(start as int, n as int);
        assert(cur.subrange(1, cur.len() as int) =~= s@.subrange(start + 1, n as int));
        start = start + 1;
    }
    let ghost t = s@.subrange(start as int, n as int);
    assert(spec_trim_start(s@) == t);
    let mut end: usize = n;
    while end > start && is_space_at(s, end - 1)
        invariant
            start <= end <= n,
            n == s@.len(),
            t == s@.subrange(start as int, n as int),
            spec_trim_end(t) == spec_trim_end(s@.subrange(start as int, end as int)),
        decreases end,
    {
        let ghost cur = s@.subrange(start as int, end as int);
        assert(cur.last() == s@[end - 1]);
        assert(cur.drop_last() =~= s@.subrange(start as int, end - 1));
        end = end - 1;
    }
    proof {
        let cur = s@.subrange(start as int, end as int);
        if end > start {
            assert(cur.last() == s@[end - 1]);
        }
        assert(spec_trim_end(cur) == cur);
    }
    s.substring_char(start, end)
}

/// Whether a character is a decimal digit.
pub open spec fn is_digit_char(c: char) -> bool {
    48 <= c as u32 && c as u32 <= 57
}

/// The value of a decimal digit.
pub open spec fn digit_val(c: char) -> int {
    c as u32 - 48
}

/// Whether every character of the (non-empty) string is a decimal digit.
pub open spec fn all_digits(s: Seq<char>) -> bool {
    s.len() > 0 && forall|i: int| 0 <= i < s.len() ==> is_digit_char(s[i])
}

/// The value of a string of decimal digits.
pub open spec fn dec_val(s: Seq<char>) -> int
    decreases s.len(),
{
    if s.len() == 0 {
        0
    } else {
        dec_val(s.drop_last()) * 10 + digit_val(s.last())
    }
}

/// Whether the string is an optional sign followed by decimal digits.
pub open spec fn valid_int_str(s: Seq<char>) -> bool {
    if s.len() == 0 {
        false
    } else if s[0] == '+' || s[0] == '-' {
        all_digits(s.subrange(1, s.len() as int))
    } else {
        all_digits(s)
    }
}

/// The signed value of a decimal integer string.
pub open spec fn int_str_val(s: Seq<char>) -> int {
    if s.len() > 0 && s[0] == '-' {
        -dec_val(s.subrange(1, s.len() as int))
    } else if s.len() > 0 && s[0] == '+' {
        dec_val(s.subrange(1, s.len() as int))
    } else {
        dec_val(s)
    }
}

proof fn lemma_dec_val_nonneg(s: Seq<char>)
    requires
        forall|i: int| 0 <= i < s.len() ==> is_digit_char(s[i]),
    ensures
        dec_val(s) >= 0,
    decreases s.len(),
{
    if s.len() > 0 {
        lemma_dec_val_nonneg(s.drop_last());
    }
}

/// Appending digits never shrinks the value of a digit string.
proof fn lemma_dec_val_prefix(s: Seq<char>, i: int)
    requires
        forall|j: int| 0 <= j < s.len() ==> is_digit_char(s[j]),
        0 <= i <= s.len(),
    ensures
        dec_val(s.take(i)) <= dec_val(s),
    decreases s.len() - i,
{
    if i < s.len() {
        lemma_dec_val_prefix(s, i + 1);
        let p = s.take(i);
        let q = s.take(i + 1);
        assert(q.drop_last() =~= p);
        lemma_dec_val_nonneg(p);
        assert(dec_val(q) == dec_val(p) * 10 + digit_val(q.last()));
    } else {
        assert(s.take(i) =~= s);
    }
}

/// Parse a signed decimal integer, as `str::parse::<i64>` does: an optional
/// `+` or `-` sign, then decimal digits; rejects anything else and any value
/// outside the `i64` range.
pub fn parse_i64(s: &str) -> (r: Option<i64>)
    ensures
        r is Some <==> (valid_int_str(s@) && i64::MIN <= int_str_val(s@) <= i64::MAX),
        r matches Some(v) ==> v == int_str_val(s@),
{
    let n = s.unicode_len();
    if n == 0 {
        return None;
    }
    let c0 = s.get_char(0);
    let neg = c0 == '-';
    let start: usize = if c0 == '-' || c0 == '+' {
        1
    } else {
        0
    };
    let ghost digits = s@.subrange(start as int, n as int);
    if n == start {
        assert(!valid_int_str(s@));
        return None;
    }
    proof {
        if start == 0 {
            assert(s@.subrange(0, n as int) =~= s@);
        }
    }
    let mut mag: u64 = 0;
    let mut i: usize = start;
    while i < n
        invariant
            start <= i <= n,
            n == s@.len(),
            start < n,
            digits == s@.subrange(start as int, n as int),
            forall|j: int| 0 <= j < i - start ==> is_digit_char(digits[j]),
            mag == dec_val(digits.take(i - start)),
            mag <= 9223372036854775808u64,
            valid_int_str(s@) == all_digits(digits),
            int_str_val(s@) == if neg {
                -dec_val(digits)
            } else {
                dec_val(digits)
            },
        decreases n - i,
    {
        let c = s.get_char(i);
        let cv = c as u32;
        if cv < 48 || cv > 57 {
            assert(digits[i - start] == s@[i as int]);
            assert(!all_digits(digits));
            return None;
        }
        let d: u64 = (cv - 48) as u64;
        let ghost prev = digits.take(i - start);
        let ghost next = digits.take(i - start + 1);
        assert(next.drop_last() =~= prev);
        assert(next.last() == s@[i as int]);
        let step_ok: bool = mag <= 922337203685477580u64 && (mag < 922337203685477580u64 || d
            <= 8);
        if !step_ok {
            proof {
                assert(dec_val(next) == mag * 10 + d);
                assert(dec_val(next) > 9223372036854775808u64);
                if valid_int_str(s@) {
                    assert(all_digits(digits));
                    lemma_dec_val_prefix(digits, i - start + 1);
                    assert(dec_val(digits) > 9223372036854775808u64);
                    if neg {
                        assert(int_str_val(s@) < i64::MIN);
                    } else {
                        assert(int_str_val(s@) > i64::MAX);
                    }
                }
            }
            return None;
        }
        mag = mag * 10 + d;
        i = i + 1;
    }
    assert(digits.take(n - start) =~= digits);
    assert(all_digits(digits));
    proof {
        lemma_dec_val_nonneg(digits);
    }
    if neg {
        if mag == 9223372036854775808u64 {
            Some(i64::MIN)
        } else {
            Some(-(mag as i64))
        }
    } else {
        if mag == 9223372036854775808u64 {
            assert(int_str_val(s@) > i64::MAX);
            None
        } else {
            Some(mag as i64)
        }
    }
}

} // verus!

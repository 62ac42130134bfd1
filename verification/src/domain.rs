//! Base-domain extraction: the zone-relevant suffix of a fully-qualified
//! domain name is its last two dot-separated labels joined by a dot.

use vstd::prelude::*;

use crate::errors::DynDnsError;

verus! {

/// True when `s` holds a dot somewhere.
pub open spec fn has_dot(s: Seq<char>) -> bool {
    exists|i: int| 0 <= i < s.len() && s[i] == '.'
}

/// Index of the last dot of `s`; `-1` when `s` is empty, and meaningful
/// only when `has_dot(s)` holds.
pub open spec fn last_dot(s: Seq<char>) -> int
    decreases s.len(),
{
    if s.len() == 0 {
        -1
    } else if s[s.len() - 1] == '.' {
        s.len() - 1
    } else {
        last_dot(s.take(s.len() - 1))
    }
}

/// The dot-separated labels of `s`, in order. A string without a dot is a
/// single label (possibly empty), so the split never yields an empty list.
pub open spec fn dot_labels(s: Seq<char>) -> Seq<Seq<char>>
    decreases s.len(),
        via dot_labels_decreases
{
    if !has_dot(s) {
        seq![s]
    } else {
        dot_labels(s.take(last_dot(s))) + seq![s.subrange(last_dot(s) + 1, s.len() as int)]
    }
}

#[via_fn]
proof fn dot_labels_decreases(s: Seq<char>) {
    if has_dot(s) {
        lemma_last_dot_props(s);
    }
}

/// The last two labels of `s` joined by a dot; meaningful only when `s`
/// splits into at least two labels.
pub open spec fn base_domain(s: Seq<char>) -> Seq<char> {
    let labels = dot_labels(s);
    labels[labels.len() - 2] + seq!['.'] + labels[labels.len() - 1]
}

/// When `s` holds a dot at all, `last_dot(s)` is a real index, carries a
/// dot, and no dot follows it.
pub proof fn lemma_last_dot_props(s: Seq<char>)
    requires
        has_dot(s),
    ensures
        0 <= last_dot(s) < s.len(),
        s[last_dot(s)] == '.',
        forall|j: int| last_dot(s) < j < s.len() ==> s[j] != '.',
    decreases s.len(),
{
    if s.len() == 0 {
    } else if s[s.len() - 1] == '.' {
    } else {
        let prefix = s.take(s.len() - 1);
        let i = choose|i: int| 0 <= i < s.len() && s[i] == '.';
        assert(prefix[i] == '.');
        lemma_last_dot_props(prefix);
        assert forall|j: int| last_dot(s) < j < s.len() implies s[j] != '.' by {
            if j < s.len() - 1 {
                assert(prefix[j] != '.');
            }
        }
    }
}

/// A dot with no dot after it is the last dot.
pub proof fn lemma_last_dot_at(s: Seq<char>, i: int)
    requires
        0 <= i < s.len(),
        s[i] == '.',
        forall|j: int| i < j < s.len() ==> s[j] != '.',
    ensures
        has_dot(s),
        last_dot(s) == i,
{
    assert(has_dot(s));
    lemma_last_dot_props(s);
    let ld = last_dot(s);
    if ld < i {
        assert(s[i] == '.');
        assert(false);
    } else if ld > i {
        assert(s[ld] == '.');
        assert(false);
    }
}

/// The split has at least one label, and at least two exactly when the
/// string holds a dot.
pub proof fn lemma_dot_labels_len(s: Seq<char>)
    ensures
        dot_labels(s).len() >= 1,
        has_dot(s) <==> dot_labels(s).len() >= 2,
    decreases s.len(),
{
    if has_dot(s) {
        lemma_last_dot_props(s);
        lemma_dot_labels_len(s.take(last_dot(s)));
    }
}

/// Returns the base domain of `domain`: its last two dot-separated labels
/// joined by a dot. A domain with fewer than two labels is rejected.
pub fn extract_domain_name(domain: &str) -> (r: Result<String, DynDnsError>)
    ensures
        dot_labels(domain@).len() >= 2 ==> (r matches Ok(b) && b@ == base_domain(domain@)),
        dot_labels(domain@).len() < 2 ==> (r matches Err(e) && e == DynDnsError::InvalidDomain),
{
    let ghost s = domain@;
    let n = domain.unicode_len();
    let mut i: usize = n;
    // Number of dots seen from the right, capped at two.
    let mut dots: usize = 0;
    // Index of the last dot, once one was seen.
    let mut last: usize = 0;
    // Start of the base domain, once the second dot from the right was seen.
    let mut cut: usize = 0;
    while i > 0 && dots < 2
        invariant
            s == domain@,
            n == s.len(),
            0 <= i <= n,
            dots <= 2,
            dots == 0 ==> (forall|j: int| i <= j < n ==> s[j] != '.'),
            dots >= 1 ==> i <= last < n && s[last as int] == '.' && (forall|j: int|
                last < j < n ==> s[j] != '.'),
            dots == 1 ==> (forall|j: int| i <= j < last ==> s[j] != '.'),
            dots <= 1 ==> cut == 0,
            dots == 2 ==> 1 <= cut <= last && s[cut - 1] == '.' && (forall|j: int|
                cut <= j < last ==> s[j] != '.'),
        decreases i,
    {
        i = i - 1;
        if domain.get_char(i) == '.' {
            dots = dots + 1;
            if dots == 1 {
                last = i;
            } else {
                cut = i + 1;
            }
        }
    }
    if dots == 0 {
        proof {
            if has_dot(s) {
                let k = choose|k: int| 0 <= k < s.len() && s[k] == '.';
                assert(s[k] != '.');
            }
            lemma_dot_labels_len(s);
        }
        return Err(DynDnsError::InvalidDomain);
    }
    proof {
        lemma_last_dot_at(s, last as int);
        lemma_dot_labels_len(s);
        let prefix = s.take(last_dot(s));
        if dots == 1 {
            if has_dot(prefix) {
                let k = choose|k: int| 0 <= k < prefix.len() && prefix[k] == '.';
                assert(s[k] == '.');
                assert(false);
            }
            lemma_dot_labels_len(prefix);
            assert(dot_labels(s) == seq![prefix] + seq![
                s.subrange(last_dot(s) + 1, s.len() as int),
            ]);
            assert(base_domain(s) =~= s.subrange(cut as int, n as int));
        } else {
            lemma_last_dot_at(prefix, cut - 1);
            lemma_last_dot_props(prefix);
            lemma_dot_labels_len(prefix.take(cut - 1));
            assert(dot_labels(prefix) == dot_labels(prefix.take(cut - 1)) + seq![
                prefix.subrange(cut as int, prefix.len() as int),
            ]);
            let labels = dot_labels(s);
            assert(labels[labels.len() - 2] =~= s.subrange(cut as int, last as int));
            assert(base_domain(s) =~= s.subrange(cut as int, n as int));
        }
    }
    let suffix = domain.substring_char(cut, n);
    Ok(suffix.to_owned())
}

} // verus!

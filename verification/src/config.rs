//! The updater's configuration and the pure parts of its parsing: flag
//! and interval parsing, and normalization of the domain list. Reading
//! the environment itself happens outside the library, which is handed
//! the raw strings.

use vstd::prelude::*;

use crate::text::str_eq;

verus! {

/// Seconds between cycles when the configuration does not say otherwise.
pub const DEFAULT_UPDATE_INTERVAL: u64 = 300;

pub open spec fn is_digit(c: char) -> bool {
    48 <= c as int && c as int <= 57
}

pub open spec fn digit_val(c: char) -> int {
    c as int - 48
}

pub open spec fn all_digits(s: Seq<char>) -> bool {
    forall|i: int| 0 <= i < s.len() ==> is_digit(s[i])
}

/// The number that a digit string denotes.
pub open spec fn digits_val(s: Seq<char>) -> int
    decreases s.len(),
{
    if s.len() == 0 {
        0
    } else {
        digits_val(s.drop_last()) * 10 + digit_val(s.last())
    }
}

/// The digits of an unsigned numeral: an optional leading plus sign is
/// dropped.
pub open spec fn u64_numeral_body(s: Seq<char>) -> Seq<char> {
    if s.len() > 0 && s[0] == '+' {
        s.drop_first()
    } else {
        s
    }
}

/// True when `s` is an unsigned decimal numeral whose value fits in a
/// 64-bit word: an optional plus sign, then at least one digit.
pub open spec fn parses_as_u64(s: Seq<char>) -> bool {
    let b = u64_numeral_body(s);
    b.len() > 0 && all_digits(b) && digits_val(b) <= u64::MAX
}

proof fn lemma_digits_val_nonneg(s: Seq<char>)
    requires
        all_digits(s),
    ensures
        digits_val(s) >= 0,
    decreases s.len(),
{
    if s.len() > 0 {
        lemma_digits_val_nonneg(s.drop_last());
    }
}

/// A digit string is worth at least any of its prefixes.
proof fn lemma_digits_val_prefix(s: Seq<char>, j: int)
    requires
        all_digits(s),
        0 <= j <= s.len(),
    ensures
        digits_val(s.take(j)) <= digits_val(s),
    decreases s.len() - j,
{
    if j < s.len() {
        lemma_digits_val_prefix(s, j + 1);
        assert(s.take(j + 1).drop_last() =~= s.take(j));
        assert(all_digits(s.take(j))) by {
            assert(forall|i: int| 0 <= i < j ==> is_digit(s[i]));
        }
        lemma_digits_val_nonneg(s.take(j));
        assert(digits_val(s.take(j)) * 10 + digit_val(s.take(j + 1).last()) >= digits_val(
            s.take(j),
        ));
    } else {
        assert(s.take(j) =~= s);
    }
}

/// Parses an unsigned decimal numeral as `str::parse::<u64>` accepts it:
/// an optional plus sign, then one or more digits, the value fitting in
/// 64 bits. Anything else yields nothing.
pub fn parse_u64(s: &str) -> (r: Option<u64>)
    ensures
        parses_as_u64(s@) ==> (r matches Some(n) && n == digits_val(u64_numeral_body(s@))),
        !parses_as_u64(s@) ==> r is None,
{
    let n = s.unicode_len();
    let mut i: usize = 0;
    if n > 0 && s.get_char(0) == '+' {
        i = 1;
    }
    let ghost start = i as int;
    let ghost b = u64_numeral_body(s@);
    proof {
        assert(b =~= s@.subrange(start, n as int));
    }
    if i == n {
        return None;
    }
    let mut acc: u64 = 0;
    while i < n
        invariant
            n == s@.len(),
            start <= i <= n,
            b == u64_numeral_body(s@),
            b.len() == n - start,
            forall|j: int| 0 <= j < b.len() ==> b[j] == s@[j + start],
            all_digits(b.take(i - start)),
            acc == digits_val(b.take(i - start)),
        decreases n - i,
    {
        let c = s.get_char(i);
        let code = c as u32;
        if code < 48 || code > 57 {
            proof {
                assert(!is_digit(b[i - start]));
            }
            return None;
        }
        let digit = (code - 48) as u64;
        let next = match acc.checked_mul(10) {
            Some(m) => m.checked_add(digit),
            None => None,
        };
        match next {
            Some(v) => {
                acc = v;
                proof {
                    assert(b.take(i - start + 1).drop_last() =~= b.take(i - start));
                    assert(b.take(i - start + 1).last() == b[i - start]);
                    assert(digit_val(b[i - start]) == digit);
                }
            },
            None => {
                proof {
                    assert(b.take(i - start + 1).drop_last() =~= b.take(i - start));
                    assert(digit_val(b[i - start]) == digit);
                    if parses_as_u64(s@) {
                        lemma_digits_val_prefix(b, i - start + 1);
                        lemma_digits_val_nonneg(b.take(i - start));
                        assert(digits_val(b.take(i - start + 1)) > u64::MAX);
                    }
                }
                return None;
            },
        }
        i = i + 1;
    }
    proof {
        assert(b.take(n - start) =~= b);
    }
    Some(acc)
}

/// True when `s` spells `true` in any letter case, the way the
/// configuration's boolean toggles are read.
pub open spec fn spells_true(s: Seq<char>) -> bool {
    s.len() == 4 && (s[0] == 't' || s[0] == 'T') && (s[1] == 'r' || s[1] == 'R') && (s[2] == 'u'
        || s[2] == 'U') && (s[3] == 'e' || s[3] == 'E')
}

/// Reads a boolean toggle: exactly the text `true`, in any letter case,
/// enables it.
pub fn parse_bool_flag(s: &str) -> (b: bool)
    ensures
        b == spells_true(s@),
{
    if s.unicode_len() != 4 {
        return false;
    }
    let c0 = s.get_char(0);
    let c1 = s.get_char(1);
    let c2 = s.get_char(2);
    let c3 = s.get_char(3);
    (c0 == 't' || c0 == 'T') && (c1 == 'r' || c1 == 'R') && (c2 == 'u' || c2 == 'U') && (c3 == 'e'
        || c3 == 'E')
}

/// The update interval that a raw configuration value yields: its numeric
/// value when it is a numeral, the default otherwise.
pub fn parse_update_interval(raw: &str) -> (n: u64)
    ensures
        parses_as_u64(raw@) ==> n == digits_val(u64_numeral_body(raw@)),
        !parses_as_u64(raw@) ==> n == DEFAULT_UPDATE_INTERVAL,
{
    match parse_u64(raw) {
        Some(n) => n,
        None => DEFAULT_UPDATE_INTERVAL,
    }
}

/// True when some element of `v` reads `name`.
pub open spec fn has_domain(v: Seq<String>, name: Seq<char>) -> bool {
    exists|i: int| 0 <= i < v.len() && v[i]@ == name
}

fn vec_contains_str(v: &Vec<String>, s: &str) -> (b: bool)
    ensures
        b == has_domain(v@, s@),
{
    let mut i: usize = 0;
    while i < v.len()
        invariant
            0 <= i <= v@.len(),
            forall|j: int| 0 <= j < i ==> v@[j]@ != s@,
        decreases v@.len() - i,
    {
        if str_eq(v[i].as_str(), s) {
            return true;
        }
        i = i + 1;
    }
    false
}

/// Normalizes a domain list for use: drops empty entries, keeps the
/// first occurrence of each domain, and refuses a list with no domain
/// left.
pub fn normalize_domains(domains: Vec<String>) -> (r: Option<Vec<String>>)
    ensures
        match r {
            Some(v) => {
                &&& v@.len() > 0
                &&& forall|i: int, j: int| 0 <= i < j < v@.len() ==> v@[i]@ != v@[j]@
                &&& forall|i: int| 0 <= i < v@.len() ==> v@[i]@.len() > 0
                &&& forall|i: int| 0 <= i < v@.len() ==> has_domain(domains@, #[trigger] v@[i]@)
                &&& forall|k: int| 0 <= k < domains@.len() && (#[trigger] domains@[k]@).len() > 0
                    ==> has_domain(v@, domains@[k]@)
            },
            None => forall|k: int| 0 <= k < domains@.len() ==> domains@[k]@.len() == 0,
        },
{
    let mut out: Vec<String> = Vec::new();
    let mut k: usize = 0;
    while k < domains.len()
        invariant
            0 <= k <= domains@.len(),
            forall|i: int, j: int| 0 <= i < j < out@.len() ==> out@[i]@ != out@[j]@,
            forall|i: int| 0 <= i < out@.len() ==> out@[i]@.len() > 0,
            forall|i: int| 0 <= i < out@.len() ==> has_domain(domains@, #[trigger] out@[i]@),
            forall|k2: int| 0 <= k2 < k && (#[trigger] domains@[k2]@).len() > 0
                ==> has_domain(out@, domains@[k2]@),
        decreases domains@.len() - k,
    {
        let d = &domains[k];
        if !d.as_str().is_empty() {
            if !vec_contains_str(&out, d.as_str()) {
                let ghost old_out = out@;
                out.push(d.clone());
                proof {
                    assert(out@[old_out.len() as int]@ == domains@[k as int]@);
                    assert forall|i: int| 0 <= i < out@.len() implies has_domain(
                        domains@,
                        #[trigger] out@[i]@,
                    ) by {
                        if i < old_out.len() {
                            assert(out@[i]@ == old_out[i]@);
                            assert(has_domain(domains@, old_out[i]@));
                        } else {
                            assert(out@[i]@ == domains@[k as int]@);
                        }
                    }
                    assert forall|k2: int|
                        0 <= k2 < k + 1 && (#[trigger] domains@[k2]@).len() > 0 implies has_domain(
                        out@,
                        domains@[k2]@,
                    ) by {
                        if k2 < k {
                            let i = choose|i: int|
                                0 <= i < old_out.len() && old_out[i]@ == domains@[k2]@;
                            assert(out@[i]@ == domains@[k2]@);
                        } else {
                            assert(out@[old_out.len() as int]@ == domains@[k2]@);
                        }
                    }
                }
            } else {
                proof {
                    assert(has_domain(out@, domains@[k as int]@));
                }
            }
        }
        k = k + 1;
    }
    if out.len() == 0 {
        proof {
            assert forall|k2: int| 0 <= k2 < domains@.len() implies domains@[k2]@.len()
                == 0 by {
                if domains@[k2]@.len() > 0 {
                    let i = choose|i: int|
                        0 <= i < out@.len() && out@[i]@ == domains@[k2]@;
                    assert(false);
                }
            }
        }
        None
    } else {
        Some(out)
    }
}

/// The configuration of the updater. Its domain list is non-empty, holds
/// no empty name and no name twice.
#[derive(Debug)]
pub struct Config {
    pub token: String,
    pub domains: Vec<String>,
    pub ipv4_enabled: bool,
    pub ipv6_enabled: bool,
    pub proxied: bool,
    pub update_interval: u64,
}

impl Config {
    /// The invariant the constructor establishes on the domain list.
    pub open spec fn wf(&self) -> bool {
        &&& self.domains@.len() > 0
        &&& forall|i: int, j: int| 0 <= i < j < self.domains@.len() ==> self.domains@[i]@
            != self.domains@[j]@
        &&& forall|i: int| 0 <= i < self.domains@.len() ==> self.domains@[i]@.len() > 0
    }

    /// Builds a configuration, normalizing the domain list. A list with
    /// no nonempty domain is refused.
    pub fn new(
        token: String,
        domains: Vec<String>,
        ipv4_enabled: bool,
        ipv6_enabled: bool,
        proxied: bool,
        update_interval: u64,
    ) -> (r: Option<Config>)
        ensures
            match r {
                Some(c) => {
                    &&& c.wf()
                    &&& c.token == token
                    &&& c.ipv4_enabled == ipv4_enabled
                    &&& c.ipv6_enabled == ipv6_enabled
                    &&& c.proxied == proxied
                    &&& c.update_interval == update_interval
                    &&& forall|i: int| 0 <= i < c.domains@.len() ==> has_domain(
                        domains@,
                        #[trigger] c.domains@[i]@,
                    )
                    &&& forall|k: int| 0 <= k < domains@.len()
                        && (#[trigger] domains@[k]@).len() > 0 ==> has_domain(
                        c.domains@,
                        domains@[k]@,
                    )
                },
                None => forall|k: int| 0 <= k < domains@.len() ==> domains@[k]@.len() == 0,
            },
    {
        match normalize_domains(domains) {
            Some(list) => Some(
                Config {
                    token,
                    domains: list,
                    ipv4_enabled,
                    ipv6_enabled,
                    proxied,
                    update_interval,
                },
            ),
            None => None,
        }
    }
}

} // verus!

//! The zone-id cache: a process-lifetime mapping from base domain to the
//! provider's zone identifier, populated lazily and never invalidated.
//!
//! The cache itself is sequential; the surrounding program serializes each
//! single read or insert under a lock, so concurrent misses for the same
//! base domain may each resolve the zone and insert in turn. The laws at
//! the end state that such races still leave exactly one final value.

use vstd::prelude::*;

verus! {

/// True when no two entries share a key.
pub open spec fn keys_unique(s: Seq<(String, String)>) -> bool {
    forall|i: int, j: int| 0 <= i < j < s.len() ==> s[i].0@ != s[j].0@
}

/// The mapping that a sequence of entries denotes; a later entry for the
/// same key wins.
pub open spec fn entries_map(s: Seq<(String, String)>) -> Map<Seq<char>, Seq<char>>
    decreases s.len(),
{
    if s.len() == 0 {
        Map::<Seq<char>, Seq<char>>::empty()
    } else {
        entries_map(s.drop_last()).insert(s.last().0@, s.last().1@)
    }
}

/// A key is in the mapping exactly when some entry carries it.
proof fn lemma_entries_map_domain(s: Seq<(String, String)>, k: Seq<char>)
    ensures
        entries_map(s).contains_key(k) <==> (exists|i: int| 0 <= i < s.len() && s[i].0@ == k),
    decreases s.len(),
{
    if s.len() > 0 {
        let prefix = s.drop_last();
        lemma_entries_map_domain(prefix, k);
        if s.last().0@ == k {
            assert(s[s.len() - 1].0@ == k);
        } else {
            if exists|i: int| 0 <= i < s.len() && s[i].0@ == k {
                let i = choose|i: int| 0 <= i < s.len() && s[i].0@ == k;
                assert(prefix[i].0@ == k);
            }
            if exists|i: int| 0 <= i < prefix.len() && prefix[i].0@ == k {
                let i = choose|i: int| 0 <= i < prefix.len() && prefix[i].0@ == k;
                assert(s[i].0@ == k);
            }
        }
    }
}

/// With unique keys, the entry that carries a key gives its value.
proof fn lemma_entries_map_value(s: Seq<(String, String)>, i: int)
    requires
        keys_unique(s),
        0 <= i < s.len(),
    ensures
        entries_map(s).contains_key(s[i].0@),
        entries_map(s)[s[i].0@] == s[i].1@,
    decreases s.len(),
{
    let prefix = s.drop_last();
    if i == s.len() - 1 {
    } else {
        assert(keys_unique(prefix)) by {
            assert(forall|a: int, b: int|
                0 <= a < b < prefix.len() ==> s[a].0@ != s[b].0@);
        }
        lemma_entries_map_value(prefix, i);
        assert(s.last().0@ != s[i].0@);
    }
}

/// With unique keys, replacing the entry that carries a key updates the
/// mapping at that key alone.
proof fn lemma_entries_map_update(s: Seq<(String, String)>, i: int, p: (String, String))
    requires
        keys_unique(s),
        0 <= i < s.len(),
        p.0@ == s[i].0@,
    ensures
        entries_map(s.update(i, p)) == entries_map(s).insert(p.0@, p.1@),
    decreases s.len(),
{
    let t = s.update(i, p);
    if i == s.len() - 1 {
        assert(t.drop_last() =~= s.drop_last());
        assert(entries_map(t) == entries_map(s.drop_last()).insert(p.0@, p.1@));
        assert(entries_map(s).insert(p.0@, p.1@) =~= entries_map(s.drop_last()).insert(
            p.0@,
            p.1@,
        ));
    } else {
        let prefix = s.drop_last();
        assert(keys_unique(prefix)) by {
            assert(forall|a: int, b: int|
                0 <= a < b < prefix.len() ==> s[a].0@ != s[b].0@);
        }
        lemma_entries_map_update(prefix, i, p);
        assert(t.drop_last() =~= prefix.update(i, p));
        assert(t.last() == s.last());
        assert(s[i].0@ != s.last().0@);
        assert(entries_map(t) == entries_map(prefix).insert(p.0@, p.1@).insert(
            s.last().0@,
            s.last().1@,
        ));
        assert(entries_map(prefix).insert(p.0@, p.1@).insert(s.last().0@, s.last().1@)
            =~= entries_map(prefix).insert(s.last().0@, s.last().1@).insert(p.0@, p.1@));
    }
}

/// The zone-id cache. Its view is the mapping from base domain to zone
/// id; entries are never removed.
pub struct ZoneCache {
    entries: Vec<(String, String)>,
}

impl View for ZoneCache {
    type V = Map<Seq<char>, Seq<char>>;

    closed spec fn view(&self) -> Map<Seq<char>, Seq<char>> {
        entries_map(self.entries@)
    }
}

impl ZoneCache {
    /// No two entries share a base domain.
    pub closed spec fn wf(&self) -> bool {
        keys_unique(self.entries@)
    }

    /// An empty cache.
    pub fn new() -> (c: ZoneCache)
        ensures
            c.wf(),
            c@ == Map::<Seq<char>, Seq<char>>::empty(),
    {
        ZoneCache { entries: Vec::new() }
    }

    fn find(&self, base: &str) -> (r: Option<usize>)
        requires
            self.wf(),
        ensures
            match r {
                Some(i) => i < self.entries@.len() && self.entries@[i as int].0@ == base@,
                None => forall|i: int| 0 <= i < self.entries@.len()
                    ==> self.entries@[i].0@ != base@,
            },
    {
        let mut i: usize = 0;
        while i < self.entries.len()
            invariant
                0 <= i <= self.entries@.len(),
                forall|j: int| 0 <= j < i ==> self.entries@[j].0@ != base@,
            decreases self.entries@.len() - i,
        {
            if crate::text::str_eq(self.entries[i].0.as_str(), base) {
                return Some(i);
            }
            i = i + 1;
        }
        None
    }

    /// The read path: the cached zone id of `base`, or nothing on a miss.
    pub fn lookup(&self, base: &str) -> (r: Option<String>)
        requires
            self.wf(),
        ensures
            match r {
                Some(z) => self@.contains_key(base@) && z@ == self@[base@],
                None => !self@.contains_key(base@),
            },
    {
        proof {
            lemma_entries_map_domain(self.entries@, base@);
        }
        match self.find(base) {
            Some(i) => {
                proof {
                    lemma_entries_map_value(self.entries@, i as int);
                }
                Some(self.entries[i].1.clone())
            },
            None => None,
        }
    }

    /// The write path after a zone resolution: stores `zone_id` under
    /// `base`, replacing whatever an earlier or racing resolution stored.
    pub fn insert(&mut self, base: String, zone_id: String)
        requires
            old(self).wf(),
        ensures
            final(self).wf(),
            final(self)@ == old(self)@.insert(base@, zone_id@),
    {
        proof {
            lemma_entries_map_domain(self.entries@, base@);
        }
        match self.find(base.as_str()) {
            Some(i) => {
                proof {
                    lemma_entries_map_update(self.entries@, i as int, (base, zone_id));
                }
                self.entries[i] = (base, zone_id);
                proof {
                    assert forall|a: int, b: int|
                        0 <= a < b < self.entries@.len() implies self.entries@[a].0@
                        != self.entries@[b].0@ by {
                        assert(old(self).entries@[a].0@ != old(self).entries@[b].0@);
                    }
                }
            },
            None => {
                self.entries.push((base, zone_id));
                proof {
                    let s = self.entries@;
                    assert(s.drop_last() =~= old(self).entries@);
                    assert forall|a: int, b: int| 0 <= a < b < s.len() implies s[a].0@
                        != s[b].0@ by {
                        if b < s.len() - 1 {
                            assert(old(self).entries@[a].0@ != old(self).entries@[b].0@);
                        }
                    }
                }
            },
        }
    }
}

/// Race tolerance of the read-check-then-insert sequence: when two
/// concurrent misses for the same base domain each resolve the zone and
/// insert in turn, the cache afterwards holds exactly one value for that
/// domain, the one written last.
pub proof fn lemma_cache_race(m: Map<Seq<char>, Seq<char>>, k: Seq<char>, v1: Seq<char>, v2: Seq<char>)
    ensures
        m.insert(k, v1).insert(k, v2) == m.insert(k, v2),
        m.insert(k, v1).insert(k, v2)[k] == v2,
        m.insert(k, v1).insert(k, v2).contains_key(k),
{
    assert(m.insert(k, v1).insert(k, v2) =~= m.insert(k, v2));
}

/// A hit never resolves again: once some resolution has inserted a value
/// for a base domain, every later lookup finds one, whatever other
/// domains were inserted in between.
pub proof fn lemma_cache_hit_is_stable(m: Map<Seq<char>, Seq<char>>, k: Seq<char>, k2: Seq<char>, v: Seq<char>, v2: Seq<char>)
    requires
        m.contains_key(k),
    ensures
        m.insert(k2, v2).contains_key(k),
        k2 != k ==> m.insert(k2, v2)[k] == m[k],
        m.insert(k, v)[k] == v,
{
}

} // verus!

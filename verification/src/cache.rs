//! The short-lived response cache: key-addressed, one fixed
//! time-to-live per cache instance, counted from insertion.
//!
//! Time is injected: every operation takes the current time in seconds,
//! so expiry is part of the verified contract rather than of a clock.
//! An entry is served strictly before `inserted + ttl` and is a miss
//! from that moment on; a new put for the same key replaces the entry
//! wholesale.

use vstd::prelude::*;

verus! {

/// One cached entry: its key, the stored value, and the insertion time
/// in seconds.
pub struct CacheEntry<V> {
    pub key: String,
    pub value: V,
    pub inserted: u64,
}

/// What a key resolves to among the stored entries: the value and
/// insertion time of the latest entry with that key.
pub open spec fn cache_lookup<V>(s: Seq<CacheEntry<V>>, k: Seq<char>) -> Option<(V, u64)>
    decreases s.len(),
{
    if s.len() == 0 {
        None
    } else if s.last().key@ == k {
        Some((s.last().value, s.last().inserted))
    } else {
        cache_lookup(s.drop_last(), k)
    }
}

/// A key-addressed cache whose entries expire a fixed time after
/// insertion.
pub struct ResponseCache<V> {
    entries: Vec<CacheEntry<V>>,
    ttl: u64,
}

impl<V> ResponseCache<V> {
    /// The entries hold at most one slot per key.
    pub closed spec fn wf(&self) -> bool {
        forall|i: int, j: int|
            0 <= i < j < self.entries@.len() ==> self.entries@[i].key@ != self.entries@[j].key@
    }

    /// The cache's fixed time-to-live, in seconds.
    pub closed spec fn ttl_of(&self) -> u64 {
        self.ttl
    }

    /// The stored entry for a key, if any.
    pub closed spec fn lookup(&self, k: Seq<char>) -> Option<(V, u64)> {
        cache_lookup(self.entries@, k)
    }

    /// What a get at time `now` returns: the stored value while the
    /// entry is younger than the time-to-live, a miss otherwise.
    pub open spec fn hit(&self, k: Seq<char>, now: u64) -> Option<V> {
        match self.lookup(k) {
            Some(p) => if (now as int) < p.1 + self.ttl_of() {
                Some(p.0)
            } else {
                None
            },
            None => None,
        }
    }

    /// An empty cache with the given time-to-live.
    pub fn new(ttl: u64) -> (c: Self)
        ensures
            c.wf(),
            c.ttl_of() == ttl,
            forall|k: Seq<char>| c.lookup(k) == None::<(V, u64)>,
    {
        ResponseCache { entries: Vec::new(), ttl }
    }

    /// Looks a key up at time `now`; an entry inserted at `t` is
    /// returned exactly while `now < t + ttl`.
    pub fn get(&self, key: &String, now: u64) -> (r: Option<&V>)
        requires
            self.wf(),
        ensures
            r.is_some() == self.hit(key@, now).is_some(),
            r matches Some(v) ==> self.hit(key@, now) == Some(*v),
    {
        let n = self.entries.len();
        for i in 0..n
            invariant
                n == self.entries@.len(),
                self.wf(),
                forall|j: int| 0 <= j < i ==> self.entries@[j].key@ != key@,
        {
            if self.entries[i].key == *key {
                proof {
                    lemma_lookup_found(self.entries@, i as int, key@);
                }
                if now < self.entries[i].inserted
                    || now - self.entries[i].inserted < self.ttl {
                    return Some(&self.entries[i].value);
                } else {
                    return None;
                }
            }
        }
        proof {
            lemma_lookup_absent(self.entries@, key@);
        }
        None
    }

    /// Stores a value for a key at time `now`, replacing any previous
    /// entry for that key; every other key is untouched.
    pub fn put(&mut self, key: String, value: V, now: u64)
        requires
            old(self).wf(),
        ensures
            final(self).wf(),
            final(self).ttl_of() == old(self).ttl_of(),
            final(self).lookup(key@) == Some((value, now)),
            forall|k: Seq<char>| k != key@ ==> final(self).lookup(k) == old(self).lookup(k),
    {
        let ghost s0 = self.entries@;
        let n = self.entries.len();
        let mut found: Option<usize> = None;
        for i in 0..n
            invariant
                n == self.entries@.len(),
                self.entries@ == s0,
                match found {
                    Some(fi) => fi < i && s0[fi as int].key@ == key@,
                    None => forall|j: int| 0 <= j < i ==> s0[j].key@ != key@,
                },
        {
            if found.is_none() && self.entries[i].key == key {
                found = Some(i);
            }
        }
        if let Some(i) = found {
            self.entries.remove(i);
            proof {
                lemma_lookup_remove_other(s0, i as int, key@);
            }
        }
        let ghost s1 = self.entries@;
        proof {
            if found is Some {
                assert(forall|k: Seq<char>|
                    k != key@ ==> cache_lookup(s1, k) == cache_lookup(s0, k));
            }
        }
        self.entries.push(CacheEntry { key, value, inserted: now });
        proof {
            assert(self.entries@.drop_last() =~= s1);
            assert forall|k: Seq<char>| k != key@ implies cache_lookup(self.entries@, k)
                == cache_lookup(s0, k) by {
                assert(cache_lookup(self.entries@, k) == cache_lookup(s1, k));
            }
        }
    }
}

/// With unique keys, finding a key at one index settles the lookup.
proof fn lemma_lookup_found<V>(s: Seq<CacheEntry<V>>, i: int, k: Seq<char>)
    requires
        0 <= i < s.len(),
        s[i].key@ == k,
        forall|a: int, b: int| 0 <= a < b < s.len() ==> s[a].key@ != s[b].key@,
    ensures
        cache_lookup(s, k) == Some((s[i].value, s[i].inserted)),
    decreases s.len(),
{
    if i == s.len() - 1 {
    } else {
        assert(s.last().key@ != k);
        lemma_lookup_found(s.drop_last(), i, k);
    }
}

/// A key that no entry holds resolves to nothing.
proof fn lemma_lookup_absent<V>(s: Seq<CacheEntry<V>>, k: Seq<char>)
    requires
        forall|j: int| 0 <= j < s.len() ==> s[j].key@ != k,
    ensures
        cache_lookup(s, k) == None::<(V, u64)>,
    decreases s.len(),
{
    if s.len() > 0 {
        lemma_lookup_absent(s.drop_last(), k);
    }
}

/// Removing the entry of one key leaves every other key's lookup as it
/// was.
proof fn lemma_lookup_remove_other<V>(s: Seq<CacheEntry<V>>, i: int, key: Seq<char>)
    requires
        0 <= i < s.len(),
        s[i].key@ == key,
    ensures
        forall|k: Seq<char>| k != key ==> cache_lookup(s.remove(i), k) == cache_lookup(s, k),
    decreases s.len(),
{
    assert forall|k: Seq<char>| k != key implies cache_lookup(s.remove(i), k) == cache_lookup(
        s,
        k,
    ) by {
        lemma_lookup_remove_one(s, i, k);
    }
}

proof fn lemma_lookup_remove_one<V>(s: Seq<CacheEntry<V>>, i: int, k: Seq<char>)
    requires
        0 <= i < s.len(),
        s[i].key@ != k,
    ensures
        cache_lookup(s.remove(i), k) == cache_lookup(s, k),
    decreases s.len(),
{
    if i == s.len() - 1 {
        assert(s.remove(i) =~= s.drop_last());
    } else {
        let t = s.remove(i);
        assert(t.last() == s.last());
        assert(t.drop_last() =~= s.drop_last().remove(i));
        if s.last().key@ == k {
        } else {
            lemma_lookup_remove_one(s.drop_last(), i, k);
        }
    }
}

/// A value put for a key is served back while its time-to-live lasts,
/// and is a miss from the moment the time-to-live has elapsed.
pub proof fn lemma_cache_ttl<V>(c: ResponseCache<V>, k: Seq<char>, v: V, t: u64, now: u64)
    requires
        c.lookup(k) == Some((v, t)),
    ensures
        (now as int) < t + c.ttl_of() ==> c.hit(k, now) == Some(v),
        (now as int) >= t + c.ttl_of() ==> c.hit(k, now) == None::<V>,
{
}

} // verus!

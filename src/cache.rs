use vstd::prelude::*;

verus! {

/// A cached decision and the clock reading (milliseconds) at which it was stored.
#[derive(Clone, Debug)]
pub struct CacheEntry {
    pub key: String,
    pub decision: bool,
    pub created_at: u64,
}

/// Time-bounded memo of decisions, keyed by cache key. The clock is supplied by the caller
/// as a reading in milliseconds; entries are evicted lazily when found stale.
pub struct DecisionCache {
    pub entries: Vec<CacheEntry>,
    pub ttl_secs: u64,
}

/// The first entry stored under `key`, if any.
pub open spec fn entry_of(entries: Seq<CacheEntry>, key: Seq<char>) -> Option<CacheEntry>
    decreases entries.len(),
{
    if entries.len() == 0 {
        None
    } else if entries[0].key@ == key {
        Some(entries[0])
    } else {
        entry_of(entries.drop_first(), key)
    }
}

/// Milliseconds elapsed from `created_at` to `now` (zero if the clock reads earlier).
pub open spec fn elapsed(created_at: u64, now: u64) -> int {
    if now >= created_at {
        now - created_at
    } else {
        0
    }
}

/// An entry is valid while less than `ttl_secs` seconds have elapsed since it was stored.
pub open spec fn is_fresh(created_at: u64, now: u64, ttl_secs: u64) -> bool {
    elapsed(created_at, now) < ttl_secs as int * 1000
}

/// What a lookup returns: the stored decision of a fresh entry, else nothing.
pub open spec fn cached_decision(entries: Seq<CacheEntry>, key: Seq<char>, now: u64, ttl_secs: u64) -> Option<bool> {
    match entry_of(entries, key) {
        Some(e) => if is_fresh(e.created_at, now, ttl_secs) {
            Some(e.decision)
        } else {
            None
        },
        None => None,
    }
}

/// Appending an entry leaves every key's first entry in place, and gives a key that had none
/// the appended one.
pub proof fn entry_of_push(s: Seq<CacheEntry>, e: CacheEntry, k: Seq<char>)
    ensures
        entry_of(s.push(e), k) == match entry_of(s, k) {
            Some(x) => Some(x),
            None => if e.key@ == k {
                Some(e)
            } else {
                None
            },
        },
    decreases s.len(),
{
    if s.len() > 0 {
        assert(s.push(e).drop_first() =~= s.drop_first().push(e));
        assert(s.push(e)[0] == s[0]);
        entry_of_push(s.drop_first(), e, k);
    } else {
        assert(s.push(e).drop_first() =~= Seq::<CacheEntry>::empty());
        assert(s.push(e)[0] == e);
        assert(entry_of(Seq::<CacheEntry>::empty(), k) is None);
        assert(entry_of(s, k) is None);
    }
}

impl DecisionCache {
    /// An empty cache whose entries stay valid for `ttl_secs` seconds.
    pub fn new(ttl_secs: u64) -> (r: DecisionCache)
        ensures
            r.entries@.len() == 0,
            r.ttl_secs == ttl_secs,
    {
        DecisionCache { entries: Vec::new(), ttl_secs }
    }

    /// Removes every entry stored under `key`; the entries of other keys are kept.
    pub fn evict(&mut self, key: &String)
        ensures
            final(self).ttl_secs == old(self).ttl_secs,
            entry_of(final(self).entries@, key@) is None,
            forall|k: Seq<char>| k != key@ ==> entry_of(#[trigger] final(self).entries@, k) == entry_of(old(self).entries@, k),
    {
        let mut kept: Vec<CacheEntry> = Vec::new();
        let mut i: usize = 0;
        while i < self.entries.len()
            invariant
                i <= self.entries@.len(),
                entry_of(kept@, key@) is None,
                forall|k: Seq<char>| k != key@ ==> entry_of(#[trigger] kept@, k) == entry_of(self.entries@.subrange(0, i as int), k),
            decreases self.entries@.len() - i,
        {
            let ghost before = kept@;
            let ghost prefix = self.entries@.subrange(0, i as int);
            assert(self.entries@.subrange(0, i as int + 1) =~= prefix.push(self.entries@[i as int]));
            proof {
                assert forall|k: Seq<char>| true implies entry_of(prefix.push(self.entries@[i as int]), k)
                    == match entry_of(prefix, k) {
                        Some(x) => Some(x),
                        None => if self.entries@[i as int].key@ == k { Some(self.entries@[i as int]) } else { None },
                    } by {
                    entry_of_push(prefix, self.entries@[i as int], k);
                }
            }
            if !(self.entries[i].key == *key) {
                let e = CacheEntry {
                    key: self.entries[i].key.clone(),
                    decision: self.entries[i].decision,
                    created_at: self.entries[i].created_at,
                };
                kept.push(e);
                proof {
                    assert forall|k: Seq<char>| true implies entry_of(kept@, k) == match entry_of(before, k) {
                        Some(x) => Some(x),
                        None => if e.key@ == k { Some(e) } else { None },
                    } by {
                        entry_of_push(before, e, k);
                    }
                    assert forall|k: Seq<char>| k != key@ implies entry_of(#[trigger] kept@, k)
                        == entry_of(self.entries@.subrange(0, i as int + 1), k) by {
                        if entry_of(before, k) is None && e.key@ == k {
                            assert(self.entries@[i as int].key@ == k);
                        }
                    }
                }
            }
            i = i + 1;
        }
        assert(self.entries@.subrange(0, i as int) =~= self.entries@);
        self.entries = kept;
    }

    /// Returns the decision stored under `key` when it is still valid at clock reading `now`
    /// (milliseconds). A stale entry is removed; a hit leaves the cache as it was.
    pub fn lookup(&mut self, key: &String, now: u64) -> (r: Option<bool>)
        ensures
            r == cached_decision(old(self).entries@, key@, now, old(self).ttl_secs),
            final(self).ttl_secs == old(self).ttl_secs,
            r is Some ==> final(self).entries@ == old(self).entries@,
            r is None ==> entry_of(final(self).entries@, key@) is None,
            forall|k: Seq<char>| k != key@ ==> entry_of(#[trigger] final(self).entries@, k) == entry_of(old(self).entries@, k),
    {
        let mut i: usize = 0;
        assert(self.entries@.subrange(0, self.entries@.len() as int) =~= self.entries@);
        while i < self.entries.len()
            invariant
                i <= self.entries@.len(),
                self.entries@ == old(self).entries@,
                self.ttl_secs == old(self).ttl_secs,
                entry_of(self.entries@, key@) == entry_of(self.entries@.subrange(i as int, self.entries@.len() as int), key@),
            decreases self.entries@.len() - i,
        {
            assert(self.entries@.subrange(i as int, self.entries@.len() as int).drop_first()
                =~= self.entries@.subrange(i as int + 1, self.entries@.len() as int));
            assert(self.entries@.subrange(i as int, self.entries@.len() as int)[0] == self.entries@[i as int]);
            if self.entries[i].key == *key {
                let created = self.entries[i].created_at;
                let age: u64 = if now >= created { now - created } else { 0 };
                if (age as u128) < (self.ttl_secs as u128) * 1000 {
                    return Some(self.entries[i].decision);
                }
                self.evict(key);
                return None;
            }
            i = i + 1;
        }
        None
    }

    /// Stores `decision` under `key` with clock reading `now`, replacing any earlier entry.
    pub fn store(&mut self, key: String, decision: bool, now: u64)
        ensures
            final(self).ttl_secs == old(self).ttl_secs,
            entry_of(final(self).entries@, key@) == Some(CacheEntry { key, decision, created_at: now }),
            forall|k: Seq<char>| k != key@ ==> entry_of(#[trigger] final(self).entries@, k) == entry_of(old(self).entries@, k),
    {
        self.evict(&key);
        let ghost before = self.entries@;
        let e = CacheEntry { key, decision, created_at: now };
        self.entries.push(e);
        proof {
            assert forall|k: Seq<char>| true implies entry_of(self.entries@, k) == match entry_of(before, k) {
                Some(x) => Some(x),
                None => if e.key@ == k { Some(e) } else { None },
            } by {
                entry_of_push(before, e, k);
            }
        }
    }
}

/// A decision stored at `stored_at` is returned again by a lookup at `now` without a new
/// fetch while fewer than `ttl_secs` seconds have elapsed, and is gone once they have.
pub proof fn cached_until_ttl(
    entries: Seq<CacheEntry>,
    key: Seq<char>,
    decision: bool,
    stored_at: u64,
    now: u64,
    ttl_secs: u64,
)
    requires
        entry_of(entries, key) matches Some(e) && e.decision == decision && e.created_at == stored_at,
        stored_at <= now,
    ensures
        (now - stored_at) < ttl_secs as int * 1000 ==> cached_decision(entries, key, now, ttl_secs) == Some(decision),
        (now - stored_at) >= ttl_secs as int * 1000 ==> cached_decision(entries, key, now, ttl_secs) is None,
{
}

} // verus!

//! A bounded, least-recently-used cache of extracted session titles.
//!
//! The cache keys titles by the session file's path and remembers the
//! modification time each title was read at, so an unchanged file is never
//! re-read while a changed one is.  It holds at most `capacity` entries,
//! evicting the least recently used; the clock (a file's modification time)
//! is injected by the caller rather than read here.

use vstd::prelude::*;
use crate::strings::str_eq;

verus! {

/// One cached title: the key, the modification time it was read at, and the
/// title itself.
pub struct CachedTitle {
    pub key: String,
    pub seen_mtime: u64,
    pub title: String,
}

/// What the cache answers for a key: the recorded time and title of the
/// first (most recent) entry with that key.
pub open spec fn spec_cache_lookup(s: Seq<CachedTitle>, key: Seq<char>) -> Option<(u64, Seq<
    char,
>)>
    decreases s.len(),
{
    if s.len() == 0 {
        None
    } else if s[0].key@ == key {
        Some((s[0].seen_mtime, s[0].title@))
    } else {
        spec_cache_lookup(s.drop_first(), key)
    }
}

proof fn lemma_cache_lookup_first(s: Seq<CachedTitle>, i: int)
    requires
        0 <= i < s.len(),
        s[i].key@ == s[i].key@,
        forall|k: int| 0 <= k < i ==> s[k].key@ != s[i].key@,
    ensures
        spec_cache_lookup(s, s[i].key@) == Some((s[i].seen_mtime, s[i].title@)),
    decreases i,
{
    if i > 0 {
        lemma_cache_lookup_first(s.drop_first(), i - 1);
    }
}

proof fn lemma_cache_lookup_none(s: Seq<CachedTitle>, key: Seq<char>)
    requires
        forall|k: int| 0 <= k < s.len() ==> (#[trigger] s[k]).key@ != key,
    ensures
        spec_cache_lookup(s, key) is None,
    decreases s.len(),
{
    if s.len() > 0 {
        lemma_cache_lookup_none(s.drop_first(), key);
    }
}

proof fn lemma_cache_lookup_remove_other(s: Seq<CachedTitle>, i: int, k2: Seq<char>)
    requires
        0 <= i < s.len(),
        s[i].key@ != k2,
    ensures
        spec_cache_lookup(s.remove(i), k2) == spec_cache_lookup(s, k2),
    decreases i,
{
    if i == 0 {
        assert(s.remove(0) =~= s.drop_first());
    } else {
        assert(s.remove(i)[0] == s[0]);
        assert(s.remove(i).drop_first() =~= s.drop_first().remove(i - 1));
        lemma_cache_lookup_remove_other(s.drop_first(), i - 1, k2);
    }
}

proof fn lemma_cache_lookup_prefix(s: Seq<CachedTitle>, n: int, key: Seq<char>)
    requires
        0 <= n <= s.len(),
    ensures
        spec_cache_lookup(s.take(n), key) is Some ==> spec_cache_lookup(s, key)
            == spec_cache_lookup(s.take(n), key),
    decreases n,
{
    if n > 0 && s.len() > 0 {
        assert(s.take(n)[0] == s[0]);
        if s[0].key@ != key {
            assert(s.take(n).drop_first() =~= s.drop_first().take(n - 1));
            lemma_cache_lookup_prefix(s.drop_first(), n - 1, key);
        }
    }
}

/// Bounded key–value store of extracted titles, most recently used first.
pub struct TitleCache {
    pub entries: Vec<CachedTitle>,
    pub capacity: usize,
}

/// First index holding `key`, if any.
fn cache_find(entries: &Vec<CachedTitle>, key: &str) -> (r: Option<usize>)
    ensures
        match r {
            Some(i) => i < entries@.len() && entries@[i as int].key@ == key@ && (forall|k: int|
                0 <= k < i ==> entries@[k].key@ != key@) && spec_cache_lookup(entries@, key@)
                == Some((entries@[i as int].seen_mtime, entries@[i as int].title@)),
            None => spec_cache_lookup(entries@, key@) is None,
        },
{
    let n = entries.len();
    let mut i: usize = 0;
    while i < n
        invariant
            i <= n,
            n == entries@.len(),
            forall|k: int| 0 <= k < i ==> entries@[k].key@ != key@,
        decreases n - i,
    {
        if str_eq(entries[i].key.as_str(), key) {
            proof {
                lemma_cache_lookup_first(entries@, i as int);
            }
            return Some(i);
        }
        i = i + 1;
    }
    proof {
        lemma_cache_lookup_none(entries@, key@);
    }
    None
}

impl TitleCache {
    /// An empty cache with the given capacity.
    pub fn new(capacity: usize) -> (c: Self)
        ensures
            c.entries@.len() == 0,
            c.capacity == capacity,
    {
        TitleCache { entries: Vec::new(), capacity }
    }

    /// Mark `key` as most recently used; a key the cache does not hold is
    /// left alone.  No answer changes.
    pub fn touch(&mut self, key: &str)
        ensures
            final(self).capacity == old(self).capacity,
            final(self).entries@.len() == old(self).entries@.len(),
            forall|k2: Seq<char>|
                spec_cache_lookup(final(self).entries@, k2) == spec_cache_lookup(
                    old(self).entries@,
                    k2,
                ),
            spec_cache_lookup(old(self).entries@, key@) is Some ==> final(self).entries@.len()
                > 0 && final(self).entries@[0].key@ == key@,
    {
        match cache_find(&self.entries, key) {
            Some(i) => {
                let ghost before = self.entries@;
                let e = self.entries.remove(i);
                self.entries.insert(0, e);
                proof {
                    assert(self.entries@ =~= seq![before[i as int]] + before.remove(i as int));
                    assert forall|k2: Seq<char>|
                        spec_cache_lookup(self.entries@, k2) == spec_cache_lookup(
                            before,
                            k2,
                        ) by {
                        assert(self.entries@[0] == before[i as int]);
                        assert(self.entries@.drop_first() =~= before.remove(i as int));
                        if k2 == before[i as int].key@ {
                            lemma_cache_lookup_first(before, i as int);
                        } else {
                            lemma_cache_lookup_remove_other(before, i as int, k2);
                        }
                    }
                }
            },
            None => {},
        }
    }

    /// Drop least-recently-used entries until the capacity holds.
    pub fn evict_if_needed(&mut self)
        ensures
            final(self).capacity == old(self).capacity,
            final(self).entries@ == old(self).entries@.take(
                if old(self).entries@.len() <= old(self).capacity {
                    old(self).entries@.len() as int
                } else {
                    old(self).capacity as int
                },
            ),
            final(self).entries@.len() <= old(self).capacity || final(self).entries@.len()
                == old(self).entries@.len(),
            forall|k2: Seq<char>|
                spec_cache_lookup(final(self).entries@, k2) is Some ==> spec_cache_lookup(
                    old(self).entries@,
                    k2,
                ) == spec_cache_lookup(final(self).entries@, k2),
    {
        let ghost before = self.entries@;
        if self.entries.len() > self.capacity {
            self.entries.truncate(self.capacity);
        }
        proof {
            if before.len() <= old(self).capacity {
                assert(self.entries@ =~= before.take(before.len() as int));
            }
            assert forall|k2: Seq<char>|
                spec_cache_lookup(self.entries@, k2) is Some implies spec_cache_lookup(
                before,
                k2,
            ) == spec_cache_lookup(self.entries@, k2) by {
                lemma_cache_lookup_prefix(before, self.entries@.len() as int, k2);
                assert(self.entries@ =~= before.take(self.entries@.len() as int));
            }
        }
    }

    /// The cached title for `key`, provided the file has not changed since
    /// it was recorded; a hit becomes the most recently used entry.
    pub fn get_if_fresh(&mut self, key: &str, modified: u64) -> (r: Option<String>)
        ensures
            final(self).capacity == old(self).capacity,
            forall|k2: Seq<char>|
                spec_cache_lookup(final(self).entries@, k2) == spec_cache_lookup(
                    old(self).entries@,
                    k2,
                ),
            match r {
                Some(t) => match spec_cache_lookup(old(self).entries@, key@) {
                    Some(e) => e.0 >= modified && t@ == e.1,
                    None => false,
                },
                None => match spec_cache_lookup(old(self).entries@, key@) {
                    Some(e) => e.0 < modified,
                    None => true,
                },
            },
    {
        match cache_find(&self.entries, key) {
            Some(i) => {
                if self.entries[i].seen_mtime >= modified {
                    let out = self.entries[i].title.clone();
                    self.touch(key);
                    Some(out)
                } else {
                    None
                }
            },
            None => None,
        }
    }

    /// Record a title for `key` at the given modification time, displacing
    /// any older entry for the key and evicting the least recently used
    /// entries beyond the capacity.
    pub fn put(&mut self, key: &str, modified: u64, title: String)
        ensures
            final(self).capacity == old(self).capacity,
            final(self).entries@.len() <= old(self).capacity || final(self).entries@.len() <= 1,
            old(self).capacity >= 1 ==> spec_cache_lookup(final(self).entries@, key@) == Some(
                (modified, title@),
            ),
            forall|k2: Seq<char>|
                k2 != key@ && spec_cache_lookup(final(self).entries@, k2) is Some
                    ==> spec_cache_lookup(old(self).entries@, k2) == spec_cache_lookup(
                    final(self).entries@,
                    k2,
                ),
    {
        let ghost before = self.entries@;
        match cache_find(&self.entries, key) {
            Some(i) => {
                let _old = self.entries.remove(i);
                proof {
                    assert forall|k2: Seq<char>| k2 != key@ implies spec_cache_lookup(
                        self.entries@,
                        k2,
                    ) == spec_cache_lookup(before, k2) by {
                        lemma_cache_lookup_remove_other(before, i as int, k2);
                    }
                }
            },
            None => {},
        }
        let ghost mid = self.entries@;
        let e = CachedTitle { key: crate::stream::new_string(key), seen_mtime: modified, title };
        self.entries.insert(0, e);
        proof {
            assert(self.entries@[0].key@ == key@);
            assert(self.entries@.drop_first() =~= mid);
            assert(spec_cache_lookup(self.entries@, key@) == Some((modified, e.title@)));
            assert forall|k2: Seq<char>| k2 != key@ implies spec_cache_lookup(
                self.entries@,
                k2,
            ) == spec_cache_lookup(mid, k2) by {
                assert(self.entries@[0].key@ != k2);
            }
        }
        let ghost full = self.entries@;
        self.evict_if_needed();
        proof {
            if old(self).capacity >= 1 {
                assert(self.entries@[0] == full[0]);
                assert(spec_cache_lookup(self.entries@, key@) == Some((modified, e.title@)));
            }
        }
    }
}

/// A fresh title cache at the default capacity: a conservative cap that
/// keeps popup rendering fast without unbounded growth.
pub fn get_title_cache() -> (c: TitleCache)
    ensures
        c.capacity == 512,
        c.entries@.len() == 0,
{
    TitleCache::new(512)
}

} // verus!

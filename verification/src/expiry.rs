//! A table of string keys with expiry times (milliseconds), as used for
//! session tokens and HSTS hosts: insertion replaces an earlier entry for the
//! same key, and expired entries can be dropped.

use vstd::prelude::*;
use crate::text::str_equal;

verus! {

/// Expiry of key `k` in the entry list `v` (the last entry for `k`).
pub open spec fn lookup(v: Seq<(String, u64)>, k: Seq<char>) -> Option<u64>
    decreases v.len(),
{
    if v.len() == 0 {
        None
    } else if v.last().0@ == k {
        Some(v.last().1)
    } else {
        lookup(v.drop_last(), k)
    }
}

/// The table as a map from key to expiry time.
pub open spec fn table(v: Seq<(String, u64)>) -> Map<Seq<char>, u64> {
    Map::new(|k: Seq<char>| lookup(v, k) is Some, |k: Seq<char>| lookup(v, k)->0)
}

/// The entries of `m` that have not expired at `now`.
pub open spec fn live(m: Map<Seq<char>, u64>, now: u64) -> Map<Seq<char>, u64> {
    Map::new(|k: Seq<char>| m.contains_key(k) && m[k] > now, |k: Seq<char>| m[k])
}

/// Whether `key` has an entry that has not expired at `now`.
pub open spec fn is_valid(m: Map<Seq<char>, u64>, key: Seq<char>, now: u64) -> bool {
    m.contains_key(key) && m[key] > now
}

/// String keys with expiry times.
pub struct ExpiryTable {
    entries: Vec<(String, u64)>,
}

proof fn lemma_lookup_push(v: Seq<(String, u64)>, e: (String, u64), k: Seq<char>)
    ensures
        lookup(v.push(e), k) == if e.0@ == k { Some(e.1) } else { lookup(v, k) },
{
    assert(v.push(e).drop_last() =~= v);
}

proof fn lemma_lookup_absent(v: Seq<(String, u64)>, k: Seq<char>)
    requires
        forall|i: int| 0 <= i < v.len() ==> (#[trigger] v[i]).0@ != k,
    ensures
        lookup(v, k) is None,
    decreases v.len(),
{
    if v.len() > 0 {
        lemma_lookup_absent(v.drop_last(), k);
    }
}

proof fn lemma_lookup_found(v: Seq<(String, u64)>, k: Seq<char>, i: int)
    requires
        0 <= i < v.len(),
        v[i].0@ == k,
        forall|a: int, b: int| 0 <= a < b < v.len() ==> (#[trigger] v[a]).0@ != (#[trigger] v[b]).0@,
    ensures
        lookup(v, k) == Some(v[i].1),
    decreases v.len(),
{
    if i < v.len() - 1 {
        assert(v.last().0@ != k);
        let w = v.drop_last();
        assert forall|a: int, b: int| 0 <= a < b < w.len() implies (#[trigger] w[a]).0@ != (#[trigger] w[b]).0@ by {
            assert(w[a] == v[a]);
            assert(w[b] == v[b]);
        }
        lemma_lookup_found(w, k, i);
    }
}

impl ExpiryTable {
    /// The table as a map from key to expiry.
    pub closed spec fn view(&self) -> Map<Seq<char>, u64> {
        table(self.entries@)
    }

    /// No key occurs twice.
    pub closed spec fn wf(&self) -> bool {
        forall|a: int, b: int| 0 <= a < b < self.entries@.len()
            ==> (#[trigger] self.entries@[a]).0@ != (#[trigger] self.entries@[b]).0@
    }

    /// An empty table.
    pub fn new() -> (r: ExpiryTable)
        ensures
            r.wf(),
            r.view() == Map::<Seq<char>, u64>::empty(),
    {
        let r = ExpiryTable { entries: Vec::new() };
        assert(r.view() =~= Map::<Seq<char>, u64>::empty());
        r
    }

    /// Stores `key` with the given expiry, replacing an earlier entry for it.
    pub fn insert(&mut self, key: String, expiry: u64)
        requires
            old(self).wf(),
        ensures
            final(self).wf(),
            final(self).view() == old(self).view().insert(key@, expiry),
    {
        let mut kept: Vec<(String, u64)> = Vec::new();
        let mut i: usize = 0;
        while i < self.entries.len()
            invariant
                i <= self.entries.len(),
                old(self).wf(),
                self.entries == old(self).entries,
                forall|a: int, b: int| 0 <= a < b < kept@.len() ==> (#[trigger] kept@[a]).0@ != (#[trigger] kept@[b]).0@,
                forall|a: int| 0 <= a < kept@.len() ==> (#[trigger] kept@[a]).0@ != key@,
                forall|k: Seq<char>| k != key@ ==> lookup(kept@, k) == lookup(self.entries@.take(i as int), k),
                forall|a: int| 0 <= a < kept@.len() ==> exists|b: int| 0 <= b < i && (#[trigger] kept@[a]).0@ == self.entries@[b].0@,
            decreases self.entries.len() - i,
        {
            let entry = &self.entries[i];
            let ghost prev = kept@;
            assert(self.entries@.take(i + 1).drop_last() =~= self.entries@.take(i as int));
            if !str_equal(entry.0.as_str(), key.as_str()) {
                kept.push((entry.0.clone(), entry.1));
                proof {
                    assert forall|k: Seq<char>| k != key@ implies lookup(kept@, k) == lookup(self.entries@.take(i + 1), k) by {
                        lemma_lookup_push(prev, kept@.last(), k);
                        assert(prev.push(kept@.last()) == kept@);
                        assert(self.entries@.take(i + 1).last() == self.entries@[i as int]);
                    }
                    assert forall|a: int, b: int| 0 <= a < b < kept@.len() implies (#[trigger] kept@[a]).0@ != (#[trigger] kept@[b]).0@ by {
                        if b == kept@.len() - 1 {
                            assert(kept@[a] == prev[a]);
                            let c = choose|c: int| 0 <= c < i && prev[a].0@ == self.entries@[c].0@;
                            assert(self.entries@[c].0@ != self.entries@[i as int].0@);
                        } else {
                            assert(kept@[a] == prev[a]);
                            assert(kept@[b] == prev[b]);
                        }
                    }
                    assert forall|a: int| 0 <= a < kept@.len() implies exists|b: int| 0 <= b < i + 1 && (#[trigger] kept@[a]).0@ == self.entries@[b].0@ by {
                        if a == kept@.len() - 1 {
                            assert(kept@[a].0@ == self.entries@[i as int].0@);
                        } else {
                            assert(kept@[a] == prev[a]);
                        }
                    }
                }
            } else {
                proof {
                    assert forall|k: Seq<char>| k != key@ implies lookup(kept@, k) == lookup(self.entries@.take(i + 1), k) by {
                        assert(self.entries@.take(i + 1).last().0@ == key@);
                    }
                }
            }
            i = i + 1;
        }
        assert(self.entries@.take(self.entries.len() as int) =~= self.entries@);
        let ghost before = kept@;
        kept.push((key, expiry));
        proof {
            let nv = kept@;
            assert(before.push(nv.last()) == nv);
            assert forall|k: Seq<char>| #[trigger] table(nv).contains_key(k) == old(self).view().insert(nv.last().0@, expiry).contains_key(k) by {
                lemma_lookup_push(before, nv.last(), k);
            }
            assert forall|k: Seq<char>| #[trigger] table(nv).contains_key(k) implies table(nv)[k] == old(self).view().insert(nv.last().0@, expiry)[k] by {
                lemma_lookup_push(before, nv.last(), k);
            }
            assert(table(nv) =~= old(self).view().insert(nv.last().0@, expiry));
            assert forall|a: int, b: int| 0 <= a < b < nv.len() implies (#[trigger] nv[a]).0@ != (#[trigger] nv[b]).0@ by {
                assert(nv[a] == before[a]);
                if b < nv.len() - 1 {
                    assert(nv[b] == before[b]);
                }
            }
        }
        self.entries = kept;
    }

    /// Removes the entries that have expired at `now_ms`.
    pub fn cleanup(&mut self, now_ms: u64)
        requires
            old(self).wf(),
        ensures
            final(self).wf(),
            final(self).view() == live(old(self).view(), now_ms),
    {
        let mut kept: Vec<(String, u64)> = Vec::new();
        let mut i: usize = 0;
        while i < self.entries.len()
            invariant
                i <= self.entries.len(),
                old(self).wf(),
                self.entries == old(self).entries,
                forall|a: int| 0 <= a < kept@.len() ==> exists|b: int| 0 <= b < i && (#[trigger] kept@[a]) == self.entries@[b],
                forall|a: int, b: int| 0 <= a < b < kept@.len() ==> (#[trigger] kept@[a]).0@ != (#[trigger] kept@[b]).0@,
                forall|k: Seq<char>| lookup(kept@, k) == match lookup(self.entries@.take(i as int), k) {
                    Some(e) => if e > now_ms { Some(e) } else { None },
                    None => None,
                },
            decreases self.entries.len() - i,
        {
            let ghost prev = kept@;
            assert(self.entries@.take(i + 1).drop_last() =~= self.entries@.take(i as int));
            assert(self.entries@.take(i + 1).last() == self.entries@[i as int]);
            if self.entries[i].1 > now_ms {
                kept.push((self.entries[i].0.clone(), self.entries[i].1));
                proof {
                    assert(prev.push(kept@.last()) == kept@);
                    assert forall|k: Seq<char>| lookup(kept@, k) == match lookup(self.entries@.take(i + 1), k) {
                        Some(e) => if e > now_ms { Some(e) } else { None },
                        None => None,
                    } by {
                        lemma_lookup_push(prev, kept@.last(), k);
                    }
                    assert forall|a: int, b: int| 0 <= a < b < kept@.len() implies (#[trigger] kept@[a]).0@ != (#[trigger] kept@[b]).0@ by {
                        if b == kept@.len() - 1 {
                            assert(kept@[a] == prev[a]);
                            let c = choose|c: int| 0 <= c < i && prev[a] == self.entries@[c];
                            assert(self.entries@[c].0@ != self.entries@[i as int].0@);
                        } else {
                            assert(kept@[a] == prev[a]);
                            assert(kept@[b] == prev[b]);
                        }
                    }
                    assert forall|a: int| 0 <= a < kept@.len() implies exists|b: int| 0 <= b < i + 1 && (#[trigger] kept@[a]) == self.entries@[b] by {
                        if a < kept@.len() - 1 {
                            assert(kept@[a] == prev[a]);
                        } else {
                            assert(kept@[a].0@ == self.entries@[i as int].0@);
                            assert(kept@[a].1 == self.entries@[i as int].1);
                        }
                    }
                }
            } else {
                proof {
                    assert forall|k: Seq<char>| lookup(kept@, k) == match lookup(self.entries@.take(i + 1), k) {
                        Some(e) => if e > now_ms { Some(e) } else { None },
                        None => None,
                    } by {
                        if self.entries@[i as int].0@ == k {
                            // The expired entry is the only one for `k`.
                            assert forall|a: int| 0 <= a < kept@.len() implies (#[trigger] kept@[a]).0@ != k by {
                                let c = choose|c: int| 0 <= c < i && kept@[a] == self.entries@[c];
                            }
                            lemma_lookup_absent(kept@, k);
                        }
                    }
                }
            }
            i = i + 1;
        }
        assert(self.entries@.take(self.entries.len() as int) =~= self.entries@);
        proof {
            let nv = kept@;
            assert forall|k: Seq<char>| #[trigger] table(nv).contains_key(k) == live(old(self).view(), now_ms).contains_key(k) by {}
            assert(table(nv) =~= live(old(self).view(), now_ms));
        }
        self.entries = kept;
    }

    /// Whether `key` has an entry that has not expired at `now_ms`.
    pub fn is_fresh(&self, key: &str, now_ms: u64) -> (r: bool)
        requires
            self.wf(),
        ensures
            r == is_valid(self.view(), key@, now_ms),
    {
        let mut i: usize = 0;
        while i < self.entries.len()
            invariant
                i <= self.entries.len(),
                self.wf(),
                forall|a: int| 0 <= a < i ==> (#[trigger] self.entries@[a]).0@ != key@,
            decreases self.entries.len() - i,
        {
            if str_equal(self.entries[i].0.as_str(), key) {
                proof {
                    lemma_lookup_found(self.entries@, key@, i as int);
                    assert(self.view().contains_key(key@));
                    assert(self.view()[key@] == self.entries@[i as int].1);
                }
                return self.entries[i].1 > now_ms;
            }
            i = i + 1;
        }
        proof {
            lemma_lookup_absent(self.entries@, key@);
            assert(!self.view().contains_key(key@));
        }
        false
    }
}

/// What a lookup gives back of an insertion: right after storing `key`
/// with expiry `e`, the key is fresh exactly at times before `e`, and every
/// other key is as fresh as before.
pub proof fn law_insert_then_fresh(m: Map<Seq<char>, u64>, key: Seq<char>, e: u64, other: Seq<char>, now: u64)
    requires
        other != key,
    ensures
        is_valid(m.insert(key, e), key, now) == (now < e),
        is_valid(m.insert(key, e), other, now) == is_valid(m, other, now),
{
}

/// Removing expired entries twice at the same time changes nothing more.
pub proof fn law_cleanup_idempotent(m: Map<Seq<char>, u64>, now: u64)
    ensures
        live(live(m, now), now) == live(m, now),
{
    assert(live(live(m, now), now) =~= live(m, now));
}

} // verus!

//! Per-domain stream isolation: each domain gets its own isolation token, so
//! streams for different domains never share a circuit. The table is bounded
//! (the least recently used domain is dropped) and old entries expire.
//! Times are milliseconds on the caller's monotonic clock.

use vstd::prelude::*;
use crate::text::str_equal;

verus! {

/// Largest number of domains kept.
pub const MAX_ISOLATION_TOKENS: usize = 100;

/// One domain's isolation token and when it was last used.
pub struct IsolationEntry {
    pub domain: String,
    pub token: u64,
    pub last_used_ms: u64,
}

/// The entries as plain values: (domain, token, last use).
pub open spec fn entry_views(v: Seq<IsolationEntry>) -> Seq<(Seq<char>, u64, u64)> {
    v.map_values(|e: IsolationEntry| (e.domain@, e.token, e.last_used_ms))
}

/// Isolation tokens by domain.
pub struct IsolationTable {
    entries: Vec<IsolationEntry>,
    next_token: u64,
}

/// Index of the entry for `d`, if any.
pub open spec fn find(v: Seq<(Seq<char>, u64, u64)>, d: Seq<char>) -> Option<int> {
    if exists|i: int| 0 <= i < v.len() && (#[trigger] v[i]).0 == d {
        Some(choose|i: int| 0 <= i < v.len() && (#[trigger] v[i]).0 == d)
    } else {
        None
    }
}

/// No domain occurs twice.
pub open spec fn unique_domains(v: Seq<(Seq<char>, u64, u64)>) -> bool {
    forall|i: int, j: int| 0 <= i < j < v.len() ==> (#[trigger] v[i]).0 != (#[trigger] v[j]).0
}

/// The token that the entries give domain `d`, if any.
pub open spec fn token_in(v: Seq<(Seq<char>, u64, u64)>, d: Seq<char>) -> Option<u64> {
    match find(v, d) {
        Some(i) => Some(v[i].1),
        None => None,
    }
}

/// The entries after domain `d` was used with token `t` at `now`: its entry
/// refreshed in place, or a new entry appended.
pub open spec fn touched(v: Seq<(Seq<char>, u64, u64)>, d: Seq<char>, t: u64, now: u64) -> Seq<
    (Seq<char>, u64, u64),
> {
    match find(v, d) {
        Some(i) => v.update(i, (d, t, now)),
        None => v.push((d, t, now)),
    }
}

/// `after` is what the bounded table keeps of `upd`: all of it within the
/// bound, and otherwise all but one entry with the earliest last use.
pub open spec fn bounded_by_lru(upd: Seq<(Seq<char>, u64, u64)>, after: Seq<(Seq<char>, u64, u64)>) -> bool {
    if upd.len() <= MAX_ISOLATION_TOKENS {
        after == upd
    } else {
        exists|k: int|
            0 <= k < upd.len() && (forall|j: int| 0 <= j < upd.len() ==> upd[k].2 <= (#[trigger] upd[j]).2)
                && after == upd.remove(k)
    }
}

impl IsolationTable {
    pub closed spec fn view(&self) -> Seq<(Seq<char>, u64, u64)> {
        entry_views(self.entries@)
    }

    pub closed spec fn next(&self) -> u64 {
        self.next_token
    }

    /// Domains occur once, tokens occur once, and every token was handed out
    /// before `next`.
    pub open spec fn wf(&self) -> bool {
        &&& forall|i: int, j: int| 0 <= i < j < self.view().len() ==> (#[trigger] self.view()[i]).0 != (#[trigger] self.view()[j]).0
        &&& forall|i: int, j: int| 0 <= i < j < self.view().len() ==> (#[trigger] self.view()[i]).1 != (#[trigger] self.view()[j]).1
        &&& forall|i: int| 0 <= i < self.view().len() ==> (#[trigger] self.view()[i]).1 < self.next()
    }

    /// The token of domain `d`, if it has one.
    pub open spec fn token_of(&self, d: Seq<char>) -> Option<u64> {
        token_in(self.view(), d)
    }

    /// An empty table; the first token handed out is 0.
    pub fn new() -> (r: IsolationTable)
        ensures
            r.wf(),
            r.view().len() == 0,
            r.next() == 0,
    {
        let r = IsolationTable { entries: Vec::new(), next_token: 0 };
        assert(r.view() =~= Seq::empty());
        r
    }

    /// Number of domains in the table.
    pub fn len(&self) -> (n: usize)
        ensures
            n == self.view().len(),
    {
        self.entries.len()
    }

    fn position(&self, domain: &str) -> (r: Option<usize>)
        requires
            self.wf(),
        ensures
            match r {
                Some(i) => i < self.view().len() && self.view()[i as int].0 == domain@ && find(self.view(), domain@) == Some(i as int),
                None => find(self.view(), domain@) is None,
            },
    {
        let mut i: usize = 0;
        while i < self.entries.len()
            invariant
                i <= self.entries.len(),
                self.wf(),
                forall|j: int| 0 <= j < i ==> (#[trigger] self.view()[j]).0 != domain@,
            decreases self.entries.len() - i,
        {
            assert(self.view().len() == self.entries@.len());
            assert(self.view()[i as int].0 == self.entries@[i as int].domain@);
            if str_equal(self.entries[i].domain.as_str(), domain) {
                proof {
                    let k = choose|k: int| 0 <= k < self.view().len() && (#[trigger] self.view()[k]).0 == domain@;
                    if k != i {
                        if k < i {
                        } else {
                            assert(self.view()[i as int].0 != self.view()[k].0);
                        }
                    }
                }
                return Some(i);
            }
            i = i + 1;
        }
        None
    }

    /// The isolation token for `domain`, used at `now_ms`: the domain's
    /// existing token, or a new one never handed out before. The domain's
    /// last use becomes `now_ms`, and every other domain keeps its entry.
    /// When the table then holds more than [`MAX_ISOLATION_TOKENS`] domains,
    /// one least recently used domain is dropped.
    pub fn get_or_create(&mut self, domain: &str, now_ms: u64) -> (t: u64)
        requires
            old(self).wf(),
            old(self).next() < u64::MAX,
            old(self).view().len() <= MAX_ISOLATION_TOKENS,
        ensures
            final(self).wf(),
            final(self).view().len() <= MAX_ISOLATION_TOKENS,
            old(self).token_of(domain@) matches Some(k) ==> t == k,
            old(self).token_of(domain@) is None ==> t == old(self).next() && final(self).next() == old(self).next() + 1,
            old(self).token_of(domain@) is Some ==> final(self).next() == old(self).next(),
            bounded_by_lru(touched(old(self).view(), domain@, t, now_ms), final(self).view()),
            (forall|i: int| 0 <= i < old(self).view().len() ==> (#[trigger] old(self).view()[i]).2 < now_ms)
                ==> final(self).token_of(domain@) == Some(t),
    {
        let t;
        let ghost pos: int;
        match self.position(domain) {
            Some(i) => {
                t = self.entries[i].token;
                let d = self.entries[i].domain.clone();
                let ghost before = self.view();
                self.entries.set(i, IsolationEntry { domain: d, token: t, last_used_ms: now_ms });
                proof {
                    pos = i as int;
                    assert(self.view() =~= before.update(i as int, (domain@, t, now_ms)));
                }
            },
            None => {
                t = self.next_token;
                let ghost before = self.view();
                self.entries.push(IsolationEntry { domain: domain.to_owned(), token: t, last_used_ms: now_ms });
                self.next_token = self.next_token + 1;
                proof {
                    pos = before.len() as int;
                    assert(self.view() =~= before.push((domain@, t, now_ms)));
                }
            },
        }
        assert(self.wf());
        assert(self.view()[pos].0 == domain@ && self.view()[pos].1 == t && self.view()[pos].2 == now_ms);
        assert(forall|k: int| 0 <= k < self.view().len() && k != pos ==> k < old(self).view().len() && #[trigger] self.view()[k] == old(self).view()[k]);
        assert(self.view().len() <= old(self).view().len() + 1);
        assert(self.view() == touched(old(self).view(), domain@, t, now_ms));
        if self.entries.len() > MAX_ISOLATION_TOKENS {
            let oldest = self.oldest_index();
            let ghost before = self.view();
            self.entries.remove(oldest);
            proof {
                assert(self.view() =~= before.remove(oldest as int));
                assert(forall|j: int| 0 <= j < before.len() ==> before[oldest as int].2 <= (#[trigger] before[j]).2);
                assert forall|i: int, j: int| 0 <= i < j < self.view().len() implies (#[trigger] self.view()[i]).0 != (#[trigger] self.view()[j]).0 by {
                    let a = if i < oldest { i } else { i + 1 };
                    let b = if j < oldest { j } else { j + 1 };
                    assert(self.view()[i] == before[a]);
                    assert(self.view()[j] == before[b]);
                }
                assert forall|i: int, j: int| 0 <= i < j < self.view().len() implies (#[trigger] self.view()[i]).1 != (#[trigger] self.view()[j]).1 by {
                    let a = if i < oldest { i } else { i + 1 };
                    let b = if j < oldest { j } else { j + 1 };
                    assert(self.view()[i] == before[a]);
                    assert(self.view()[j] == before[b]);
                }
                assert forall|i: int| 0 <= i < self.view().len() implies (#[trigger] self.view()[i]).1 < self.next() by {
                    let a = if i < oldest { i } else { i + 1 };
                    assert(self.view()[i] == before[a]);
                }
                if forall|i: int| 0 <= i < old(self).view().len() ==> (#[trigger] old(self).view()[i]).2 < now_ms {
                    // The entry just used is the newest, so it is not the one dropped.
                    let other = if pos == 0 { 1int } else { 0int };
                    assert(before[other] == old(self).view()[other]);
                    assert(before[other].2 < now_ms);
                    assert(before[oldest as int].2 <= before[other].2);
                    assert(oldest as int != pos);
                    let np = if pos < oldest { pos } else { pos - 1 };
                    assert(self.view()[np] == before[pos]);
                }
            }
        }
        t
    }

    /// Index of an entry with the earliest last use.
    fn oldest_index(&self) -> (r: usize)
        requires
            self.entries.len() > 0,
        ensures
            r < self.view().len(),
            forall|i: int| 0 <= i < self.view().len() ==> self.view()[r as int].2 <= (#[trigger] self.view()[i]).2,
    {
        let mut best: usize = 0;
        let mut i: usize = 1;
        while i < self.entries.len()
            invariant
                1 <= i <= self.entries.len(),
                best < i,
                forall|j: int| 0 <= j < i ==> self.view()[best as int].2 <= (#[trigger] self.view()[j]).2,
            decreases self.entries.len() - i,
        {
            if self.entries[i].last_used_ms < self.entries[best].last_used_ms {
                best = i;
            }
            i = i + 1;
        }
        best
    }

    /// Drops the domains last used more than `max_age_ms` before `now_ms`
    /// (an entry stamped after `now_ms` counts as age 0).
    pub fn cleanup(&mut self, max_age_ms: u64, now_ms: u64)
        requires
            old(self).wf(),
        ensures
            final(self).wf(),
            final(self).next() == old(self).next(),
            final(self).view() == old(self).view().filter(recent(max_age_ms, now_ms)),
    {
        let ghost keep = recent(max_age_ms, now_ms);
        let mut kept: Vec<IsolationEntry> = Vec::new();
        let ghost start = self.view();
        let mut i: usize = 0;
        while i < self.entries.len()
            invariant
                i <= self.entries.len(),
                self.view() == start,
                start == old(self).view(),
                old(self).wf(),
                keep == recent(max_age_ms, now_ms),
                entry_views(kept@) == start.take(i as int).filter(keep),
            decreases self.entries.len() - i,
        {
            reveal_with_fuel(Seq::<_>::filter, 1);
            assert(start.len() == self.entries@.len());
            assert(start.take(i + 1).drop_last() =~= start.take(i as int));
            assert(start.take(i + 1).len() == i + 1);
            let e = &self.entries[i];
            let ghost ev = (e.domain@, e.token, e.last_used_ms);
            assert(start[i as int] == ev);
            assert(start.take(i + 1).last() == ev);
            let a: u64 = if now_ms >= e.last_used_ms { now_ms - e.last_used_ms } else { 0 };
            assert(a == age(ev.2, now_ms));
            let ghost prev = kept@;
            if a <= max_age_ms {
                kept.push(IsolationEntry { domain: e.domain.clone(), token: e.token, last_used_ms: e.last_used_ms });
                assert(keep(ev));
                assert(start.take(i + 1).filter(keep) == start.take(i as int).filter(keep).push(ev));
                assert(entry_views(kept@) =~= entry_views(prev).push(ev));
            } else {
                assert(!keep(ev));
                assert(start.take(i + 1).filter(keep) == start.take(i as int).filter(keep));
            }
            i = i + 1;
        }
        assert(start.take(start.len() as int) =~= start);
        self.entries = kept;
        proof {
            lemma_filter_preserves_wf(start, keep, self.next());
        }
    }
}

/// Entries used at most `max_age_ms` before `now_ms`.
pub open spec fn recent(max_age_ms: u64, now_ms: u64) -> spec_fn((Seq<char>, u64, u64)) -> bool {
    |e: (Seq<char>, u64, u64)| age(e.2, now_ms) <= max_age_ms
}

/// Age of a last use at `ts`, seen at `now` (0 when `ts` is later).
pub open spec fn age(ts: u64, now: u64) -> u64 {
    if now >= ts { (now - ts) as u64 } else { 0 }
}

proof fn lemma_filter_preserves_wf(s: Seq<(Seq<char>, u64, u64)>, f: spec_fn((Seq<char>, u64, u64)) -> bool, next: u64)
    requires
        forall|i: int, j: int| 0 <= i < j < s.len() ==> (#[trigger] s[i]).0 != (#[trigger] s[j]).0,
        forall|i: int, j: int| 0 <= i < j < s.len() ==> (#[trigger] s[i]).1 != (#[trigger] s[j]).1,
        forall|i: int| 0 <= i < s.len() ==> (#[trigger] s[i]).1 < next,
    ensures
        forall|i: int, j: int| 0 <= i < j < s.filter(f).len() ==> (#[trigger] s.filter(f)[i]).0 != (#[trigger] s.filter(f)[j]).0,
        forall|i: int, j: int| 0 <= i < j < s.filter(f).len() ==> (#[trigger] s.filter(f)[i]).1 != (#[trigger] s.filter(f)[j]).1,
        forall|i: int| 0 <= i < s.filter(f).len() ==> (#[trigger] s.filter(f)[i]).1 < next,
    decreases s.len(),
{
    reveal_with_fuel(Seq::<_>::filter, 1);
    if s.len() > 0 {
        let p = s.drop_last();
        assert forall|i: int, j: int| 0 <= i < j < p.len() implies (#[trigger] p[i]).0 != (#[trigger] p[j]).0 by {
            assert(p[i] == s[i]);
            assert(p[j] == s[j]);
        }
        assert forall|i: int, j: int| 0 <= i < j < p.len() implies (#[trigger] p[i]).1 != (#[trigger] p[j]).1 by {
            assert(p[i] == s[i]);
            assert(p[j] == s[j]);
        }
        lemma_filter_preserves_wf(p, f, next);
        let pf = p.filter(f);
        if f(s.last()) {
            assert(s.filter(f) == pf.push(s.last()));
            assert forall|i: int| 0 <= i < pf.len() implies (#[trigger] pf[i]).0 != s.last().0 && pf[i].1 != s.last().1 by {
                lemma_filter_from(p, f);
                let k = choose|k: int| 0 <= k < p.len() && p[k] == pf[i];
                assert(p[k] == s[k]);
            }
        }
    }
}

proof fn lemma_filter_from<A>(s: Seq<A>, f: spec_fn(A) -> bool)
    ensures
        forall|i: int| 0 <= i < s.filter(f).len() ==> exists|k: int| 0 <= k < s.len() && s[k] == #[trigger] s.filter(f)[i],
    decreases s.len(),
{
    reveal_with_fuel(Seq::<_>::filter, 1);
    if s.len() > 0 {
        let p = s.drop_last();
        lemma_filter_from(p, f);
        assert forall|i: int| 0 <= i < s.filter(f).len() implies exists|k: int| 0 <= k < s.len() && s[k] == #[trigger] s.filter(f)[i] by {
            if f(s.last()) {
                assert(s.filter(f) == p.filter(f).push(s.last()));
                if i == p.filter(f).len() {
                    assert(s[s.len() - 1] == s.filter(f)[i]);
                } else {
                    let k = choose|k: int| 0 <= k < p.len() && p[k] == #[trigger] p.filter(f)[i];
                    assert(s[k] == s.filter(f)[i]);
                }
            } else {
                assert(s.filter(f) == p.filter(f));
                let k = choose|k: int| 0 <= k < p.len() && p[k] == #[trigger] p.filter(f)[i];
                assert(s[k] == s.filter(f)[i]);
            }
        }
    }
}

/// Different domains always hold different isolation tokens.
pub proof fn law_domains_isolated(t: IsolationTable, d1: Seq<char>, d2: Seq<char>)
    requires
        t.wf(),
        d1 != d2,
        t.token_of(d1) is Some,
        t.token_of(d2) is Some,
    ensures
        t.token_of(d1) != t.token_of(d2),
{
    let i = find(t.view(), d1)->0;
    let j = find(t.view(), d2)->0;
    assert(t.view()[i].0 == d1);
    assert(t.view()[j].0 == d2);
    if i < j {
    } else if j < i {
    }
}

proof fn lemma_token_at(v: Seq<(Seq<char>, u64, u64)>, m: int, e: Seq<char>)
    requires
        unique_domains(v),
        0 <= m < v.len(),
        v[m].0 == e,
    ensures
        token_in(v, e) == Some(v[m].1),
{
    let i = find(v, e)->0;
    assert(v[i].0 == e);
    if i < m {
    } else if m < i {
    }
}

/// A domain keeps its token while other domains are used: after a use of
/// domain `d` turns the entries `a` into `b`, any other domain `e` that is
/// still in the table (not evicted) has the token it had before.
pub proof fn law_other_domains_keep_tokens(
    a: Seq<(Seq<char>, u64, u64)>,
    b: Seq<(Seq<char>, u64, u64)>,
    d: Seq<char>,
    t: u64,
    now: u64,
    e: Seq<char>,
)
    requires
        unique_domains(a),
        bounded_by_lru(touched(a, d, t, now), b),
        e != d,
        token_in(b, e) is Some,
    ensures
        token_in(b, e) == token_in(a, e),
{
    let upd = touched(a, d, t, now);
    let j = find(b, e)->0;
    assert(b[j].0 == e);
    // The entry of `e` in `b` is one of `upd`, and not the touched one.
    let u: int = if upd.len() <= MAX_ISOLATION_TOKENS {
        j
    } else {
        let k = choose|k: int|
            0 <= k < upd.len() && (forall|jj: int| 0 <= jj < upd.len() ==> upd[k].2 <= (#[trigger] upd[jj]).2)
                && b == upd.remove(k);
        if j < k { j } else { j + 1 }
    };
    assert(upd[u] == b[j]);
    assert(u < a.len() && upd[u] == a[u]);
    lemma_token_at(a, u, e);
}

/// A domain keeps its token across a cleanup that keeps it (it has not
/// expired).
pub proof fn law_cleanup_keeps_tokens(a: Seq<(Seq<char>, u64, u64)>, max_age_ms: u64, now_ms: u64, e: Seq<char>)
    requires
        unique_domains(a),
        token_in(a.filter(recent(max_age_ms, now_ms)), e) is Some,
    ensures
        token_in(a.filter(recent(max_age_ms, now_ms)), e) == token_in(a, e),
{
    let f = a.filter(recent(max_age_ms, now_ms));
    let j = find(f, e)->0;
    assert(f[j].0 == e);
    lemma_filter_from(a, recent(max_age_ms, now_ms));
    let m = choose|m: int| 0 <= m < a.len() && a[m] == f[j];
    lemma_token_at(a, m, e);
}

} // verus!

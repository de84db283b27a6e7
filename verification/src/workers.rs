//! Proxy workers of the HTTP client: the round-robin pool of worker URLs and
//! the request URL that asks a worker to fetch a target.

use vstd::prelude::*;
use vstd::utf8::encode_utf8;
use std::collections::VecDeque;
use crate::text::{contains_char, copy_string, push_char, str_lines, text_lines, trim, trimmed, views};

verus! {

/// Bytes that URL encoding leaves as they are: ASCII letters and digits and
/// `-`, `.`, `_`, `~`.
pub open spec fn unreserved(b: u8) -> bool {
    (0x30 <= b <= 0x39) || (0x41 <= b <= 0x5A) || (0x61 <= b <= 0x7A) || b == 0x2D || b == 0x2E || b == 0x5F
        || b == 0x7E
}

/// Upper-case hexadecimal digit of `d < 16`.
pub open spec fn hex_digit(d: u8) -> char {
    if d < 10 { (0x30 + d) as char } else { (0x41 + d - 10) as char }
}

/// Percent-encoding of a byte string: unreserved bytes stay, every other
/// byte becomes `%` and two upper-case hexadecimal digits.
pub open spec fn percent_encoded(b: Seq<u8>) -> Seq<char>
    decreases b.len(),
{
    if b.len() == 0 {
        Seq::empty()
    } else {
        let c = b.last();
        let tail = if unreserved(c) {
            seq![c as char]
        } else {
            seq!['%', hex_digit(c / 16), hex_digit(c % 16)]
        };
        percent_encoded(b.drop_last()) + tail
    }
}

/// `urlencoding::encode`: percent-encodes every byte of the UTF-8 encoding
/// of `s` except ASCII letters, digits and `-`, `_`, `.`, `~`, with
/// upper-case hexadecimal digits (as the crate's documentation and source
/// show).
#[verifier::external_body]
fn url_encode(s: &str) -> (r: String)
    ensures
        r@ == percent_encoded(encode_utf8(s@)),
{
    urlencoding::encode(s).into_owned()
}

/// Appends the characters of `t` to `s`.
pub fn append_str(s: &mut String, t: &str)
    ensures
        final(s)@ == old(s)@ + t@,
{
    let v = crate::text::chars_of(t);
    let mut i: usize = 0;
    while i < v.len()
        invariant
            i <= v.len(),
            v@ == t@,
            s@ == old(s)@ + t@.take(i as int),
        decreases v.len() - i,
    {
        push_char(s, v[i]);
        assert(t@.take(i + 1) =~= t@.take(i as int).push(t@[i as int]));
        i = i + 1;
    }
    assert(t@.take(v.len() as int) =~= t@);
}

/// The URL that asks `worker` to fetch `url`: the worker URL, then `&` if it
/// already has a query (holds a `?`) and `?` otherwise, then `url=` and the
/// percent-encoded target.
pub open spec fn proxied(worker: Seq<char>, url: Seq<char>) -> Seq<char> {
    worker + seq![if worker.contains('?') { '&' } else { '?' }] + seq!['u', 'r', 'l', '=']
        + percent_encoded(encode_utf8(url))
}

/// Builds the request URL for sending `url` through `worker`.
pub fn proxy_target(worker: &str, url: &str) -> (r: String)
    ensures
        r@ == proxied(worker@, url@),
{
    let mut target = String::new();
    append_str(&mut target, worker);
    if contains_char(worker, '?') {
        push_char(&mut target, '&');
    } else {
        push_char(&mut target, '?');
    }
    push_char(&mut target, 'u');
    push_char(&mut target, 'r');
    push_char(&mut target, 'l');
    push_char(&mut target, '=');
    let encoded = url_encode(url);
    append_str(&mut target, encoded.as_str());
    assert(target@ =~= proxied(worker@, url@));
    target
}

/// One step of the round robin: the first worker moves to the back.
pub open spec fn rotate_once(s: Seq<Seq<char>>) -> Seq<Seq<char>> {
    if s.len() == 0 { s } else { s.drop_first().push(s[0]) }
}

/// The pool after `k` steps of the round robin.
pub open spec fn rotate_n(s: Seq<Seq<char>>, k: nat) -> Seq<Seq<char>>
    decreases k,
{
    if k == 0 { s } else { rotate_once(rotate_n(s, (k - 1) as nat)) }
}

/// The proxy workers (URLs, tried in turn) and the token sent to them.
pub struct WorkerPool {
    urls: VecDeque<String>,
    token: Option<String>,
}

impl WorkerPool {
    /// The worker URLs, the next one first.
    pub closed spec fn view(&self) -> Seq<Seq<char>> {
        views(self.urls@)
    }

    /// The token sent with proxied requests.
    pub closed spec fn token_view(&self) -> Option<Seq<char>> {
        match self.token { Some(t) => Some(t@), None => None }
    }

    /// A pool without workers or token.
    pub fn new() -> (r: WorkerPool)
        ensures
            r@ == Seq::<Seq<char>>::empty(),
            r.token_view() is None,
    {
        let r = WorkerPool { urls: VecDeque::new(), token: None };
        assert(r@ =~= Seq::<Seq<char>>::empty());
        r
    }

    /// Replaces the workers (kept in the given order) and the token.
    pub fn set_config(&mut self, workers: Vec<String>, token: Option<String>)
        ensures
            final(self)@ == views(workers@),
            final(self).token_view() == (match token { Some(t) => Some(t@), None => None }),
    {
        let mut q: VecDeque<String> = VecDeque::new();
        let mut i: usize = 0;
        while i < workers.len()
            invariant
                i <= workers.len(),
                views(q@) == views(workers@.take(i as int)),
            decreases workers.len() - i,
        {
            let w = copy_string(&workers[i]);
            let ghost pq = q@;
            q.push_back(w);
            proof {
                assert(views(pq).len() == i);
                assert forall|j: int| 0 <= j <= i implies views(q@)[j] == views(workers@.take(i + 1))[j] by {
                    if j < i {
                        assert(q@[j] == pq[j]);
                        assert(views(pq)[j] == views(workers@.take(i as int))[j]);
                    }
                }
                assert(views(q@) =~= views(workers@.take(i + 1)));
            }
            i = i + 1;
        }
        assert(workers@.take(workers.len() as int) =~= workers@);
        self.urls = q;
        self.token = token;
    }

    /// Number of workers.
    pub fn len(&self) -> (n: usize)
        ensures
            n == self@.len(),
    {
        self.urls.len()
    }

    /// The worker URLs, the next one first.
    pub fn urls(&self) -> (r: Vec<String>)
        ensures
            views(r@) == self@,
    {
        let mut out: Vec<String> = Vec::new();
        let mut i: usize = 0;
        while i < self.urls.len()
            invariant
                i <= self.urls@.len(),
                views(out@) == views(self.urls@).take(i as int),
            decreases self.urls.len() - i,
        {
            let ghost prev = out@;
            out.push(copy_string(&self.urls[i]));
            proof {
                assert(views(out@) =~= views(prev).push(self.urls@[i as int]@));
                assert(views(self.urls@).take(i + 1) =~= views(self.urls@).take(i as int).push(self.urls@[i as int]@));
            }
            i = i + 1;
        }
        assert(views(self.urls@).take(self.urls@.len() as int) =~= views(self.urls@));
        out
    }

    /// The token sent with proxied requests.
    pub fn token(&self) -> (r: Option<String>)
        ensures
            (match r { Some(t) => Some(t@), None => None }) == self.token_view(),
    {
        match &self.token {
            Some(t) => Some(copy_string(t)),
            None => None,
        }
    }

    /// The next worker to try; it moves to the back of the pool. `None`
    /// when there are no workers.
    pub fn next_worker(&mut self) -> (r: Option<String>)
        ensures
            final(self)@ == rotate_once(old(self)@),
            final(self).token_view() == old(self).token_view(),
            match r {
                Some(w) => old(self)@.len() > 0 && w@ == old(self)@[0],
                None => old(self)@.len() == 0,
            },
    {
        match self.urls.pop_front() {
            Some(w) => {
                let back = copy_string(&w);
                self.urls.push_back(back);
                proof {
                    assert(views(self.urls@) =~= rotate_once(old(self)@));
                }
                Some(w)
            },
            None => {
                assert(old(self)@.len() == 0);
                None
            },
        }
    }
}

/// After `k` steps of the round robin over workers `s` (`k` at most their
/// number), the pool is `s` turned by `k`: the workers from the `k`-th on,
/// then the first `k`.
pub proof fn law_rotation(s: Seq<Seq<char>>, k: nat)
    requires
        k <= s.len(),
    ensures
        rotate_n(s, k) == s.skip(k as int) + s.take(k as int),
    decreases k,
{
    if k == 0 {
        assert(s.skip(0) + s.take(0) =~= s);
    } else {
        law_rotation(s, (k - 1) as nat);
        let prev = rotate_n(s, (k - 1) as nat);
        assert(prev == s.skip(k - 1) + s.take(k - 1));
        assert(prev[0] == s[k - 1]);
        assert(prev.drop_first().push(prev[0]) =~= s.skip(k as int) + s.take(k as int));
    }
}

/// A full round visits every worker once, in order: the `k`-th call hands
/// out the `k`-th worker, and after as many calls as there are workers the
/// pool is back in its first order.
pub proof fn law_full_round(s: Seq<Seq<char>>, k: nat)
    requires
        k < s.len(),
    ensures
        rotate_n(s, k)[0] == s[k as int],
        rotate_n(s, s.len()) == s,
{
    law_rotation(s, k);
    law_rotation(s, s.len());
    assert(s.skip(s.len() as int) + s.take(s.len() as int) =~= s);
}

/// The non-blank lines of a list, trimmed, in order.
pub open spec fn listed_entries(lines: Seq<Seq<char>>) -> Seq<Seq<char>>
    decreases lines.len(),
{
    if lines.len() == 0 {
        Seq::empty()
    } else {
        let prev = listed_entries(lines.drop_last());
        let t = trimmed(lines.last());
        if t.len() == 0 { prev } else { prev.push(t) }
    }
}

/// The worker URLs of a list with one URL per line: each line trimmed,
/// blank lines skipped.
pub fn parse_worker_list(content: &str) -> (r: Vec<String>)
    ensures
        views(r@) == listed_entries(text_lines(content@)),
{
    let lines = str_lines(content);
    let ghost lv = views(lines@);
    let mut out: Vec<String> = Vec::new();
    let mut i: usize = 0;
    while i < lines.len()
        invariant
            i <= lines.len(),
            lv == views(lines@),
            views(out@) == listed_entries(lv.take(i as int)),
        decreases lines.len() - i,
    {
        assert(lv.take(i + 1).drop_last() =~= lv.take(i as int));
        assert(lv.take(i + 1).last() == lines@[i as int]@);
        let t = trim(lines[i].as_str());
        if !t.as_str().is_empty() {
            let ghost before = out@;
            out.push(t);
            assert(views(out@) =~= views(before).push(trimmed(lines@[i as int]@)));
        }
        i = i + 1;
    }
    assert(lv.take(lines.len() as int) =~= lv);
    out
}

/// Where a request goes next.
pub enum Route {
    /// Through a proxy worker: the request URL and the token to send along.
    Worker { target: String, token: Option<String> },
    /// Straight to the URL.
    Direct(String),
}

/// One request's pass over the workers: each worker is tried at most once,
/// in turn, and the request goes out directly when none answered.
pub struct ProxyRound {
    remaining: usize,
}

impl ProxyRound {
    /// Workers not tried yet.
    pub closed spec fn remaining_view(&self) -> nat {
        self.remaining as nat
    }

    /// A pass over all workers of `pool`.
    pub fn start(pool: &WorkerPool) -> (r: ProxyRound)
        ensures
            r.remaining_view() == pool@.len(),
    {
        ProxyRound { remaining: pool.len() }
    }

    /// The route for the next try of `url`: the next worker of the pool
    /// (which moves to the back) while some are untried, else the URL
    /// itself.
    pub fn next_route(&mut self, pool: &mut WorkerPool, url: &str) -> (r: Route)
        requires
            old(self).remaining_view() <= old(pool)@.len(),
        ensures
            old(self).remaining_view() > 0 ==> {
                &&& final(self).remaining_view() == old(self).remaining_view() - 1
                &&& final(pool)@ == rotate_once(old(pool)@)
                &&& r matches Route::Worker { target, token } && target@ == proxied(old(pool)@[0], url@)
                    && (match token { Some(t) => Some(t@), None => None }) == old(pool).token_view()
            },
            old(self).remaining_view() == 0 ==> {
                &&& final(self).remaining_view() == 0
                &&& final(pool)@ == old(pool)@
                &&& r matches Route::Direct(u) && u@ == url@
            },
            final(self).remaining_view() <= final(pool)@.len(),
            final(pool).token_view() == old(pool).token_view(),
    {
        if self.remaining == 0 {
            return Route::Direct(url.to_owned());
        }
        self.remaining = self.remaining - 1;
        match pool.next_worker() {
            Some(w) => {
                let target = proxy_target(w.as_str(), url);
                Route::Worker { target, token: pool.token() }
            },
            None => Route::Direct(url.to_owned()),
        }
    }
}

} // verus!

//! Short-lived session tokens: creation, one-time startup token, validation
//! with expiry, and removal of expired tokens. Times are milliseconds on the
//! caller's monotonic clock.

use vstd::prelude::*;
use crate::expiry::{is_valid, live, ExpiryTable};
use rand::Rng;

verus! {

/// An ASCII letter or digit.
pub open spec fn is_alnum(c: char) -> bool {
    ('a' <= c && c <= 'z') || ('A' <= c && c <= 'Z') || ('0' <= c && c <= '9')
}

/// A fresh random session token drawn with `rand`'s thread-local generator
/// from the `Alphanumeric` distribution: 32 characters, each an ASCII letter
/// or digit (as rand's documentation of `Alphanumeric` states). Which token
/// comes out is chance; nothing more is stated.
#[verifier::external_body]
fn generate_token() -> (t: String)
    ensures
        t@.len() == 32,
        forall|i: int| 0 <= i < 32 ==> is_alnum(#[trigger] t@[i]),
{
    rand::thread_rng().sample_iter(&rand::distributions::Alphanumeric).take(32).map(char::from).collect()
}

/// Manages short-lived session tokens.
pub struct SessionManager {
    sessions: ExpiryTable,
    ttl_ms: u64,
    startup_token: Option<String>,
}

impl SessionManager {
    /// The token table (token to expiry).
    pub closed spec fn view(&self) -> Map<Seq<char>, u64> {
        self.sessions.view()
    }

    pub closed spec fn ttl(&self) -> u64 {
        self.ttl_ms
    }

    pub closed spec fn startup(&self) -> Option<Seq<char>> {
        match self.startup_token { Some(t) => Some(t@), None => None }
    }

    /// No token occurs twice in the table.
    pub closed spec fn wf(&self) -> bool {
        self.sessions.wf()
    }

    /// A manager whose tokens live `ttl_ms`; a startup token is created at
    /// once and can be taken with [`take_startup_token`](Self::take_startup_token).
    pub fn new(ttl_ms: u64, now_ms: u64) -> (r: SessionManager)
        requires
            now_ms + ttl_ms <= u64::MAX,
        ensures
            r.wf(),
            r.ttl() == ttl_ms,
            r.startup() matches Some(t) && r.view() == Map::<Seq<char>, u64>::empty().insert(t, (now_ms + ttl_ms) as u64),
    {
        let token = generate_token();
        let mut sessions = ExpiryTable::new();
        sessions.insert(token.clone(), now_ms + ttl_ms);
        SessionManager { sessions, ttl_ms, startup_token: Some(token) }
    }

    /// Creates a new random session token valid for the manager's lifetime
    /// from `now_ms` on.
    pub fn create_session(&mut self, now_ms: u64) -> (t: String)
        requires
            old(self).wf(),
            now_ms + old(self).ttl() <= u64::MAX,
        ensures
            final(self).wf(),
            t@.len() == 32,
            final(self).view() == old(self).view().insert(t@, (now_ms + old(self).ttl()) as u64),
            final(self).ttl() == old(self).ttl(),
            final(self).startup() == old(self).startup(),
    {
        let token = generate_token();
        let expiry = now_ms + self.ttl_ms;
        self.sessions.insert(token.clone(), expiry);
        token
    }

    /// The startup token, if it has not been taken yet; afterwards there is
    /// none.
    pub fn take_startup_token(&mut self) -> (t: Option<String>)
        ensures
            (match t { Some(s) => Some(s@), None => None }) == old(self).startup(),
            final(self).startup() is None,
            final(self).view() == old(self).view(),
            final(self).ttl() == old(self).ttl(),
            final(self).wf() == old(self).wf(),
    {
        self.startup_token.take()
    }

    /// Removes the sessions that have expired at `now_ms`.
    pub fn cleanup(&mut self, now_ms: u64)
        requires
            old(self).wf(),
        ensures
            final(self).wf(),
            final(self).view() == live(old(self).view(), now_ms),
            final(self).ttl() == old(self).ttl(),
            final(self).startup() == old(self).startup(),
    {
        self.sessions.cleanup(now_ms);
    }

    /// Whether `token` is a session that has not expired at `now_ms`; expired
    /// sessions are removed first.
    pub fn validate(&mut self, token: &str, now_ms: u64) -> (r: bool)
        requires
            old(self).wf(),
        ensures
            final(self).wf(),
            r == is_valid(old(self).view(), token@, now_ms),
            final(self).view() == live(old(self).view(), now_ms),
            final(self).ttl() == old(self).ttl(),
            final(self).startup() == old(self).startup(),
    {
        self.cleanup(now_ms);
        self.sessions.is_fresh(token, now_ms)
    }
}

/// A session created at `t` with lifetime `ttl` is valid exactly before
/// `t + ttl`: validating it at `now` succeeds if and only if `now < t + ttl`.
pub proof fn law_session_valid_until_expiry(m: Map<Seq<char>, u64>, token: Seq<char>, t: u64, ttl: u64, now: u64)
    requires
        t + ttl <= u64::MAX,
    ensures
        is_valid(m.insert(token, (t + ttl) as u64), token, now) == (now < t + ttl),
{
}

/// Removing expired sessions never changes which tokens are valid at that
/// time.
pub proof fn law_cleanup_keeps_validity(m: Map<Seq<char>, u64>, token: Seq<char>, now: u64)
    ensures
        is_valid(live(m, now), token, now) == is_valid(m, token, now),
{
}

/// A session stays valid across later cleanups until it expires: after a
/// cleanup at `now1`, a token valid at `now2 >= now1` was valid before.
pub proof fn law_cleanup_then_validate(m: Map<Seq<char>, u64>, token: Seq<char>, now1: u64, now2: u64)
    requires
        now1 <= now2,
    ensures
        is_valid(live(m, now1), token, now2) == is_valid(m, token, now2),
{
}

/// The life of a session: a token issued at `t` with lifetime `ttl`
/// validates before `t + ttl`; from then on it fails and a validation removes
/// it from the table.
pub proof fn law_session_lifecycle(m: Map<Seq<char>, u64>, token: Seq<char>, t: u64, ttl: u64, now: u64)
    requires
        t + ttl <= u64::MAX,
    ensures
        now < t + ttl ==> is_valid(m.insert(token, (t + ttl) as u64), token, now),
        now >= t + ttl ==> !is_valid(m.insert(token, (t + ttl) as u64), token, now) && !live(
            m.insert(token, (t + ttl) as u64),
            now,
        ).contains_key(token),
{
}

/// A token the table does not hold, such as one never issued, never
/// validates, and no cleanup brings it in.
pub proof fn law_unissued_token_invalid(m: Map<Seq<char>, u64>, token: Seq<char>, now: u64)
    requires
        !m.contains_key(token),
    ensures
        !is_valid(m, token, now),
        !live(m, now).contains_key(token),
{
}

} // verus!

//! Checks and bookkeeping of the commands the user interface invokes: the
//! per-command call counter over a sliding minute, the checks of tokens,
//! rate limits and host names, the parameters of network diagnostics, and
//! the status events sent to the interface.

use vstd::prelude::*;
use vstd::hash_map::StringHashMap;
use crate::backoff::RetryInfo;
use crate::error::{error_details, error_text, status_details, Error};
use crate::text::{copy_string, decimal, str_equal, u64_to_decimal};
use crate::workers::append_str;

verus! {

/// Length of the window, in milliseconds, over which calls are counted.
pub const INVOCATION_WINDOW_MS: u64 = 60000;

/// Age of a call made at `t`, seen at `now` (0 when `t` is later).
pub open spec fn call_age(t: u64, now: u64) -> u64 {
    if now >= t { (now - t) as u64 } else { 0 }
}

/// The calls of `s` at most a window old at `now`, in order.
pub open spec fn keep_recent(s: Seq<u64>, now: u64) -> Seq<u64>
    decreases s.len(),
{
    if s.len() == 0 {
        s
    } else {
        let k = keep_recent(s.drop_last(), now);
        if call_age(s.last(), now) <= INVOCATION_WINDOW_MS { k.push(s.last()) } else { k }
    }
}

/// Calls of each command over the last minute.
pub struct CallTracker {
    calls: StringHashMap<Vec<u64>>,
}

fn recent_calls(calls: &Vec<u64>, now_ms: u64) -> (r: Vec<u64>)
    ensures
        r@ == keep_recent(calls@, now_ms),
{
    let mut out: Vec<u64> = Vec::new();
    let mut i: usize = 0;
    while i < calls.len()
        invariant
            i <= calls.len(),
            out@ == keep_recent(calls@.take(i as int), now_ms),
        decreases calls.len() - i,
    {
        assert(calls@.take(i + 1).drop_last() =~= calls@.take(i as int));
        let t = calls[i];
        let age: u64 = if now_ms >= t { now_ms - t } else { 0 };
        if age <= INVOCATION_WINDOW_MS {
            out.push(t);
        }
        i = i + 1;
    }
    assert(calls@.take(calls.len() as int) =~= calls@);
    out
}

impl CallTracker {
    /// Calls per command name.
    pub closed spec fn calls(&self, name: Seq<char>) -> Seq<u64> {
        if self.calls@.contains_key(name) { self.calls@[name]@ } else { Seq::empty() }
    }

    /// No calls yet.
    pub fn new() -> (r: CallTracker)
        ensures
            forall|n: Seq<char>| r.calls(n) == Seq::<u64>::empty(),
    {
        CallTracker { calls: StringHashMap::new() }
    }

    /// Records a call of `name` at `now_ms`: the command's calls older than
    /// the window are forgotten, this one is added, and their number is
    /// returned.
    pub fn track_call(&mut self, name: &str, now_ms: u64) -> (n: usize)
        ensures
            final(self).calls(name@) == keep_recent(old(self).calls(name@), now_ms).push(now_ms),
            forall|o: Seq<char>| o != name@ ==> final(self).calls(o) == old(self).calls(o),
            n == final(self).calls(name@).len(),
    {
        let mut kept = match self.calls.get(name) {
            Some(v) => recent_calls(v, now_ms),
            None => {
                assert(keep_recent(Seq::<u64>::empty(), now_ms) =~= Seq::<u64>::empty());
                Vec::new()
            },
        };
        kept.push(now_ms);
        let n = kept.len();
        self.calls.insert(name.to_owned(), kept);
        n
    }
}

/// The outcome of the general rate limit on commands.
pub fn check_api_rate(permitted: bool) -> (r: Result<(), Error>)
    ensures
        permitted ==> r is Ok,
        !permitted ==> (r matches Err(e) && e matches Error::RateLimitExceeded(o) && o@ == "api"@),
{
    if permitted { Ok(()) } else { Err(Error::RateLimitExceeded(String::from_str("api"))) }
}

/// The outcome of the rate limit on reading logs.
pub fn check_log_rate(permitted: bool) -> (r: Result<(), Error>)
    ensures
        permitted ==> r is Ok,
        !permitted ==> (r matches Err(e) && e matches Error::RateLimitExceeded(o) && o@ == "get_logs"@),
{
    if permitted { Ok(()) } else { Err(Error::RateLimitExceeded(String::from_str("get_logs"))) }
}

/// Commands that need a session refuse an invalid token.
pub fn require_session(valid: bool) -> (r: Result<(), Error>)
    ensures
        valid ==> r is Ok,
        !valid ==> r matches Err(Error::InvalidToken),
{
    if valid { Ok(()) } else { Err(Error::InvalidToken) }
}

/// The connection status text.
pub fn status_text(connected: bool) -> (r: String)
    ensures
        r@ == (if connected { "CONNECTED"@ } else { "DISCONNECTED"@ }),
{
    if connected { String::from_str("CONNECTED") } else { String::from_str("DISCONNECTED") }
}

/// The pattern host names must match.
pub open spec fn host_pattern() -> Seq<char> {
    "^[A-Za-z0-9.-]+$"@
}

/// What the host pattern accepts: one or more ASCII letters, digits, dots
/// and hyphens, and nothing else.
pub open spec fn valid_host(s: Seq<char>) -> bool {
    &&& s.len() > 0
    &&& forall|i: int| 0 <= i < s.len() ==> {
        let c = #[trigger] s[i];
        ('A' <= c && c <= 'Z') || ('a' <= c && c <= 'z') || ('0' <= c && c <= '9') || c == '.' || c == '-'
    }
}

/// `regex::Regex::is_match` for the host pattern `^[A-Za-z0-9.-]+$`: the
/// whole text must be one or more characters of the class (the anchors
/// match only at the start and end of the text in the `regex` crate, whose
/// syntax documentation this follows).
#[verifier::external_body]
fn regex_is_match(pattern: &str, text: &str) -> (r: bool)
    requires
        pattern@ == host_pattern(),
    ensures
        r == valid_host(text@),
{
    regex::Regex::new(pattern).map(|re| re.is_match(text)).unwrap_or(false)
}

/// Whether `host` is an acceptable host name for diagnostics.
pub fn is_valid_host(host: &str) -> (r: bool)
    ensures
        r == valid_host(host@),
{
    let pattern = "^[A-Za-z0-9.-]+$";
    regex_is_match(pattern, host)
}

/// The error for a host name that is refused.
pub fn invalid_host() -> (e: Error)
    ensures
        e matches Error::Io(m) && m@ == "invalid host"@,
{
    Error::Io(String::from_str("invalid host"))
}

/// Most echo requests sent by one ping.
pub const MAX_PING_COUNT: u8 = 10;

/// The host and number of echo requests of a ping: `google.com` and 5 by
/// default, at most 10 requests; a host that does not match the pattern is
/// refused.
pub fn ping_params(host: Option<String>, count: Option<u8>) -> (r: Result<(String, u8), Error>)
    ensures
        ({
            let h = match host { Some(h) => h@, None => "google.com"@ };
            if valid_host(h) {
                r matches Ok((rh, rc)) && rh@ == h && rc == (match count {
                    Some(c) => if c < 10 { c } else { 10u8 },
                    None => 5u8,
                })
            } else {
                r matches Err(e) && e matches Error::Io(m) && m@ == "invalid host"@
            }
        }),
{
    let h = match host {
        Some(h) => h,
        None => String::from_str("google.com"),
    };
    if !is_valid_host(h.as_str()) {
        return Err(invalid_host());
    }
    let c = match count {
        Some(c) => c,
        None => 5,
    };
    let c = if c < MAX_PING_COUNT { c } else { MAX_PING_COUNT };
    Ok((h, c))
}

/// The address and hop limit of a traceroute: `host:0` and 30 hops by
/// default; a host that does not match the pattern is refused.
pub fn traceroute_params(host: &str, max_hops: Option<u8>) -> (r: Result<(String, usize), Error>)
    ensures
        valid_host(host@) ==> (r matches Ok((a, n)) && a@ == host@ + ":0"@ && n == (match max_hops {
            Some(m) => m as usize,
            None => 30usize,
        })),
        !valid_host(host@) ==> (r matches Err(e) && e matches Error::Io(m) && m@ == "invalid host"@),
{
    if !is_valid_host(host) {
        return Err(invalid_host());
    }
    let mut addr = String::new();
    append_str(&mut addr, host);
    append_str(&mut addr, ":0");
    let limit: usize = match max_hops {
        Some(m) => m as usize,
        None => 30,
    };
    Ok((addr, limit))
}

/// The warning when the memory in use exceeds the limit, both in MiB
/// (bytes divided by 1024 twice).
pub open spec fn memory_warning_text(memory_mb: nat, limit: nat) -> Seq<char> {
    "memory usage "@ + decimal(memory_mb) + " MB exceeds limit "@ + decimal(limit)
}

/// The warning when there are more circuits than allowed.
pub open spec fn circuit_warning_text(count: nat, limit: nat) -> Seq<char> {
    "circuit count "@ + decimal(count) + " exceeds limit "@ + decimal(limit)
}

/// The memory warning for `memory_bytes` in use, if they exceed
/// `max_memory_mb` MiB.
pub fn memory_warning(memory_bytes: u64, max_memory_mb: u64) -> (r: Option<String>)
    ensures
        memory_bytes / 1024 / 1024 > max_memory_mb ==> (r matches Some(w) && w@ == memory_warning_text(
            (memory_bytes / 1024 / 1024) as nat,
            max_memory_mb as nat,
        )),
        memory_bytes / 1024 / 1024 <= max_memory_mb ==> r is None,
{
    let mb = memory_bytes / 1024 / 1024;
    if mb > max_memory_mb {
        let mut s = String::from_str("memory usage ");
        let a = u64_to_decimal(mb);
        append_str(&mut s, a.as_str());
        append_str(&mut s, " MB exceeds limit ");
        let b = u64_to_decimal(max_memory_mb);
        append_str(&mut s, b.as_str());
        Some(s)
    } else {
        None
    }
}

/// The circuit warning for `count` circuits, if more than `max_circuits`.
pub fn circuit_warning(count: u64, max_circuits: u64) -> (r: Option<String>)
    ensures
        count > max_circuits ==> (r matches Some(w) && w@ == circuit_warning_text(count as nat, max_circuits as nat)),
        count <= max_circuits ==> r is None,
{
    if count > max_circuits {
        let mut s = String::from_str("circuit count ");
        let a = u64_to_decimal(count);
        append_str(&mut s, a.as_str());
        append_str(&mut s, " exceeds limit ");
        let b = u64_to_decimal(max_circuits);
        append_str(&mut s, b.as_str());
        Some(s)
    } else {
        None
    }
}

/// A `tor-status-update` event for the interface; absent fields are not
/// sent.
pub struct StatusUpdate {
    pub status: String,
    pub bootstrap_progress: Option<u8>,
    pub bootstrap_message: Option<String>,
    pub retry_count: Option<u32>,
    pub retry_delay: Option<u64>,
    pub error_message: Option<String>,
    pub error_step: Option<String>,
    pub error_source: Option<String>,
}

/// View of an optional string.
pub open spec fn opt_view(o: Option<String>) -> Option<Seq<char>> {
    match o {
        Some(s) => Some(s@),
        None => None,
    }
}

/// The fields of a status event, as plain values.
pub open spec fn update_view(u: StatusUpdate) -> (
    Seq<char>,
    Option<u8>,
    Option<Seq<char>>,
    Option<u32>,
    Option<u64>,
    Option<Seq<char>>,
    Option<Seq<char>>,
    Option<Seq<char>>,
) {
    (
        u.status@,
        u.bootstrap_progress,
        opt_view(u.bootstrap_message),
        u.retry_count,
        u.retry_delay,
        opt_view(u.error_message),
        opt_view(u.error_step),
        opt_view(u.error_source),
    )
}

impl StatusUpdate {
    /// A connection attempt starts.
    pub fn connecting() -> (r: StatusUpdate)
        ensures
            update_view(r) == ("CONNECTING"@, Some(0u8), Some(Seq::<char>::empty()), Some(0u32), Some(0u64), None::<
                Seq<char>,
            >, None::<Seq<char>>, None::<Seq<char>>),
    {
        StatusUpdate {
            status: String::from_str("CONNECTING"),
            bootstrap_progress: Some(0),
            bootstrap_message: Some(String::new()),
            retry_count: Some(0),
            retry_delay: Some(0),
            error_message: None,
            error_step: None,
            error_source: None,
        }
    }

    /// Bootstrap progress.
    pub fn progress(pct: u8, message: String) -> (r: StatusUpdate)
        ensures
            update_view(r) == ("CONNECTING"@, Some(pct), Some(message@), None::<u32>, None::<u64>, None::<
                Seq<char>,
            >, None::<Seq<char>>, None::<Seq<char>>),
    {
        StatusUpdate {
            status: String::from_str("CONNECTING"),
            bootstrap_progress: Some(pct),
            bootstrap_message: Some(message),
            retry_count: None,
            retry_delay: None,
            error_message: None,
            error_step: None,
            error_source: None,
        }
    }

    /// A failed attempt that will be retried.
    pub fn retrying(info: &RetryInfo) -> (r: StatusUpdate)
        ensures
            update_view(r) == ("RETRYING"@, None::<u8>, None::<Seq<char>>, Some(info.attempt), Some(
                info.delay_secs,
            ), Some(error_text(info.error)), Some(error_details(info.error).0), Some(error_details(info.error).1)),
    {
        let (step, source) = status_details(&info.error);
        StatusUpdate {
            status: String::from_str("RETRYING"),
            bootstrap_progress: None,
            bootstrap_message: None,
            retry_count: Some(info.attempt),
            retry_delay: Some(info.delay_secs),
            error_message: Some(info.error.message()),
            error_step: Some(step),
            error_source: Some(source),
        }
    }

    /// The client is connected.
    pub fn connected() -> (r: StatusUpdate)
        ensures
            update_view(r) == ("CONNECTED"@, Some(100u8), Some("done"@), Some(0u32), Some(0u64), None::<
                Seq<char>,
            >, None::<Seq<char>>, None::<Seq<char>>),
    {
        StatusUpdate {
            status: String::from_str("CONNECTED"),
            bootstrap_progress: Some(100),
            bootstrap_message: Some(String::from_str("done")),
            retry_count: Some(0),
            retry_delay: Some(0),
            error_message: None,
            error_step: None,
            error_source: None,
        }
    }

    /// Connecting failed for good with `e`.
    pub fn failed(e: &Error) -> (r: StatusUpdate)
        ensures
            update_view(r) == ("ERROR"@, None::<u8>, Some(Seq::<char>::empty()), Some(0u32), Some(0u64), Some(
                error_text(*e),
            ), Some(error_details(*e).0), Some(error_details(*e).1)),
    {
        let (step, source) = status_details(e);
        StatusUpdate {
            status: String::from_str("ERROR"),
            bootstrap_progress: None,
            bootstrap_message: Some(String::new()),
            retry_count: Some(0),
            retry_delay: Some(0),
            error_message: Some(e.message()),
            error_step: Some(step),
            error_source: Some(source),
        }
    }

    /// Changing the identity failed with `e`.
    pub fn identity_failed(e: &Error) -> (r: StatusUpdate)
        ensures
            update_view(r) == ("ERROR"@, None::<u8>, None::<Seq<char>>, None::<u32>, None::<u64>, Some(
                error_text(*e),
            ), Some(error_details(*e).0), Some(error_details(*e).1)),
    {
        let (step, source) = status_details(e);
        StatusUpdate {
            status: String::from_str("ERROR"),
            bootstrap_progress: None,
            bootstrap_message: None,
            retry_count: None,
            retry_delay: None,
            error_message: Some(e.message()),
            error_step: Some(step),
            error_source: Some(source),
        }
    }

    /// A new identity is in use.
    pub fn new_identity() -> (r: StatusUpdate)
        ensures
            update_view(r) == ("NEW_IDENTITY"@, None::<u8>, None::<Seq<char>>, None::<u32>, None::<u64>, None::<
                Seq<char>,
            >, None::<Seq<char>>, None::<Seq<char>>),
    {
        StatusUpdate {
            status: String::from_str("NEW_IDENTITY"),
            bootstrap_progress: None,
            bootstrap_message: None,
            retry_count: None,
            retry_delay: None,
            error_message: None,
            error_step: None,
            error_source: None,
        }
    }

    /// Disconnecting starts.
    pub fn disconnecting() -> (r: StatusUpdate)
        ensures
            update_view(r) == ("DISCONNECTING"@, None::<u8>, Some(Seq::<char>::empty()), Some(0u32), Some(0u64), None::<
                Seq<char>,
            >, None::<Seq<char>>, None::<Seq<char>>),
    {
        StatusUpdate {
            status: String::from_str("DISCONNECTING"),
            bootstrap_progress: None,
            bootstrap_message: Some(String::new()),
            retry_count: Some(0),
            retry_delay: Some(0),
            error_message: None,
            error_step: None,
            error_source: None,
        }
    }

    /// The client is disconnected.
    pub fn disconnected() -> (r: StatusUpdate)
        ensures
            update_view(r) == ("DISCONNECTED"@, Some(0u8), Some(Seq::<char>::empty()), Some(0u32), Some(0u64), None::<
                Seq<char>,
            >, None::<Seq<char>>, None::<Seq<char>>),
    {
        StatusUpdate {
            status: String::from_str("DISCONNECTED"),
            bootstrap_progress: Some(0),
            bootstrap_message: Some(String::new()),
            retry_count: Some(0),
            retry_delay: Some(0),
            error_message: None,
            error_step: None,
            error_source: None,
        }
    }
}

/// The status event that changing the identity with outcome `result` sends:
/// "NEW_IDENTITY" on success, an error event with the failure's details
/// otherwise, and none when there is no connection to change.
pub fn identity_update(result: &Result<(), Error>) -> (r: Option<StatusUpdate>)
    ensures
        match result {
            Ok(_) => r matches Some(u) && update_view(u) == ("NEW_IDENTITY"@, None::<u8>, None::<Seq<char>>, None::<u32>,
                None::<u64>, None::<Seq<char>>, None::<Seq<char>>, None::<Seq<char>>),
            Err(Error::NotConnected) => r is None,
            Err(e) => r matches Some(u) && update_view(u) == ("ERROR"@, None::<u8>, None::<Seq<char>>, None::<u32>,
                None::<u64>, Some(error_text(*e)), Some(error_details(*e).0), Some(error_details(*e).1)),
        },
{
    match result {
        Ok(_) => Some(StatusUpdate::new_identity()),
        Err(Error::NotConnected) => None,
        Err(e) => Some(StatusUpdate::identity_failed(e)),
    }
}

/// The log line for a failed connection attempt.
pub open spec fn attempt_failed_text(attempt: nat, err: Seq<char>) -> Seq<char> {
    "connection attempt "@ + decimal(attempt) + " failed: "@ + err
}

/// Renders the log line for a failed connection attempt.
pub fn attempt_failed_message(info: &RetryInfo) -> (r: String)
    ensures
        r@ == attempt_failed_text(info.attempt as nat, error_text(info.error)),
{
    let mut s = String::from_str("connection attempt ");
    let n = u64_to_decimal(info.attempt as u64);
    append_str(&mut s, n.as_str());
    append_str(&mut s, " failed: ");
    let m = info.error.message();
    append_str(&mut s, m.as_str());
    s
}

/// Sum of round-trip times.
pub open spec fn total_ms(s: Seq<u128>) -> int
    decreases s.len(),
{
    if s.len() == 0 { 0 } else { total_ms(s.drop_last()) + s.last() }
}

proof fn lemma_total_bound(s: Seq<u128>, bound: int)
    requires
        forall|i: int| 0 <= i < s.len() ==> s[i] <= bound,
        bound >= 0,
    ensures
        0 <= total_ms(s) <= s.len() * bound,
    decreases s.len(),
{
    if s.len() > 0 {
        lemma_total_bound(s.drop_last(), bound);
        assert(s.last() == s[s.len() - 1]);
        assert((s.len() - 1) * bound + bound == s.len() * bound) by (nonlinear_arith);
    }
}

/// The mean round-trip time, in whole milliseconds, of the echo replies of
/// one ping (the mean of the millisecond times, rounded down and cut to 64
/// bits).
pub fn ping_average(samples_ms: &Vec<u128>) -> (r: u64)
    requires
        0 < samples_ms@.len() <= 255,
        forall|i: int| 0 <= i < samples_ms@.len() ==> samples_ms@[i] < 0x1_0000_0000_0000_0000_0000,
    ensures
        r == (total_ms(samples_ms@) / (samples_ms@.len() as int)) as u64,
{
    let mut total: u128 = 0;
    let mut i: usize = 0;
    while i < samples_ms.len()
        invariant
            i <= samples_ms@.len() <= 255,
            forall|k: int| 0 <= k < samples_ms@.len() ==> samples_ms@[k] < 0x1_0000_0000_0000_0000_0000,
            total == total_ms(samples_ms@.take(i as int)),
        decreases samples_ms.len() - i,
    {
        proof {
            lemma_total_bound(samples_ms@.take(i as int), 0x1_0000_0000_0000_0000_0000);
            assert(samples_ms@.take(i + 1).drop_last() =~= samples_ms@.take(i as int));
            assert(i * 0x1_0000_0000_0000_0000_0000 <= 255 * 0x1_0000_0000_0000_0000_0000) by (nonlinear_arith)
                requires i <= 255;
        }
        total = total + samples_ms[i];
        i = i + 1;
    }
    assert(samples_ms@.take(samples_ms@.len() as int) =~= samples_ms@);
    let n = samples_ms.len() as u128;
    (total / n) as u64
}

} // verus!

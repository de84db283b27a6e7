//! The connection timeline: a bounded log of connection state changes, the
//! recent part of it as shown to the user, and the stability summary computed
//! from it. Timestamps are nanoseconds since the Unix epoch (UTC).

use vstd::prelude::*;

verus! {

/// Nanoseconds per second.
pub const NANOS_PER_SEC: i64 = 1_000_000_000;
/// Nanoseconds per hour.
pub const NANOS_PER_HOUR: i64 = 3_600_000_000_000;
/// Default number of timeline events kept.
pub const DEFAULT_MAX_CONNECTION_EVENTS: usize = 720;

/// One connection state change with the metrics at that moment.
pub struct ConnectionEvent {
    pub timestamp_ns: i64,
    pub status: String,
    pub message: Option<String>,
    pub detail: Option<String>,
    pub retry_count: Option<u32>,
    pub latency_ms: Option<u64>,
    pub memory_bytes: Option<u64>,
    pub circuit_count: Option<usize>,
}

/// A timeline event as the user interface receives it.
pub struct ConnectionEventSnapshot {
    pub timestamp: String,
    pub status: String,
    pub message: Option<String>,
    pub detail: Option<String>,
    pub retry_count: Option<u32>,
    pub latency_ms: Option<u64>,
    pub memory_bytes: Option<u64>,
    pub circuit_count: Option<usize>,
}

/// RFC 3339 text of the instant `ns` nanoseconds after the epoch, as chrono's
/// `DateTime<Utc>::to_rfc3339` writes it.
pub uninterp spec fn rfc3339_text(ns: i64) -> Seq<char>;

/// Formats an instant with chrono (`DateTime::<Utc>::from_timestamp_nanos`,
/// then `to_rfc3339`). The text is a function of the instant alone; its form
/// is only named here.
#[verifier::external_body]
pub(crate) fn rfc3339(ns: i64) -> (r: String)
    ensures
        r@ == rfc3339_text(ns),
{
    chrono::DateTime::<chrono::Utc>::from_timestamp_nanos(ns).to_rfc3339()
}

fn copy_opt(s: &Option<String>) -> (r: Option<String>)
    ensures
        match (r, *s) { (Some(a), Some(b)) => a@ == b@, (None, None) => true, _ => false },
{
    match s {
        Some(v) => Some(v.clone()),
        None => None,
    }
}

/// `s` shows event `e`: its time as RFC 3339 text and every other field as
/// the event holds it.
pub open spec fn snapshot_of(s: ConnectionEventSnapshot, e: ConnectionEvent) -> bool {
    &&& s.timestamp@ == rfc3339_text(e.timestamp_ns)
    &&& s.status@ == e.status@
    &&& match (s.message, e.message) { (Some(a), Some(b)) => a@ == b@, (None, None) => true, _ => false }
    &&& match (s.detail, e.detail) { (Some(a), Some(b)) => a@ == b@, (None, None) => true, _ => false }
    &&& s.retry_count == e.retry_count
    &&& s.latency_ms == e.latency_ms
    &&& s.memory_bytes == e.memory_bytes
    &&& s.circuit_count == e.circuit_count
}

impl ConnectionEvent {
    /// The event as the user interface receives it.
    pub fn snapshot(&self) -> (r: ConnectionEventSnapshot)
        ensures
            r.timestamp@ == rfc3339_text(self.timestamp_ns),
            r.status@ == self.status@,
            match (r.message, self.message) { (Some(a), Some(b)) => a@ == b@, (None, None) => true, _ => false },
            match (r.detail, self.detail) { (Some(a), Some(b)) => a@ == b@, (None, None) => true, _ => false },
            r.retry_count == self.retry_count,
            r.latency_ms == self.latency_ms,
            r.memory_bytes == self.memory_bytes,
            r.circuit_count == self.circuit_count,
            snapshot_of(r, *self),
    {
        ConnectionEventSnapshot {
            timestamp: rfc3339(self.timestamp_ns),
            status: self.status.clone(),
            message: copy_opt(&self.message),
            detail: copy_opt(&self.detail),
            retry_count: self.retry_count,
            latency_ms: self.latency_ms,
            memory_bytes: self.memory_bytes,
            circuit_count: self.circuit_count,
        }
    }
}

/// Timestamps and statuses of a list of events.
pub open spec fn marks(v: Seq<ConnectionEvent>) -> Seq<(i64, Seq<char>)> {
    v.map_values(|e: ConnectionEvent| (e.timestamp_ns, e.status@))
}

/// The last `max` elements of `s` (all of it when it is shorter).
pub open spec fn keep_last<A>(s: Seq<A>, max: nat) -> Seq<A> {
    if s.len() > max { s.subrange(s.len() - max, s.len() as int) } else { s }
}

/// A bounded log of connection events, oldest first.
pub struct ConnectionLog {
    events: Vec<ConnectionEvent>,
    max_events: usize,
}

impl ConnectionLog {
    pub closed spec fn view(&self) -> Seq<ConnectionEvent> {
        self.events@
    }

    pub closed spec fn capacity(&self) -> nat {
        self.max_events as nat
    }

    /// An empty log keeping at most `max_events` events.
    pub fn new(max_events: usize) -> (r: ConnectionLog)
        ensures
            r.view().len() == 0,
            r.capacity() == max_events,
    {
        ConnectionLog { events: Vec::new(), max_events }
    }

    /// Number of events held.
    pub fn len(&self) -> (n: usize)
        ensures
            n == self.view().len(),
    {
        self.events.len()
    }

    /// Appends an event; the oldest events are dropped so that at most the
    /// capacity remain.
    pub fn record(&mut self, event: ConnectionEvent)
        ensures
            final(self).view() == keep_last(old(self).view().push(event), old(self).capacity()),
            final(self).capacity() == old(self).capacity(),
    {
        self.events.push(event);
        if self.events.len() > self.max_events {
            let excess = self.events.len() - self.max_events;
            let ghost all = self.events@;
            let mut rest = Vec::new();
            std::mem::swap(&mut rest, &mut self.events);
            let mut tail = rest.split_off(excess);
            assert(tail@ =~= all.subrange(excess as int, all.len() as int));
            std::mem::swap(&mut tail, &mut self.events);
        }
    }

    /// The last `limit` events (all of them when no limit is given), oldest
    /// first, as the user interface receives them.
    pub fn snapshot(&self, limit: Option<usize>) -> (r: Vec<ConnectionEventSnapshot>)
        ensures
            r@.len() == (match limit { Some(l) => if l < self.view().len() { l as nat } else { self.view().len() }, None => self.view().len() }),
            forall|i: int| 0 <= i < r@.len() ==> {
                let e = self.view()[self.view().len() - r@.len() + i];
                &&& (#[trigger] r@[i]).timestamp@ == rfc3339_text(e.timestamp_ns)
                &&& r@[i].status@ == e.status@
                &&& snapshot_of(r@[i], e)
            },
    {
        let n = self.events.len();
        let take = match limit {
            Some(l) => if l < n { l } else { n },
            None => n,
        };
        let start = n - take;
        let mut out: Vec<ConnectionEventSnapshot> = Vec::new();
        let mut i: usize = start;
        while i < n
            invariant
                start <= i <= n,
                n == self.events.len(),
                start == n - take,
                out@.len() == i - start,
                forall|j: int| 0 <= j < out@.len() ==> {
                    let e = self.view()[start + j];
                    &&& (#[trigger] out@[j]).timestamp@ == rfc3339_text(e.timestamp_ns)
                    &&& out@[j].status@ == e.status@
                    &&& snapshot_of(out@[j], e)
                },
            decreases n - i,
        {
            out.push(self.events[i].snapshot());
            i = i + 1;
        }
        out
    }
}


/// Whole seconds of a span of `ns` nanoseconds, truncated towards zero (as
/// chrono's `TimeDelta::num_seconds`).
pub open spec fn whole_secs(ns: int) -> int {
    if ns >= 0 { ns / 1_000_000_000 } else { -((-ns) / 1_000_000_000) }
}

/// Running totals of the stability summary.
pub struct HealthAcc {
    pub connected: nat,
    pub errors: nat,
    pub disconnects: nat,
    /// Start of the current connected stretch.
    pub since: Option<int>,
    pub last_ts: Option<int>,
    /// Time spent connected, in nanoseconds.
    pub total: int,
    /// Longest connected stretch, in nanoseconds.
    pub longest: int,
    pub last_connected: Option<int>,
    pub last_error: Option<int>,
}

pub open spec fn acc_init() -> HealthAcc {
    HealthAcc {
        connected: 0,
        errors: 0,
        disconnects: 0,
        since: None,
        last_ts: None,
        total: 0,
        longest: 0,
        last_connected: None,
        last_error: None,
    }
}

/// The longest of `longest` and the stretch from `since` to `ts`.
pub open spec fn close_stretch(longest: int, since: Option<int>, ts: int) -> int {
    match since {
        Some(start) => if ts - start > longest { ts - start } else { longest },
        None => longest,
    }
}

/// The totals after one more event at `ts` with `status`: time since the
/// previous event counts as connected while a stretch is open; CONNECTED
/// opens a stretch; DISCONNECTED and ERROR close it; RETRYING drops it;
/// DISCONNECTING only counts.
pub open spec fn acc_step(a: HealthAcc, ts: int, status: Seq<char>) -> HealthAcc {
    let total = match (a.last_ts, a.since) {
        (Some(prev), Some(_)) => a.total + (ts - prev),
        _ => a.total,
    };
    let b = HealthAcc { total, last_ts: Some(ts), ..a };
    if status == "CONNECTED"@ {
        HealthAcc { connected: b.connected + 1, since: Some(ts), last_connected: Some(ts), ..b }
    } else if status == "DISCONNECTED"@ {
        HealthAcc { disconnects: b.disconnects + 1, longest: close_stretch(b.longest, b.since, ts), since: None, ..b }
    } else if status == "DISCONNECTING"@ {
        HealthAcc { disconnects: b.disconnects + 1, ..b }
    } else if status == "ERROR"@ {
        HealthAcc { errors: b.errors + 1, last_error: Some(ts), longest: close_stretch(b.longest, b.since, ts), since: None, ..b }
    } else if status == "RETRYING"@ {
        HealthAcc { errors: b.errors + 1, last_error: Some(ts), since: None, ..b }
    } else {
        b
    }
}

/// The totals over the first `n` events.
pub open spec fn acc_fold(ev: Seq<(i64, Seq<char>)>, n: int) -> HealthAcc
    decreases n,
{
    if n <= 0 { acc_init() } else { acc_step(acc_fold(ev, n - 1), ev[n - 1].0 as int, ev[n - 1].1) }
}

/// The totals at `now`: an open stretch counts until `now`.
pub open spec fn acc_final(ev: Seq<(i64, Seq<char>)>, now: int) -> HealthAcc {
    let a = acc_fold(ev, ev.len() as int);
    match (a.last_ts, a.since) {
        (Some(prev), Some(start)) => HealthAcc {
            total: a.total + (now - prev),
            longest: if now - start > a.longest { now - start } else { a.longest },
            ..a
        },
        _ => a,
    }
}

/// Number of RETRYING events at or after `from`.
pub open spec fn retries_since(ev: Seq<(i64, Seq<char>)>, from: int) -> nat
    decreases ev.len(),
{
    if ev.len() == 0 {
        0
    } else {
        retries_since(ev.drop_last(), from) + if ev.last().1 == "RETRYING"@ && ev.last().0 >= from { 1nat } else { 0nat }
    }
}

/// Uptime in seconds of a connection made at `since`, seen at `now`.
pub open spec fn uptime_secs(since: Option<i64>, now: i64) -> Option<u64> {
    match since {
        Some(ts) => Some(if whole_secs(now - ts) > 0 { whole_secs(now - ts) as u64 } else { 0 }),
        None => None,
    }
}

/// Seconds since `since` (never negative), when connected.
pub fn connection_uptime(since: Option<i64>, now_ns: i64) -> (r: Option<u64>)
    ensures
        r == uptime_secs(since, now_ns),
{
    match since {
        Some(ts) => {
            let d: i128 = (now_ns as i128) - (ts as i128);
            let secs: i128 = if d >= 0 { d / 1_000_000_000 } else { -((-d) / 1_000_000_000) };
            Some(if secs > 0 { secs as u64 } else { 0 })
        },
        None => None,
    }
}

/// Stability summary of the connection timeline.
pub struct ConnectionHealthSummary {
    pub total_events: usize,
    pub connected_events: usize,
    pub error_events: usize,
    pub disconnect_events: usize,
    pub last_event: Option<ConnectionEventSnapshot>,
    pub last_connected_at: Option<String>,
    pub last_error_at: Option<String>,
    pub current_uptime_seconds: Option<u64>,
    pub longest_uptime_seconds: Option<u64>,
    /// Whole seconds spent connected (never negative).
    pub connected_seconds: u64,
    /// Whole seconds from the first event to now.
    pub observed_seconds: i64,
    pub retry_attempts_last_hour: u32,
}

fn status_is(s: &String, lit: &str) -> (r: bool)
    ensures
        r == (s@ == lit@),
{
    crate::text::str_equal(s.as_str(), lit)
}

fn opt_rfc3339(ts: Option<i64>) -> (r: Option<String>)
    ensures
        match ts { Some(t) => r matches Some(s) && s@ == rfc3339_text(t), None => r is None },
{
    match ts {
        Some(t) => Some(rfc3339(t)),
        None => None,
    }
}

impl ConnectionLog {
    /// Stability summary at `now_ns`, for a client connected since
    /// `connected_since` (if connected).
    pub fn health_summary(&self, now_ns: i64, connected_since: Option<i64>) -> (r: ConnectionHealthSummary)
        requires
            self.view().len() < 0x4000_0000_0000_0000,
        ensures
            ({
                let ev = marks(self.view());
                let a = acc_final(ev, now_ns as int);
                &&& r.current_uptime_seconds == uptime_secs(connected_since, now_ns)
                &&& r.total_events == ev.len()
                &&& if ev.len() == 0 {
                    &&& r.connected_events == 0 && r.error_events == 0 && r.disconnect_events == 0
                    &&& r.last_event is None && r.last_connected_at is None && r.last_error_at is None
                    &&& r.longest_uptime_seconds is None
                    &&& r.connected_seconds == 0 && r.observed_seconds == 0
                    &&& r.retry_attempts_last_hour == 0
                } else {
                    &&& r.connected_events == a.connected
                    &&& r.error_events == a.errors
                    &&& r.disconnect_events == a.disconnects
                    &&& (r.last_event matches Some(le) && le.timestamp@ == rfc3339_text(ev.last().0) && le.status@ == ev.last().1
                        && snapshot_of(le, self.view().last()))
                    &&& (match a.last_connected { Some(t) => r.last_connected_at matches Some(s) && s@ == rfc3339_text(t as i64), None => r.last_connected_at is None })
                    &&& (match a.last_error { Some(t) => r.last_error_at matches Some(s) && s@ == rfc3339_text(t as i64), None => r.last_error_at is None })
                    &&& r.longest_uptime_seconds == (if whole_secs(a.longest) > 0 { Some(whole_secs(a.longest) as u64) } else { None })
                    &&& r.connected_seconds == (if whole_secs(a.total) > 0 { whole_secs(a.total) as u64 } else { 0 })
                    &&& r.observed_seconds == whole_secs(now_ns - ev[0].0)
                    &&& r.retry_attempts_last_hour == retries_since(ev, now_ns - NANOS_PER_HOUR) as u32
                }
            }),
    {
        let ghost ev = marks(self.view());
        let uptime = connection_uptime(connected_since, now_ns);
        let n = self.events.len();
        if n == 0 {
            return ConnectionHealthSummary {
                total_events: 0,
                connected_events: 0,
                error_events: 0,
                disconnect_events: 0,
                last_event: None,
                last_connected_at: None,
                last_error_at: None,
                current_uptime_seconds: uptime,
                longest_uptime_seconds: None,
                connected_seconds: 0,
                observed_seconds: 0,
                retry_attempts_last_hour: 0,
            };
        }
        let mut connected: usize = 0;
        let mut errors: usize = 0;
        let mut disconnects: usize = 0;
        let mut since: Option<i64> = None;
        let mut last_ts: Option<i64> = None;
        let mut total: i128 = 0;
        let mut longest: i128 = 0;
        let mut last_connected: Option<i64> = None;
        let mut last_error: Option<i64> = None;
        let mut retries: u64 = 0;
        let hour_ago: i128 = (now_ns as i128) - (NANOS_PER_HOUR as i128);
        let mut i: usize = 0;
        while i < n
            invariant
                i <= n,
                n == self.events.len(),
                n < 0x4000_0000_0000_0000,
                ev == marks(self.view()),
                hour_ago == now_ns - NANOS_PER_HOUR,
                ({
                    let a = acc_fold(ev, i as int);
                    &&& connected == a.connected && errors == a.errors && disconnects == a.disconnects
                    &&& (match since { Some(t) => a.since == Some(t as int), None => a.since is None })
                    &&& (match last_ts { Some(t) => a.last_ts == Some(t as int), None => a.last_ts is None })
                    &&& (match last_connected { Some(t) => a.last_connected == Some(t as int), None => a.last_connected is None })
                    &&& (match last_error { Some(t) => a.last_error == Some(t as int), None => a.last_error is None })
                    &&& total == a.total && longest == a.longest
                    &&& connected + errors + disconnects <= i
                    &&& -(i as int) * 0x1_0000_0000_0000_0000 <= a.total <= (i as int) * 0x1_0000_0000_0000_0000
                    &&& -0x1_0000_0000_0000_0000 <= a.longest <= 0x1_0000_0000_0000_0000
                }),
                retries == retries_since(ev.take(i as int), now_ns - NANOS_PER_HOUR),
                retries <= i,
            decreases n - i,
        {
            let e = &self.events[i];
            let ts = e.timestamp_ns;
            assert(ev[i as int] == (ts, e.status@));
            assert(ev.take(i + 1).drop_last() =~= ev.take(i as int));
            if let (Some(prev), Some(_)) = (last_ts, since) {
                total = total + ((ts as i128) - (prev as i128));
            }
            last_ts = Some(ts);
            if status_is(&e.status, "CONNECTED") {
                connected = connected + 1;
                since = Some(ts);
                last_connected = Some(ts);
            } else if status_is(&e.status, "DISCONNECTED") {
                disconnects = disconnects + 1;
                if let Some(start) = since {
                    let span: i128 = (ts as i128) - (start as i128);
                    if span > longest {
                        longest = span;
                    }
                }
                since = None;
            } else if status_is(&e.status, "DISCONNECTING") {
                disconnects = disconnects + 1;
            } else if status_is(&e.status, "ERROR") {
                errors = errors + 1;
                last_error = Some(ts);
                if let Some(start) = since {
                    let span: i128 = (ts as i128) - (start as i128);
                    if span > longest {
                        longest = span;
                    }
                }
                since = None;
            } else if status_is(&e.status, "RETRYING") {
                errors = errors + 1;
                last_error = Some(ts);
                since = None;
            }
            if status_is(&e.status, "RETRYING") && (ts as i128) >= hour_ago {
                retries = retries + 1;
            }
            i = i + 1;
        }
        assert(ev.take(n as int) =~= ev);
        if let (Some(prev), Some(start)) = (last_ts, since) {
            let span_to_now: i128 = (now_ns as i128) - (start as i128);
            total = total + ((now_ns as i128) - (prev as i128));
            if span_to_now > longest {
                longest = span_to_now;
            }
        }
        let first = self.events[0].timestamp_ns;
        let window: i128 = (now_ns as i128) - (first as i128);
        let window_secs: i128 = if window >= 0 { window / 1_000_000_000 } else { -((-window) / 1_000_000_000) };
        let total_secs: i128 = if total >= 0 { total / 1_000_000_000 } else { -((-total) / 1_000_000_000) };
        let longest_secs: i128 = if longest >= 0 { longest / 1_000_000_000 } else { -((-longest) / 1_000_000_000) };
        let retry_count: u32 = retries as u32;
        assert(retry_count == retries_since(ev, now_ns - NANOS_PER_HOUR) as u32);
        ConnectionHealthSummary {
            total_events: n,
            connected_events: connected,
            error_events: errors,
            disconnect_events: disconnects,
            last_event: Some(self.events[n - 1].snapshot()),
            last_connected_at: opt_rfc3339(last_connected),
            last_error_at: opt_rfc3339(last_error),
            current_uptime_seconds: uptime,
            longest_uptime_seconds: if longest_secs > 0 { Some(longest_secs as u64) } else { None },
            connected_seconds: if total_secs > 0 { total_secs as u64 } else { 0 },
            observed_seconds: window_secs as i64,
            retry_attempts_last_hour: retry_count,
        }
    }
}


proof fn lemma_counts(ev: Seq<(i64, Seq<char>)>, n: int, from: int)
    requires
        0 <= n <= ev.len(),
    ensures
        acc_fold(ev, n).connected + acc_fold(ev, n).errors + acc_fold(ev, n).disconnects <= n,
        retries_since(ev.take(n), from) <= acc_fold(ev, n).errors,
    decreases n,
{
    if n > 0 {
        lemma_counts(ev, n - 1, from);
        assert(ev.take(n).drop_last() =~= ev.take(n - 1));
        assert(ev.take(n).last() == ev[n - 1]);
        reveal_strlit("RETRYING");
        reveal_strlit("ERROR");
        reveal_strlit("CONNECTED");
        reveal_strlit("DISCONNECTED");
        reveal_strlit("DISCONNECTING");
        assert("RETRYING"@.len() == 8);
        assert("ERROR"@.len() == 5);
        assert("CONNECTED"@.len() == 9);
        assert("DISCONNECTED"@.len() == 12);
        assert("DISCONNECTING"@.len() == 13);
        assert("RETRYING"@ != "CONNECTED"@);
        assert("RETRYING"@ != "DISCONNECTED"@);
        assert("RETRYING"@ != "DISCONNECTING"@);
        assert("RETRYING"@ != "ERROR"@);
    }
}

/// Every event is counted at most once among connections, errors and
/// disconnections, and the retries of the last hour are among the errors.
pub proof fn law_health_counts(ev: Seq<(i64, Seq<char>)>, from: int)
    ensures
        acc_fold(ev, ev.len() as int).connected + acc_fold(ev, ev.len() as int).errors
            + acc_fold(ev, ev.len() as int).disconnects <= ev.len(),
        retries_since(ev, from) <= acc_fold(ev, ev.len() as int).errors,
{
    lemma_counts(ev, ev.len() as int, from);
    assert(ev.take(ev.len() as int) =~= ev);
}

/// The log never holds more events than its capacity, and it always holds the
/// newest ones.
pub proof fn law_log_bounded(events: Seq<ConnectionEvent>, e: ConnectionEvent, cap: nat)
    requires
        events.len() <= cap,
    ensures
        keep_last(events.push(e), cap).len() <= cap,
        cap > 0 ==> keep_last(events.push(e), cap).last() == e,
{
}

/// DISCONNECTED and ERROR end a connected stretch.
pub open spec fn ends_stretch(st: Seq<char>) -> bool {
    st == "DISCONNECTED"@ || st == "ERROR"@
}

/// Events after which no stretch that began earlier is still open:
/// CONNECTED (a new one begins), DISCONNECTED, ERROR and RETRYING.
pub open spec fn breaks_stretch(st: Seq<char>) -> bool {
    st == "CONNECTED"@ || ends_stretch(st) || st == "RETRYING"@
}

/// Among the first `n` events, event `i` is a CONNECTED one that nothing
/// after it has ended or replaced: the connection is still up.
pub open spec fn open_from(ev: Seq<(i64, Seq<char>)>, n: int, i: int) -> bool {
    &&& 0 <= i < n
    &&& ev[i].1 == "CONNECTED"@
    &&& forall|k: int| i < k < n ==> !breaks_stretch(#[trigger] ev[k].1)
}

/// Among the first `n` events, CONNECTED event `i` is ended by the
/// DISCONNECTED or ERROR event `j`, with nothing in between that ends or
/// replaces the stretch.
pub open spec fn stretch(ev: Seq<(i64, Seq<char>)>, n: int, i: int, j: int) -> bool {
    &&& 0 <= i < j < n
    &&& ev[i].1 == "CONNECTED"@
    &&& ends_stretch(ev[j].1)
    &&& forall|k: int| i < k < j ==> !breaks_stretch(#[trigger] ev[k].1)
}

proof fn lemma_statuses_differ()
    ensures
        "CONNECTED"@ != "DISCONNECTED"@,
        "CONNECTED"@ != "DISCONNECTING"@,
        "CONNECTED"@ != "ERROR"@,
        "CONNECTED"@ != "RETRYING"@,
        "DISCONNECTED"@ != "DISCONNECTING"@,
        "DISCONNECTED"@ != "ERROR"@,
        "DISCONNECTED"@ != "RETRYING"@,
        "DISCONNECTING"@ != "ERROR"@,
        "DISCONNECTING"@ != "RETRYING"@,
        "ERROR"@ != "RETRYING"@,
{
    reveal_strlit("RETRYING");
    reveal_strlit("ERROR");
    reveal_strlit("CONNECTED");
    reveal_strlit("DISCONNECTED");
    reveal_strlit("DISCONNECTING");
    assert("RETRYING"@.len() == 8);
    assert("ERROR"@.len() == 5);
    assert("CONNECTED"@.len() == 9);
    assert("DISCONNECTED"@.len() == 12);
    assert("DISCONNECTING"@.len() == 13);
    assert("DISCONNECTED"@[11] != "DISCONNECTING"@[11]);
}

/// What the fold keeps of the stretches over the first `n` events: the start
/// of the open one, and the longest ended one (0 without any).
proof fn lemma_stretches(ev: Seq<(i64, Seq<char>)>, n: int)
    requires
        0 <= n <= ev.len(),
    ensures
        ({
            let a = acc_fold(ev, n);
            &&& n > 0 ==> a.last_ts == Some(ev[n - 1].0 as int)
            &&& match a.since {
                Some(x) => exists|i: int| open_from(ev, n, i) && x == ev[i].0,
                None => forall|i: int| !open_from(ev, n, i),
            }
            &&& a.longest >= 0
            &&& forall|i: int, j: int| stretch(ev, n, i, j) ==> a.longest >= ev[j].0 - ev[i].0
            &&& (a.longest == 0 || exists|i: int, j: int| stretch(ev, n, i, j) && a.longest == ev[j].0 - ev[i].0)
        }),
    decreases n,
{
    lemma_statuses_differ();
    if n > 0 {
        let m = n - 1;
        lemma_stretches(ev, m);
        let a = acc_fold(ev, m);
        let b = acc_fold(ev, n);
        let ts = ev[m].0 as int;
        let st = ev[m].1;
        assert(b == acc_step(a, ts, st));
        // open stretches after event m
        assert forall|i: int| open_from(ev, n, i) implies open_from(ev, m, i) || (i == m && st == "CONNECTED"@) by {
            if i < m {
                assert forall|k: int| i < k < m implies !breaks_stretch(#[trigger] ev[k].1) by {
                    assert(i < k < n);
                }
            }
        }
        assert forall|i: int| open_from(ev, m, i) && !breaks_stretch(st) implies open_from(ev, n, i) by {
            assert forall|k: int| i < k < n implies !breaks_stretch(#[trigger] ev[k].1) by {
                if k < m {
                    assert(i < k < m);
                }
            }
        }
        if st == "CONNECTED"@ {
            assert(open_from(ev, n, m));
        }
        // stretches ending at m
        assert forall|i: int, j: int| stretch(ev, n, i, j) implies stretch(ev, m, i, j) || (j == m && open_from(ev, m, i)) by {
            if j < m {
                assert forall|k: int| i < k < j implies !breaks_stretch(#[trigger] ev[k].1) by {
                    assert(i < k < j);
                }
            } else {
                assert forall|k: int| i < k < m implies !breaks_stretch(#[trigger] ev[k].1) by {
                    assert(i < k < j);
                }
            }
        }
        assert forall|i: int, j: int| stretch(ev, m, i, j) implies stretch(ev, n, i, j) by {
            assert forall|k: int| i < k < j implies !breaks_stretch(#[trigger] ev[k].1) by {
                assert(i < k < j);
            }
        }
        if ends_stretch(st) {
            match a.since {
                Some(x) => {
                    let i = choose|i: int| open_from(ev, m, i) && x == ev[i].0;
                    assert(stretch(ev, n, i, m));
                    assert forall|i2: int| open_from(ev, m, i2) implies i2 == i by {
                        if i2 < i {
                            assert(breaks_stretch(ev[i].1));
                        } else if i < i2 {
                            assert(breaks_stretch(ev[i2].1));
                        }
                    }
                },
                None => {},
            }
        }
        if st == "CONNECTED"@ {
            assert forall|i: int| open_from(ev, n, i) implies i == m by {
                if i < m {
                    assert(breaks_stretch(ev[m].1));
                }
            }
        }
    }
}

/// The longest uptime of the health summary (before it is turned into
/// whole seconds) is the longest connected stretch: at least the length of
/// every stretch from a CONNECTED event to the DISCONNECTED or ERROR event
/// that ends it, and of the stretch still open at `now`; and it is the
/// length of one of them (or 0 when there is none).
pub proof fn law_longest_uptime(ev: Seq<(i64, Seq<char>)>, now: int)
    ensures
        ({
            let l = acc_final(ev, now).longest;
            &&& forall|i: int, j: int| stretch(ev, ev.len() as int, i, j) ==> l >= ev[j].0 - ev[i].0
            &&& forall|i: int| open_from(ev, ev.len() as int, i) ==> l >= now - ev[i].0
            &&& l >= 0
            &&& (l == 0 || (exists|i: int, j: int| stretch(ev, ev.len() as int, i, j) && l == ev[j].0 - ev[i].0)
                || (exists|i: int| open_from(ev, ev.len() as int, i) && l == now - ev[i].0))
        }),
{
    let n = ev.len() as int;
    lemma_stretches(ev, n);
    lemma_statuses_differ();
    let a = acc_fold(ev, n);
    match a.since {
        Some(x) => {
            let i = choose|i: int| open_from(ev, n, i) && x == ev[i].0;
            assert(n > 0);
            assert forall|i2: int| open_from(ev, n, i2) implies i2 == i by {
                if i2 < i {
                    assert(breaks_stretch(ev[i].1));
                } else if i < i2 {
                    assert(breaks_stretch(ev[i2].1));
                }
            }
        },
        None => {},
    }
}

} // verus!

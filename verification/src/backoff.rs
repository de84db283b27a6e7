//! Decisions of the reconnect loop: when to try again, how long to wait
//! (exponential backoff), and when to give up, with the error reported then.
//! The caller performs the connection attempts and the waiting.

use vstd::prelude::*;
use crate::error::{error_text, retries_exceeded, Error};

verus! {

/// First delay between attempts, in seconds.
pub const INITIAL_BACKOFF_SECS: u64 = 1;
/// Largest delay between attempts, in seconds.
pub const MAX_BACKOFF_SECS: u64 = 30;

/// Delay before the retry that follows `k` failed attempts: 1 s, doubled after
/// each failure, at most 30 s.
pub open spec fn backoff_delay(k: nat) -> nat
    decreases k,
{
    if k == 0 {
        1
    } else {
        let prev = backoff_delay((k - 1) as nat);
        if 2 * prev <= 30 { 2 * prev } else { 30 }
    }
}

/// What a failed attempt is recorded as: the message of a connection
/// failure, or the text of any other error.
pub open spec fn failure_text(e: Error) -> Seq<char> {
    match e {
        Error::ConnectionFailed { source_message, .. } => source_message@,
        _ => error_text(e),
    }
}

/// The number of failed attempts after one more failure, as a `u32`
/// (stopping at its largest value).
pub open spec fn next_attempt(attempt: u32) -> u32 {
    if attempt < u32::MAX { (attempt + 1) as u32 } else { u32::MAX }
}

/// What one failed attempt is reported as.
pub struct RetryInfo {
    pub attempt: u32,
    pub delay_secs: u64,
    pub error: Error,
}

/// What to do after a failed attempt.
#[allow(inconsistent_fields)]
pub enum AfterFailure {
    /// Report `info`, wait `wait_secs`, then try again.
    Retry { info: RetryInfo, wait_secs: u64 },
    /// Report `info`, if any, then end with `error`.
    GiveUp { info: Option<RetryInfo>, error: Error },
}

/// State of a reconnect loop.
pub struct Backoff {
    pub max_retries: u32,
    pub max_total_ns: u128,
    pub attempt: u32,
    pub delay_secs: u64,
    pub last_error: String,
}

impl Backoff {
    /// The loop may still try: the retries are not used up and the delay
    /// follows the backoff schedule.
    pub open spec fn running(&self) -> bool {
        &&& self.attempt <= self.max_retries
        &&& self.delay_secs == backoff_delay(self.attempt as nat)
    }

    /// Starts a reconnect loop of at most `max_retries` retries within
    /// `max_total_ns` nanoseconds. Refused when the connect rate limit does
    /// not `permit` another attempt now.
    pub fn start(max_retries: u32, max_total_ns: u128, permitted: bool) -> (r: Result<Backoff, Error>)
        ensures
            permitted ==> (r matches Ok(b) && b.running() && b.attempt == 0 && b.max_retries == max_retries
                && b.max_total_ns == max_total_ns && b.last_error@.len() == 0),
            !permitted ==> (r matches Err(Error::RateLimitExceeded(op)) && op@ == "connect"@),
    {
        if !permitted {
            return Err(Error::RateLimitExceeded(String::from_str("connect")));
        }
        Ok(Backoff { max_retries, max_total_ns, attempt: 0, delay_secs: INITIAL_BACKOFF_SECS, last_error: String::new() })
    }

    /// Checked before each attempt: once `elapsed_ns` reaches the total time,
    /// the loop ends with a timeout.
    pub fn check_deadline(&self, elapsed_ns: u128) -> (r: Option<Error>)
        ensures
            elapsed_ns >= self.max_total_ns ==> r == Some(Error::Timeout),
            elapsed_ns < self.max_total_ns ==> r is None,
    {
        if elapsed_ns >= self.max_total_ns {
            Some(Error::Timeout)
        } else {
            None
        }
    }

    /// Records a failed attempt `e`, observed after `elapsed_ns`, and decides
    /// what follows. A client that is already connected ends the loop with
    /// that error. Otherwise the failure is counted and reported; the loop
    /// gives up with "retries exceeded" once the retries are used up, with a
    /// timeout when the next wait would end after the total time, and else
    /// waits the current delay, which then doubles (at most 30 s).
    pub fn record_failure(&mut self, e: Error, elapsed_ns: u128) -> (r: AfterFailure)
        requires
            old(self).running(),
        ensures
            (e is AlreadyConnected) ==> (r matches AfterFailure::GiveUp { info: None, error: Error::AlreadyConnected }
                && *final(self) == *old(self)),
            !(e is AlreadyConnected) ==> {
                let err = failure_text(e);
                let n = old(self).attempt + 1;
                let info = RetryInfo { attempt: next_attempt(old(self).attempt), delay_secs: old(self).delay_secs, error: e };
                &&& final(self).attempt == next_attempt(old(self).attempt)
                &&& final(self).last_error@ == err
                &&& final(self).max_retries == old(self).max_retries
                &&& final(self).max_total_ns == old(self).max_total_ns
                &&& if n > old(self).max_retries {
                    r matches AfterFailure::GiveUp { info: Some(i), error: Error::RetriesExceeded { attempts, error, .. } }
                        && i == info && attempts == next_attempt(old(self).attempt) && error@ == err
                } else if elapsed_ns + old(self).delay_secs * 1_000_000_000 > old(self).max_total_ns {
                    r matches AfterFailure::GiveUp { info: Some(i), error: Error::Timeout } && i == info
                } else {
                    &&& r matches AfterFailure::Retry { info: i, wait_secs } && i == info && wait_secs == old(self).delay_secs
                    &&& final(self).running()
                }
            },
    {
        if let Error::AlreadyConnected = e {
            return AfterFailure::GiveUp { info: None, error: Error::AlreadyConnected };
        }
        match &e {
            Error::ConnectionFailed { source_message, .. } => {
                self.last_error = source_message.clone();
            },
            _ => {
                self.last_error = e.message();
            },
        }
        let used_up = self.attempt >= self.max_retries;
        self.attempt = if self.attempt < u32::MAX { self.attempt + 1 } else { u32::MAX };
        let delay = self.delay_secs;
        let info = RetryInfo { attempt: self.attempt, delay_secs: delay, error: e };
        if used_up {
            let error = retries_exceeded(self.attempt, self.last_error.clone());
            return AfterFailure::GiveUp { info: Some(info), error };
        }
        let wait_ns: u128 = (delay as u128) * 1_000_000_000;
        if elapsed_ns > self.max_total_ns || wait_ns > self.max_total_ns - elapsed_ns {
            return AfterFailure::GiveUp { info: Some(info), error: Error::Timeout };
        }
        self.delay_secs = if delay * 2 <= MAX_BACKOFF_SECS { delay * 2 } else { MAX_BACKOFF_SECS };
        proof {
            law_backoff_delay_bounded(old(self).attempt as nat);
        }
        AfterFailure::Retry { info, wait_secs: delay }
    }
}

/// The wait between attempts is always between 1 and 30 seconds.
pub proof fn law_backoff_delay_bounded(k: nat)
    ensures
        1 <= backoff_delay(k) <= 30,
    decreases k,
{
    if k > 0 {
        law_backoff_delay_bounded((k - 1) as nat);
    }
}

/// The wait doubles after each failure until it reaches 30 seconds, and stays
/// there.
pub proof fn law_backoff_delay_doubles(k: nat)
    ensures
        backoff_delay(k) < 30 ==> backoff_delay(k) == pow2_capped(k),
        backoff_delay(k + 1) == if 2 * backoff_delay(k) <= 30 { 2 * backoff_delay(k) } else { 30 },
    decreases k,
{
    if k > 0 {
        law_backoff_delay_doubles((k - 1) as nat);
        law_backoff_delay_bounded((k - 1) as nat);
    }
}

/// `2^k`, for the doubling law.
pub open spec fn pow2_capped(k: nat) -> nat
    decreases k,
{
    if k == 0 { 1 } else { 2 * pow2_capped((k - 1) as nat) }
}

} // verus!

//! The library's error type and the texts shown for each error.

use vstd::prelude::*;
use crate::text::{decimal, u64_to_decimal};

verus! {

/// The phase of a connection attempt in which it failed.
#[derive(Clone, Copy, Debug, PartialEq, Eq, Structural)]
pub enum ConnectionStep {
    BuildConfig,
    Bootstrap,
    Timeout,
    RetriesExceeded,
}

/// The text shown for a connection step.
pub open spec fn step_text(s: ConnectionStep) -> Seq<char> {
    match s {
        ConnectionStep::BuildConfig => "build_config"@,
        ConnectionStep::Bootstrap => "bootstrap"@,
        ConnectionStep::Timeout => "timeout"@,
        ConnectionStep::RetriesExceeded => "retries_exceeded"@,
    }
}

impl ConnectionStep {
    /// The text shown for the step (`build_config`, `bootstrap`, ...).
    pub fn message(&self) -> (r: String)
        ensures
            r@ == step_text(*self),
    {
        match self {
            ConnectionStep::BuildConfig => String::from_str("build_config"),
            ConnectionStep::Bootstrap => String::from_str("bootstrap"),
            ConnectionStep::Timeout => String::from_str("timeout"),
            ConnectionStep::RetriesExceeded => String::from_str("retries_exceeded"),
        }
    }
}

/// Errors reported by the library and the application around it.
#[allow(inconsistent_fields)]
#[derive(Debug)]
pub enum Error {
    Tor(String),
    Io(String),
    Tauri(String),
    NotConnected,
    AlreadyConnected,
    Timeout,
    NoCircuit,
    Bootstrap(String),
    NetDir { source_message: String },
    Circuit { source_message: String },
    Network { source_message: String },
    ConnectionFailed { step: ConnectionStep, source_message: String, backtrace: String },
    Identity { step: String, source_message: String, backtrace: String },
    RateLimitExceeded(String),
    ConfigError { step: String, source_message: String, backtrace: String },
    NetworkFailure { step: String, source_message: String, backtrace: String },
    InsecureScheme { host: String, url: String },
    RetriesExceeded { attempts: u32, error: String, backtrace: String },
    BridgeParse(String),
    Lookup(String),
    InvalidToken,
    Gpu(String),
    Reqwest { source_message: String },
    ArtiClient { source_message: String },
}

/// The message shown for an error.
pub open spec fn error_text(e: Error) -> Seq<char> {
    match e {
        Error::Tor(s) => "Tor Error: "@ + s@,
        Error::Io(s) => "I/O Error: "@ + s@,
        Error::Tauri(s) => "Tauri Error: "@ + s@,
        Error::NotConnected => "Client not initialized"@,
        Error::AlreadyConnected => "Client is already connected"@,
        Error::Timeout => "Connection timed out"@,
        Error::NoCircuit => "No circuit available"@,
        Error::Bootstrap(s) => "Failed to bootstrap Tor: "@ + s@,
        Error::NetDir { source_message } => "Failed to obtain network directory: "@ + source_message@,
        Error::Circuit { source_message } => "Circuit operation failed: "@ + source_message@,
        Error::Network { source_message } => "Network error: "@ + source_message@,
        Error::ConnectionFailed { step, source_message, .. } =>
            "connection failed during "@ + step_text(step) + ": "@ + source_message@,
        Error::Identity { step, source_message, .. } =>
            "identity change failed during "@ + step@ + ": "@ + source_message@,
        Error::RateLimitExceeded(s) => "Rate limit exceeded for "@ + s@,
        Error::ConfigError { step, source_message, .. } =>
            "configuration error during "@ + step@ + ": "@ + source_message@,
        Error::NetworkFailure { step, source_message, .. } =>
            "network failure during "@ + step@ + ": "@ + source_message@,
        Error::InsecureScheme { host, .. } => "insecure HTTP access to "@ + host@,
        Error::RetriesExceeded { attempts, error, .. } =>
            "connection failed after "@ + decimal(attempts as nat) + " retries: "@ + error@,
        Error::BridgeParse(s) => "bridge parsing failed: "@ + s@,
        Error::Lookup(s) => "country lookup failed: "@ + s@,
        Error::InvalidToken => "Invalid session token"@,
        Error::Gpu(s) => "GPU error: "@ + s@,
        Error::Reqwest { source_message } => "Reqwest error: "@ + source_message@,
        Error::ArtiClient { source_message } => "Arti client error: "@ + source_message@,
    }
}

/// Concatenation of a literal prefix and a string.
fn prefixed(prefix: &str, rest: &str) -> (r: String)
    ensures
        r@ == prefix@ + rest@,
{
    let s = String::from_str(prefix);
    s.concat(rest)
}

/// `a + ": " + b` after a literal prefix.
fn prefixed_pair(prefix: &str, a: &str, b: &str) -> (r: String)
    ensures
        r@ == prefix@ + a@ + ": "@ + b@,
{
    let s = String::from_str(prefix);
    let s = s.concat(a);
    let s = s.concat(": ");
    s.concat(b)
}

impl Error {
    /// The message shown for the error.
    pub fn message(&self) -> (r: String)
        ensures
            r@ == error_text(*self),
    {
        match self {
            Error::Tor(s) => prefixed("Tor Error: ", s.as_str()),
            Error::Io(s) => prefixed("I/O Error: ", s.as_str()),
            Error::Tauri(s) => prefixed("Tauri Error: ", s.as_str()),
            Error::NotConnected => String::from_str("Client not initialized"),
            Error::AlreadyConnected => String::from_str("Client is already connected"),
            Error::Timeout => String::from_str("Connection timed out"),
            Error::NoCircuit => String::from_str("No circuit available"),
            Error::Bootstrap(s) => prefixed("Failed to bootstrap Tor: ", s.as_str()),
            Error::NetDir { source_message } =>
                prefixed("Failed to obtain network directory: ", source_message.as_str()),
            Error::Circuit { source_message } =>
                prefixed("Circuit operation failed: ", source_message.as_str()),
            Error::Network { source_message } => prefixed("Network error: ", source_message.as_str()),
            Error::ConnectionFailed { step, source_message, .. } => {
                let st = step.message();
                prefixed_pair("connection failed during ", st.as_str(), source_message.as_str())
            },
            Error::Identity { step, source_message, .. } =>
                prefixed_pair("identity change failed during ", step.as_str(), source_message.as_str()),
            Error::RateLimitExceeded(s) => prefixed("Rate limit exceeded for ", s.as_str()),
            Error::ConfigError { step, source_message, .. } =>
                prefixed_pair("configuration error during ", step.as_str(), source_message.as_str()),
            Error::NetworkFailure { step, source_message, .. } =>
                prefixed_pair("network failure during ", step.as_str(), source_message.as_str()),
            Error::InsecureScheme { host, .. } => prefixed("insecure HTTP access to ", host.as_str()),
            Error::RetriesExceeded { attempts, error, .. } => {
                let n = u64_to_decimal(*attempts as u64);
                let s = String::from_str("connection failed after ");
                let s = s.concat(n.as_str());
                let s = s.concat(" retries: ");
                s.concat(error.as_str())
            },
            Error::BridgeParse(s) => prefixed("bridge parsing failed: ", s.as_str()),
            Error::Lookup(s) => prefixed("country lookup failed: ", s.as_str()),
            Error::InvalidToken => String::from_str("Invalid session token"),
            Error::Gpu(s) => prefixed("GPU error: ", s.as_str()),
            Error::Reqwest { source_message } => prefixed("Reqwest error: ", source_message.as_str()),
            Error::ArtiClient { source_message } =>
                prefixed("Arti client error: ", source_message.as_str()),
        }
    }
}

/// The step and source text that status events carry for an error: those of
/// connection, identity, network and configuration failures, and empty texts
/// for every other error.
pub open spec fn error_details(e: Error) -> (Seq<char>, Seq<char>) {
    match e {
        Error::ConnectionFailed { step, source_message, .. } => (step_text(step), source_message@),
        Error::Identity { step, source_message, .. } => (step@, source_message@),
        Error::NetworkFailure { step, source_message, .. } => (step@, source_message@),
        Error::ConfigError { step, source_message, .. } => (step@, source_message@),
        _ => (Seq::empty(), Seq::empty()),
    }
}

/// The `errorStep` and `errorSource` of a status event for `e`.
pub fn status_details(e: &Error) -> (r: (String, String))
    ensures
        (r.0@, r.1@) == error_details(*e),
{
    match e {
        Error::ConnectionFailed { step, source_message, .. } => (step.message(), source_message.clone()),
        Error::Identity { step, source_message, .. } => (step.clone(), source_message.clone()),
        Error::NetworkFailure { step, source_message, .. } => (step.clone(), source_message.clone()),
        Error::ConfigError { step, source_message, .. } => (step.clone(), source_message.clone()),
        _ => (String::new(), String::new()),
    }
}

/// Text of the current backtrace, as `format!("{:?}", Backtrace::capture())`
/// renders it. What it holds depends on the environment (whether backtraces
/// are enabled) and on the call stack, so nothing is stated of it.
#[verifier::external_body]
pub(crate) fn capture_backtrace() -> String {
    format!("{:?}", std::backtrace::Backtrace::capture())
}

/// The error of a reconnect loop that used up its retries after `attempts`
/// failed attempts, the last of which failed with `error`; it carries a
/// backtrace.
pub fn retries_exceeded(attempts: u32, error: String) -> (e: Error)
    ensures
        e matches Error::RetriesExceeded { attempts: a, error: m, .. } && a == attempts && m@ == error@,
{
    Error::RetriesExceeded { attempts, error, backtrace: capture_backtrace() }
}

/// A connection failure for `step` with the given message, carrying a
/// backtrace.
pub fn connection_failed(step: ConnectionStep, msg: String) -> (e: Error)
    ensures
        e matches Error::ConnectionFailed { step: s, source_message, .. } && s == step && source_message@ == msg@,
{
    Error::ConnectionFailed { step, source_message: msg, backtrace: capture_backtrace() }
}

} // verus!

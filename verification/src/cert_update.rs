//! Certificate updates of the pinned HTTP client: the configuration with its
//! defaults and overrides, the list of update URLs, and the bookkeeping of
//! failed updates with its warning and extra wait.

use vstd::prelude::*;
use crate::http_policy::{parse_tls_version, TlsVersion};
use crate::text::{decimal, has_substring, parse_u64, parsed_u64, str_contains, u64_to_decimal};
use crate::workers::append_str;

verus! {

/// Where the pinned server certificate is kept when nothing else is set.
pub open spec fn default_cert_path_text() -> Seq<char> {
    "src-tauri/certs/server.pem"@
}

/// Where updated certificates are fetched from when nothing else is set.
pub open spec fn default_cert_url_text() -> Seq<char> {
    "https://certs.torwell.com/server.pem"@
}

/// Seconds between certificate updates when nothing else is set: one day.
pub const DEFAULT_UPDATE_INTERVAL_SECS: u64 = 86400;

/// Extra wait, in seconds, after repeated update failures: one hour.
pub const FAILURE_BACKOFF_SECS: u64 = 3600;

/// Number of consecutive failures from which a warning is raised.
pub const FAILURE_WARNING_THRESHOLD: u32 = 3;

/// The default certificate path.
pub fn default_cert_path() -> (r: String)
    ensures
        r@ == default_cert_path_text(),
{
    String::from_str("src-tauri/certs/server.pem")
}

/// The default certificate update URL.
pub fn default_cert_url() -> (r: String)
    ensures
        r@ == default_cert_url_text(),
{
    String::from_str("https://certs.torwell.com/server.pem")
}

/// The default minimum TLS version setting, `1.2`.
pub fn default_min_tls_version() -> (r: Option<String>)
    ensures
        r matches Some(v) && v@ == "1.2"@,
{
    Some(String::from_str("1.2"))
}

/// The default update interval in seconds.
pub fn default_update_interval() -> (r: u64)
    ensures
        r == DEFAULT_UPDATE_INTERVAL_SECS,
{
    60 * 60 * 24
}

/// Operating systems with their own certificate location.
#[derive(Clone, Copy, Debug, PartialEq, Eq, Structural)]
pub enum TargetOs {
    Windows,
    MacOs,
    Other,
}

/// The certificate configuration file's settings.
pub struct CertConfig {
    pub cert_path: String,
    pub cert_path_windows: Option<String>,
    pub cert_path_macos: Option<String>,
    pub cert_url: String,
    pub fallback_cert_url: Option<String>,
    pub min_tls_version: Option<String>,
    pub update_interval: u64,
}

/// View of an optional string.
pub open spec fn opt_view(o: Option<String>) -> Option<Seq<char>> {
    match o {
        Some(s) => Some(s@),
        None => None,
    }
}

impl CertConfig {
    /// The settings used when the configuration file is missing or cannot
    /// be read: the default path, URL, TLS version and interval, and the
    /// per-platform paths under the application data folders.
    pub fn default_config() -> (r: CertConfig)
        ensures
            r.cert_path@ == default_cert_path_text(),
            opt_view(r.cert_path_windows) == Some("%APPDATA%\\Torwell84\\server.pem"@),
            opt_view(r.cert_path_macos) == Some("/Library/Application Support/Torwell84/server.pem"@),
            r.cert_url@ == default_cert_url_text(),
            r.fallback_cert_url is None,
            opt_view(r.min_tls_version) == Some("1.2"@),
            r.update_interval == DEFAULT_UPDATE_INTERVAL_SECS,
    {
        CertConfig {
            cert_path: default_cert_path(),
            cert_path_windows: Some(String::from_str("%APPDATA%\\Torwell84\\server.pem")),
            cert_path_macos: Some(String::from_str("/Library/Application Support/Torwell84/server.pem")),
            cert_url: default_cert_url(),
            fallback_cert_url: None,
            min_tls_version: default_min_tls_version(),
            update_interval: default_update_interval(),
        }
    }

    /// Uses the platform's own certificate path, where one is set, on
    /// Windows and macOS.
    pub fn apply_platform_path(&mut self, os: TargetOs)
        ensures
            final(self).cert_path@ == (match (os, opt_view(old(self).cert_path_windows), opt_view(
                old(self).cert_path_macos,
            )) {
                (TargetOs::Windows, Some(p), _) => p,
                (TargetOs::MacOs, _, Some(p)) => p,
                _ => old(self).cert_path@,
            }),
            opt_view(final(self).cert_path_windows) == opt_view(old(self).cert_path_windows),
            opt_view(final(self).cert_path_macos) == opt_view(old(self).cert_path_macos),
            final(self).cert_url@ == old(self).cert_url@,
            opt_view(final(self).fallback_cert_url) == opt_view(old(self).fallback_cert_url),
            opt_view(final(self).min_tls_version) == opt_view(old(self).min_tls_version),
            final(self).update_interval == old(self).update_interval,
    {
        match os {
            TargetOs::Windows => {
                if let Some(p) = &self.cert_path_windows {
                    self.cert_path = p.clone();
                }
            },
            TargetOs::MacOs => {
                if let Some(p) = &self.cert_path_macos {
                    self.cert_path = p.clone();
                }
            },
            TargetOs::Other => {},
        }
    }
}

/// Overrides read from the environment (`TORWELL_CERT_URL`,
/// `TORWELL_CERT_PATH`, `TORWELL_FALLBACK_CERT_URL`,
/// `TORWELL_UPDATE_INTERVAL`), each as found.
pub struct CertEnv {
    pub cert_url: Option<String>,
    pub cert_path: Option<String>,
    pub fallback_cert_url: Option<String>,
    pub update_interval: Option<String>,
}

/// What the client starts with: the certificate path, the update URLs (the
/// main one, then the fallback), the interval, the minimum TLS version and
/// whether the URL still points to the placeholder domain.
pub struct CertPlan {
    pub cert_path: String,
    pub urls: Vec<String>,
    pub interval_secs: u64,
    pub min_tls: TlsVersion,
    pub placeholder_url: bool,
}

/// Text that marks a placeholder update URL.
pub open spec fn placeholder_domain() -> Seq<char> {
    "example.com"@
}

/// The value of an override: the argument if given, else the environment's,
/// else the file's.
pub open spec fn pick(arg: Option<Seq<char>>, env: Option<Seq<char>>, file: Seq<char>) -> Seq<char> {
    match arg {
        Some(a) => a,
        None => match env {
            Some(e) => e,
            None => file,
        },
    }
}

/// Which value a certificate setting takes (the pinned path is
/// `pick(cert_path, env.cert_path, cfg.cert_path)` and the first update URL
/// likewise, see [`resolve_cert_plan`]): an explicit argument always wins,
/// whatever the environment and the file hold; the environment's value is
/// used only without an argument, and the file's only without either.
pub proof fn law_argument_overrides_environment(
    arg: Option<Seq<char>>,
    env: Option<Seq<char>>,
    other_env: Option<Seq<char>>,
    file: Seq<char>,
    other_file: Seq<char>,
)
    ensures
        arg matches Some(a) ==> pick(arg, env, file) == a,
        arg is Some ==> pick(arg, env, file) == pick(arg, other_env, other_file),
        arg is None ==> (env matches Some(e) ==> pick(arg, env, file) == e),
        arg is None && env is None ==> pick(arg, env, file) == file,
        arg is None && env is Some ==> pick(arg, env, file) == pick(arg, env, other_file),
{
}

/// The warning shown while the update URL still points to the placeholder
/// domain.
pub open spec fn placeholder_warning_text() -> Seq<char> {
    "Certificate URL still points to example.com; update cert_url in cert_config.json"@
}

/// The placeholder warning.
pub fn placeholder_warning() -> (r: String)
    ensures
        r@ == placeholder_warning_text(),
{
    String::from_str("Certificate URL still points to example.com; update cert_url in cert_config.json")
}

fn take_override(arg: Option<String>, env: Option<String>, file: String) -> (r: String)
    ensures
        r@ == pick(opt_view(arg), opt_view(env), file@),
{
    match arg {
        Some(a) => a,
        None => match env {
            Some(e) => e,
            None => file,
        },
    }
}

/// Combines the configuration file with the environment and the caller's
/// arguments: arguments win over the environment, which wins over the file;
/// an environment interval counts only if it is a number; the interval
/// argument wins over all. The URLs are the update URL and, if set, the
/// fallback.
pub fn resolve_cert_plan(
    cfg: CertConfig,
    env: CertEnv,
    cert_path: Option<String>,
    cert_url: Option<String>,
    fallback_cert_url: Option<String>,
    interval_secs: Option<u64>,
) -> (r: CertPlan)
    ensures
        r.cert_path@ == pick(opt_view(cert_path), opt_view(env.cert_path), cfg.cert_path@),
        cert_path matches Some(a) ==> r.cert_path@ == a@,
        cert_url matches Some(u) ==> r.urls@[0]@ == u@,
        r.urls@.len() == if fallback_cert_url is Some || env.fallback_cert_url is Some
            || cfg.fallback_cert_url is Some { 2int } else { 1int },
        r.urls@[0]@ == pick(opt_view(cert_url), opt_view(env.cert_url), cfg.cert_url@),
        r.urls@.len() == 2 ==> r.urls@[1]@ == (match (opt_view(fallback_cert_url), opt_view(
            env.fallback_cert_url,
        ), opt_view(cfg.fallback_cert_url)) {
            (Some(a), _, _) => a,
            (None, Some(e), _) => e,
            (None, None, Some(f)) => f,
            _ => Seq::empty(),
        }),
        r.interval_secs == (match interval_secs {
            Some(i) => i,
            None => match env.update_interval {
                Some(t) => match parsed_u64(t@) {
                    Some(v) => v,
                    None => cfg.update_interval,
                },
                None => cfg.update_interval,
            },
        }),
        r.min_tls == (if opt_view(cfg.min_tls_version) == Some("1.3"@) {
            TlsVersion::Tls13
        } else {
            TlsVersion::Tls12
        }),
        r.placeholder_url == has_substring(r.urls@[0]@, placeholder_domain()),
{
    let path = take_override(cert_path, env.cert_path, cfg.cert_path);
    let url = take_override(cert_url, env.cert_url, cfg.cert_url);
    let fallback = match fallback_cert_url {
        Some(a) => Some(a),
        None => match env.fallback_cert_url {
            Some(e) => Some(e),
            None => cfg.fallback_cert_url,
        },
    };
    let file_interval = cfg.update_interval;
    let interval = match interval_secs {
        Some(i) => i,
        None => match env.update_interval {
            Some(t) => match parse_u64(t.as_str()) {
                Some(v) => v,
                None => file_interval,
            },
            None => file_interval,
        },
    };
    let min_tls = match &cfg.min_tls_version {
        Some(v) => parse_tls_version(Some(v.as_str())),
        None => parse_tls_version(None),
    };
    let placeholder = str_contains(url.as_str(), "example.com");
    let mut urls: Vec<String> = Vec::new();
    urls.push(url);
    match fallback {
        Some(f) => urls.push(f),
        None => {},
    }
    CertPlan { cert_path: path, urls, interval_secs: interval, min_tls, placeholder_url: placeholder }
}

/// The update URLs used when the interval is changed at run time: the
/// configured URL (or the default), then the configured fallback if any;
/// the environment's URL replaces the first, and its fallback replaces the
/// second or is added.
pub fn update_urls(
    cert_url: Option<String>,
    fallback: Option<String>,
    env_url: Option<String>,
    env_fallback: Option<String>,
) -> (r: Vec<String>)
    ensures
        r@.len() == if fallback is Some || env_fallback is Some { 2int } else { 1int },
        r@[0]@ == (match opt_view(env_url) {
            Some(e) => e,
            None => match opt_view(cert_url) {
                Some(c) => c,
                None => default_cert_url_text(),
            },
        }),
        r@.len() == 2 ==> r@[1]@ == (match opt_view(env_fallback) {
            Some(e) => e,
            None => opt_view(fallback)->0,
        }),
{
    let first = match env_url {
        Some(e) => e,
        None => match cert_url {
            Some(c) => c,
            None => default_cert_url(),
        },
    };
    let mut urls: Vec<String> = Vec::new();
    urls.push(first);
    match env_fallback {
        Some(e) => urls.push(e),
        None => match fallback {
            Some(f) => urls.push(f),
            None => {},
        },
    }
    urls
}

/// The warning after `n` consecutive failed updates.
pub open spec fn failure_warning_text(n: nat) -> Seq<char> {
    decimal(n) + " consecutive certificate update failures"@
}

/// Renders the warning after `n` consecutive failed updates.
pub fn failure_warning(n: u32) -> (r: String)
    ensures
        r@ == failure_warning_text(n as nat),
{
    let mut s = u64_to_decimal(n as u64);
    append_str(&mut s, " consecutive certificate update failures");
    s
}

/// Failed certificate updates: how many in a row, and the extra wait owed
/// before the next scheduled attempt.
pub struct CertUpdateTracker {
    failures: u32,
    backoff_secs: Option<u64>,
}

impl CertUpdateTracker {
    pub closed spec fn failures_view(&self) -> nat {
        self.failures as nat
    }

    pub closed spec fn backoff_view(&self) -> Option<u64> {
        self.backoff_secs
    }

    /// No failures and no extra wait.
    pub fn new() -> (r: CertUpdateTracker)
        ensures
            r.failures_view() == 0,
            r.backoff_view() is None,
    {
        CertUpdateTracker { failures: 0, backoff_secs: None }
    }

    /// Consecutive failed updates so far.
    pub fn failures(&self) -> (r: u32)
        ensures
            r == self.failures_view(),
    {
        self.failures
    }

    /// The extra wait owed, if any.
    pub fn backoff(&self) -> (r: Option<u64>)
        ensures
            r == self.backoff_view(),
    {
        self.backoff_secs
    }

    /// An update succeeded: the count and the extra wait are cleared.
    pub fn record_success(&mut self)
        ensures
            final(self).failures_view() == 0,
            final(self).backoff_view() is None,
    {
        self.failures = 0;
        self.backoff_secs = None;
    }

    /// Every URL failed: the count goes up; from the third failure in a row
    /// on, a warning is returned and an extra hour of waiting is owed.
    pub fn record_failure(&mut self) -> (warning: Option<String>)
        requires
            old(self).failures_view() < u32::MAX,
        ensures
            final(self).failures_view() == old(self).failures_view() + 1,
            final(self).failures_view() >= 3 ==> (warning matches Some(w) && w@ == failure_warning_text(
                final(self).failures_view(),
            ) && final(self).backoff_view() == Some(FAILURE_BACKOFF_SECS)),
            final(self).failures_view() < 3 ==> warning is None && final(self).backoff_view()
                == old(self).backoff_view(),
    {
        self.failures = self.failures + 1;
        if self.failures >= FAILURE_WARNING_THRESHOLD {
            self.backoff_secs = Some(FAILURE_BACKOFF_SECS);
            Some(failure_warning(self.failures))
        } else {
            None
        }
    }

    /// Seconds until the next scheduled update: the interval plus the extra
    /// wait owed, which is then cleared.
    pub fn next_wait(&mut self, interval_secs: u64) -> (r: u64)
        requires
            old(self).backoff_view() matches Some(b) ==> interval_secs + b <= u64::MAX,
        ensures
            r == interval_secs + (match old(self).backoff_view() {
                Some(b) => b,
                None => 0,
            }),
            final(self).backoff_view() is None,
            final(self).failures_view() == old(self).failures_view(),
    {
        let extra = match self.backoff_secs.take() {
            Some(b) => b,
            None => 0,
        };
        interval_secs + extra
    }
}

/// The tray warning after an update check: with three or more failures in
/// a row and no warning shown yet, the failure warning; else nothing new.
pub fn tray_failure_warning(failures: u32, shown: bool) -> (r: Option<String>)
    ensures
        (failures >= 3 && !shown) ==> (r matches Some(w) && w@ == failure_warning_text(failures as nat)),
        !(failures >= 3 && !shown) ==> r is None,
{
    if failures >= FAILURE_WARNING_THRESHOLD && !shown {
        Some(failure_warning(failures))
    } else {
        None
    }
}

/// A client key and certificate read from a hardware security module.
pub struct HsmKeyPair {
    pub key: Vec<u8>,
    pub cert: Vec<u8>,
}

} // verus!

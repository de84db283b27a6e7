//! Transport policy of the HTTP client: which hosts may be reached over
//! plain HTTP, which hosts have asked for HTTPS (HSTS), and what happens to
//! a request URL before it is sent.

use vstd::prelude::*;
use crate::error::Error;
use crate::expiry::{is_valid, ExpiryTable};
use crate::http_policy::{header_max_age, parse_max_age};
use crate::text::{
    chars_of, decimal, has_substring, push_char, str_contains, str_equal, string_of, trim, trimmed,
    u64_to_decimal, vec_contains_str, views,
};
use crate::workers::append_str;

verus! {

/// What `url::Url::parse` gives for `s`: on success the scheme, the host
/// (if the URL has one), the explicit non-default port, and the URL's
/// serialization; on failure the error's message.
pub uninterp spec fn url_parse_result(s: Seq<char>) -> Result<
    (Seq<char>, Option<Seq<char>>, Option<u16>, Seq<char>),
    Seq<char>,
>;

/// The serialization of the URL `s` after `set_scheme("https")`.
pub uninterp spec fn https_form(s: Seq<char>) -> Seq<char>;

/// `str::to_lowercase` (full Unicode lower-casing).
pub uninterp spec fn unicode_lower(s: Seq<char>) -> Seq<char>;

/// The parts of a parsed URL that the policy reads.
pub struct UrlParts {
    pub scheme: String,
    pub host: Option<String>,
    pub port: Option<u16>,
    pub text: String,
}

/// View of an optional string.
pub open spec fn opt_str(o: Option<String>) -> Option<Seq<char>> {
    match o {
        Some(s) => Some(s@),
        None => None,
    }
}

impl UrlParts {
    pub open spec fn view(&self) -> (Seq<char>, Option<Seq<char>>, Option<u16>, Seq<char>) {
        (self.scheme@, opt_str(self.host), self.port, self.text@)
    }
}

/// Parses `s` with `url::Url::parse` (as reqwest re-exports it) and reads
/// its scheme, host, port and serialization; on failure the error's
/// `Display` text. The result is named, not stated: URL parsing follows the
/// WHATWG URL standard.
#[verifier::external_body]
fn parse_url(s: &str) -> (r: Result<UrlParts, String>)
    ensures
        url_parse_result(s@) == (match r {
            Ok(p) => Ok(p.view()),
            Err(e) => Err(e@),
        }),
{
    match reqwest::Url::parse(s) {
        Ok(u) => Ok(UrlParts {
            scheme: u.scheme().to_string(),
            host: u.host_str().map(|h| h.to_string()),
            port: u.port(),
            text: u.as_str().to_string(),
        }),
        Err(e) => Err(e.to_string()),
    }
}

/// The URL `s` switched to the `https` scheme with `url::Url::set_scheme`
/// (which, among other things, drops a port that is the new scheme's
/// default); a text that does not parse comes back unchanged. The result is
/// named, not stated.
#[verifier::external_body]
fn upgrade_to_https(s: &str) -> (r: String)
    ensures
        r@ == https_form(s@),
{
    match reqwest::Url::parse(s) {
        Ok(mut u) => {
            let _ = u.set_scheme("https");
            u.as_str().to_string()
        },
        Err(_) => s.to_string(),
    }
}

/// `str::to_lowercase`; named, as Unicode case mapping takes tables to
/// state.
#[verifier::external_body]
fn lowercase(s: &str) -> (r: String)
    ensures
        r@ == unicode_lower(s@),
{
    s.to_lowercase()
}

/// Number of leading `/` of `s`.
pub open spec fn lead_slashes(s: Seq<char>) -> nat
    decreases s.len(),
{
    if s.len() > 0 && s[0] == '/' { 1 + lead_slashes(s.drop_first()) } else { 0 }
}

/// Number of trailing `/` of `s`.
pub open spec fn trail_slashes(s: Seq<char>) -> nat
    decreases s.len(),
{
    if s.len() > 0 && s.last() == '/' { 1 + trail_slashes(s.drop_last()) } else { 0 }
}

/// `s` without leading and trailing `/` (`trim_matches('/')`).
pub open spec fn strip_slashes(s: Seq<char>) -> Seq<char> {
    let a = lead_slashes(s) as int;
    if a == s.len() {
        Seq::empty()
    } else {
        s.subrange(a, s.len() - trail_slashes(s) as int)
    }
}

proof fn lemma_lead_slashes(s: Seq<char>, i: int)
    requires
        0 <= i <= s.len(),
        forall|j: int| 0 <= j < i ==> s[j] == '/',
        i == s.len() || s[i] != '/',
    ensures
        lead_slashes(s) == i,
    decreases i,
{
    if i > 0 {
        let t = s.drop_first();
        assert forall|j: int| 0 <= j < i - 1 implies t[j] == '/' by {
            assert(t[j] == s[j + 1]);
        }
        if i < s.len() {
            assert(t[i - 1] == s[i]);
        }
        lemma_lead_slashes(t, i - 1);
    }
}

proof fn lemma_trail_slashes(s: Seq<char>, k: int)
    requires
        0 <= k <= s.len(),
        forall|j: int| s.len() - k <= j < s.len() ==> s[j] == '/',
        k == s.len() || s[s.len() - k - 1] != '/',
    ensures
        trail_slashes(s) == k,
    decreases k,
{
    if k > 0 {
        let t = s.drop_last();
        assert forall|j: int| t.len() - (k - 1) <= j < t.len() implies t[j] == '/' by {
            assert(t[j] == s[j]);
        }
        if k - 1 < t.len() {
            assert(t[t.len() - (k - 1) - 1] == s[s.len() - k - 1]);
        }
        lemma_trail_slashes(t, k - 1);
    }
}

/// `trim_matches('/')`.
fn strip_slashes_of(s: &str) -> (r: String)
    ensures
        r@ == strip_slashes(s@),
{
    let v = chars_of(s);
    let n = v.len();
    let mut a: usize = 0;
    while a < n && v[a] == '/'
        invariant
            a <= n,
            n == v.len(),
            v@ == s@,
            forall|j: int| 0 <= j < a ==> s@[j] == '/',
        decreases n - a,
    {
        a = a + 1;
    }
    proof {
        lemma_lead_slashes(s@, a as int);
    }
    if a == n {
        return String::new();
    }
    let mut b: usize = n;
    while b > a && v[b - 1] == '/'
        invariant
            a < n,
            a <= b <= n,
            n == v.len(),
            v@ == s@,
            s@[a as int] != '/',
            forall|j: int| b <= j < n ==> s@[j] == '/',
        decreases b,
    {
        b = b - 1;
    }
    proof {
        lemma_trail_slashes(s@, (n - b) as int);
    }
    let mut out: Vec<char> = Vec::new();
    let mut i: usize = a;
    while i < b
        invariant
            a <= i <= b,
            b <= n,
            n == v.len(),
            v@ == s@,
            out@ == s@.subrange(a as int, i as int),
        decreases b - i,
    {
        out.push(v[i]);
        assert(out@ =~= s@.subrange(a as int, i + 1));
        i = i + 1;
    }
    string_of(&out)
}

/// The URL tried for an allow-list entry: the entry itself if it names a
/// scheme (holds `://`), else the entry behind `http://`.
pub open spec fn candidate_url(t: Seq<char>) -> Seq<char> {
    if has_substring(t, "://"@) { t } else { "http://"@ + t }
}

/// `host:port`.
pub open spec fn host_port(h: Seq<char>, p: u16) -> Seq<char> {
    h + seq![':'] + decimal(p as nat)
}

/// The allow-list keys of one entry: none for a blank entry; for an entry
/// that parses as a URL, its lower-cased host and, with an explicit port,
/// also `host:port` (none if the URL has no host); otherwise the entry
/// lower-cased without surrounding `/`.
pub open spec fn normalized_hosts(entry: Seq<char>) -> Seq<Seq<char>> {
    let t = trimmed(entry);
    if t.len() == 0 {
        Seq::empty()
    } else {
        match url_parse_result(candidate_url(t)) {
            Ok((_, Some(h), port, _)) => {
                let l = unicode_lower(h);
                match port {
                    Some(p) => seq![l, host_port(l, p)],
                    None => seq![l],
                }
            },
            Ok((_, None, _, _)) => Seq::empty(),
            Err(_) => seq![unicode_lower(strip_slashes(t))],
        }
    }
}

fn host_port_of(h: &str, p: u16) -> (r: String)
    ensures
        r@ == host_port(h@, p),
{
    let mut s = String::new();
    append_str(&mut s, h);
    push_char(&mut s, ':');
    let d = u64_to_decimal(p as u64);
    append_str(&mut s, d.as_str());
    assert(s@ =~= host_port(h@, p));
    s
}

/// The allow-list keys of one entry (see [`normalized_hosts`]).
pub fn normalize_host(entry: &str) -> (r: Vec<String>)
    ensures
        views(r@) == normalized_hosts(entry@),
{
    let t = trim(entry);
    let mut out: Vec<String> = Vec::new();
    if t.as_str().is_empty() {
        assert(views(out@) =~= normalized_hosts(entry@));
        return out;
    }
    let candidate = if str_contains(t.as_str(), "://") {
        t.clone()
    } else {
        let mut c = String::from_str("http://");
        append_str(&mut c, t.as_str());
        c
    };
    proof {
        reveal_strlit("http://");
    }
    assert(candidate@ == candidate_url(t@));
    match parse_url(candidate.as_str()) {
        Ok(parts) => {
            match &parts.host {
                Some(h) => {
                    let l = lowercase(h.as_str());
                    match parts.port {
                        Some(p) => {
                            let hp = host_port_of(l.as_str(), p);
                            out.push(l);
                            out.push(hp);
                        },
                        None => {
                            out.push(l);
                        },
                    }
                },
                None => {},
            }
        },
        Err(_) => {
            let stripped = strip_slashes_of(t.as_str());
            out.push(lowercase(stripped.as_str()));
        },
    }
    assert(views(out@) =~= normalized_hosts(entry@));
    out
}

/// The keys allowed by a list of entries: every non-empty key of every
/// entry.
pub open spec fn allowed_keys(entries: Seq<Seq<char>>) -> Set<Seq<char>> {
    Set::new(
        |h: Seq<char>|
            h.len() > 0 && exists|i: int| 0 <= i < entries.len() && #[trigger] normalized_hosts(entries[i]).contains(h),
    )
}

/// Hosts (and `host:port` keys) that may be reached over plain HTTP.
pub struct HostAllowList {
    keys: Vec<String>,
}

impl HostAllowList {
    pub closed spec fn view(&self) -> Set<Seq<char>> {
        Set::new(|h: Seq<char>| views(self.keys@).contains(h))
    }

    /// No key occurs twice.
    pub closed spec fn wf(&self) -> bool {
        forall|a: int, b: int| 0 <= a < b < self.keys@.len() ==> (#[trigger] self.keys@[a])@ != (#[trigger] self.keys@[b])@
    }

    /// An empty list.
    pub fn new() -> (r: HostAllowList)
        ensures
            r.wf(),
            r@ == Set::<Seq<char>>::empty(),
    {
        let r = HostAllowList { keys: Vec::new() };
        assert(r@ =~= Set::<Seq<char>>::empty());
        r
    }

    fn add_key(&mut self, k: String)
        requires
            old(self).wf(),
        ensures
            final(self).wf(),
            final(self)@ == old(self)@.insert(k@),
    {
        if !vec_contains_str(&self.keys, k.as_str()) {
            let ghost old_keys = self.keys@;
            self.keys.push(k);
            proof {
                assert forall|a: int, b: int| 0 <= a < b < self.keys@.len() implies (#[trigger] self.keys@[a])@
                    != (#[trigger] self.keys@[b])@ by {
                    if b == self.keys@.len() - 1 {
                        assert(views(old_keys)[a] == old_keys[a]@);
                    }
                }
                assert forall|h: Seq<char>| views(self.keys@).contains(h) == old(self)@.insert(k@).contains(h) by {
                    if views(self.keys@).contains(h) {
                        let j = choose|j: int| 0 <= j < views(self.keys@).len() && views(self.keys@)[j] == h;
                        if j < old_keys.len() {
                            assert(views(old_keys)[j] == h);
                        }
                    }
                    if old(self)@.contains(h) {
                        let j = choose|j: int| 0 <= j < views(old_keys).len() && views(old_keys)[j] == h;
                        assert(views(self.keys@)[j] == h);
                    }
                    if h == k@ {
                        assert(views(self.keys@)[self.keys@.len() - 1] == h);
                    }
                }
                assert(self@ =~= old(self)@.insert(k@));
            }
        } else {
            assert(old(self)@.contains(k@));
            assert(self@ =~= old(self)@.insert(k@));
        }
    }

    /// The list made of the given entries (see [`normalize_host`]); empty
    /// keys are dropped.
    pub fn from_entries(entries: &Vec<String>) -> (r: HostAllowList)
        ensures
            r.wf(),
            r@ == allowed_keys(views(entries@)),
    {
        let mut list = HostAllowList::new();
        let mut i: usize = 0;
        while i < entries.len()
            invariant
                i <= entries.len(),
                list.wf(),
                list@ == allowed_keys(views(entries@).take(i as int)),
            decreases entries.len() - i,
        {
            let ghost before = list@;
            let keys = normalize_host(entries[i].as_str());
            let mut j: usize = 0;
            while j < keys.len()
                invariant
                    j <= keys.len(),
                    list.wf(),
                    list@ == before.union(Set::new(|h: Seq<char>| h.len() > 0 && views(keys@).take(j as int).contains(h))),
                decreases keys.len() - j,
            {
                let ghost mid = list@;
                let ghost kj = keys@[j as int]@;
                if !keys[j].as_str().is_empty() {
                    list.add_key(keys[j].clone());
                }
                assert(list@ == if kj.len() > 0 { mid.insert(kj) } else { mid });
                proof {
                    let a = views(keys@).take(j as int);
                    let b = views(keys@).take(j + 1);
                    assert(views(keys@)[j as int] == kj);
                    assert(b =~= a.push(kj));
                    assert forall|h: Seq<char>| b.contains(h) == (a.contains(h) || h == kj) by {
                        if b.contains(h) {
                            let m = choose|m: int| 0 <= m < b.len() && #[trigger] b[m] == h;
                            if m < j {
                                assert(a[m] == h);
                            }
                        }
                        if a.contains(h) {
                            let m = choose|m: int| 0 <= m < a.len() && #[trigger] a[m] == h;
                            assert(b[m] == h);
                        }
                        if h == kj {
                            assert(b[j as int] == h);
                        }
                    }
                    assert(list@ =~= before.union(Set::new(|h: Seq<char>| h.len() > 0 && b.contains(h))));
                }
                j = j + 1;
            }
            proof {
                let es = views(entries@);
                assert(views(keys@).take(keys.len() as int) =~= views(keys@));
                assert(es[i as int] == entries@[i as int]@);
                assert forall|h: Seq<char>| list@.contains(h) == allowed_keys(es.take(i + 1)).contains(h) by {
                    if allowed_keys(es.take(i as int)).contains(h) {
                        let m = choose|m: int| 0 <= m < es.take(i as int).len() && #[trigger] normalized_hosts(es.take(i as int)[m]).contains(h);
                        assert(es.take(i + 1)[m] == es.take(i as int)[m]);
                    }
                    if allowed_keys(es.take(i + 1)).contains(h) {
                        let m = choose|m: int| 0 <= m < es.take(i + 1).len() && #[trigger] normalized_hosts(es.take(i + 1)[m]).contains(h);
                        if m < i {
                            assert(es.take(i as int)[m] == es.take(i + 1)[m]);
                        } else {
                            assert(es.take(i + 1)[m] == es[i as int]);
                        }
                    }
                    if views(keys@).contains(h) && h.len() > 0 {
                        assert(es.take(i + 1)[i as int] == es[i as int]);
                        assert(normalized_hosts(es.take(i + 1)[i as int]).contains(h));
                    }
                }
                assert(list@ =~= allowed_keys(es.take(i + 1)));
            }
            i = i + 1;
        }
        assert(views(entries@).take(entries.len() as int) =~= views(entries@));
        list
    }

    /// The keys, in the order they were added.
    pub fn keys(&self) -> (r: Vec<String>)
        ensures
            forall|h: Seq<char>| views(r@).contains(h) <==> self@.contains(h),
    {
        crate::text::copy_strings(&self.keys)
    }

    /// Whether a key is in the list.
    pub fn contains(&self, key: &str) -> (r: bool)
        ensures
            r == self@.contains(key@),
    {
        vec_contains_str(&self.keys, key)
    }
}

/// Whether plain HTTP to `host` (with the URL's explicit port, if any) is
/// allowed: the lower-cased host, or the lower-cased `host:port`, is listed.
pub open spec fn http_allowed(keys: Set<Seq<char>>, host: Seq<char>, port: Option<u16>) -> bool {
    keys.contains(unicode_lower(host)) || (port matches Some(p) && keys.contains(host_port(unicode_lower(host), p)))
}

/// Whether plain HTTP to `host` at `port` is allowed by `list`.
pub fn is_http_allowed(list: &HostAllowList, host: &str, port: Option<u16>) -> (r: bool)
    ensures
        r == http_allowed(list@, host@, port),
{
    let key = lowercase(host);
    if list.contains(key.as_str()) {
        return true;
    }
    match port {
        Some(p) => {
            let k = host_port_of(key.as_str(), p);
            list.contains(k.as_str())
        },
        None => false,
    }
}

/// The step named in configuration errors of request URLs.
pub open spec fn request_step() -> Seq<char> {
    "secure_http::get_with_hsts_check"@
}

/// `text (url)` as the HTTP notices write it.
pub open spec fn notice(prefix: Seq<char>, host: Seq<char>, url: Seq<char>, suffix: Seq<char>) -> Seq<char> {
    prefix + host + " ("@ + url + ")"@ + suffix
}

/// The notice for a blocked plain-HTTP request.
pub open spec fn blocked_notice(host: Seq<char>, url: Seq<char>) -> Seq<char> {
    notice("Blocked insecure HTTP request to "@, host, url, Seq::empty())
}

/// The notice for an allowed plain-HTTP request.
pub open spec fn allowed_notice(host: Seq<char>, url: Seq<char>) -> Seq<char> {
    notice("Allowing insecure HTTP request to "@, host, url, " via allowlist"@)
}

fn notice_of(prefix: &str, host: &str, url: &str, suffix: &str) -> (r: String)
    ensures
        r@ == notice(prefix@, host@, url@, suffix@),
{
    let mut s = String::new();
    append_str(&mut s, prefix);
    append_str(&mut s, host);
    append_str(&mut s, " (");
    append_str(&mut s, url);
    append_str(&mut s, ")");
    append_str(&mut s, suffix);
    s
}

/// Whether the error is the configuration error of request URLs with the
/// given source text.
pub open spec fn is_request_config_error(e: Error, source: Seq<char>) -> bool {
    e matches Error::ConfigError { step, source_message, .. } && step@ == request_step() && source_message@ == source
}

/// The outcome `r` that the transport policy gives for the parsed URL
/// `parts` (see [`enforce_transport_policy`]).
pub open spec fn policy_holds(
    r: (Result<String, Error>, Option<String>),
    original: Seq<char>,
    parts: (Seq<char>, Option<Seq<char>>, Option<u16>, Seq<char>),
    allow: Set<Seq<char>>,
    hsts: Map<Seq<char>, u64>,
    now_ms: u64,
) -> bool {
    let (scheme, host, port, text) = parts;
    if scheme != "http"@ {
        r.0 matches Ok(u) && u@ == text && r.1 is None
    } else {
        match host {
            None => r.0 matches Err(e) && is_request_config_error(e, "missing host for url "@ + original)
                && r.1 is None,
            Some(h) => if !http_allowed(allow, h, port) {
                &&& r.0 matches Err(e) && e matches Error::InsecureScheme { host, url } && host@ == h && url@
                    == text
                &&& r.1 matches Some(n) && n@ == blocked_notice(h, text)
            } else {
                &&& r.0 matches Ok(u) && u@ == (if is_valid(hsts, h, now_ms) { https_form(text) } else { text })
                &&& r.1 matches Some(n) && n@ == allowed_notice(h, text)
            },
        }
    }
}

/// What happens to a parsed request URL (`original` as the caller gave it):
/// - a scheme other than `http` passes unchanged;
/// - a plain-HTTP URL without host is a configuration error;
/// - a plain-HTTP URL whose host is not allowed is refused as insecure, with
///   a notice;
/// - an allowed one passes with a notice, switched to `https` while the
///   host has an HSTS entry that has not expired at `now_ms`.
///
/// The result is the URL to request (or the error) and the notice, if any.
pub fn enforce_transport_policy(
    original: &str,
    parsed: &UrlParts,
    allow: &HostAllowList,
    hsts: &ExpiryTable,
    now_ms: u64,
) -> (r: (Result<String, Error>, Option<String>))
    requires
        hsts.wf(),
    ensures
        policy_holds(r, original@, parsed.view(), allow@, hsts.view(), now_ms),
{
    proof {
        reveal_strlit("http");
    }
    if !str_equal(parsed.scheme.as_str(), "http") {
        return (Ok(parsed.text.clone()), None);
    }
    match &parsed.host {
        None => {
            let mut msg = String::from_str("missing host for url ");
            append_str(&mut msg, original);
            let e = Error::ConfigError {
                step: String::from_str("secure_http::get_with_hsts_check"),
                source_message: msg,
                backtrace: String::new(),
            };
            (Err(e), None)
        },
        Some(h) => {
            if !is_http_allowed(allow, h.as_str(), parsed.port) {
                let n = notice_of("Blocked insecure HTTP request to ", h.as_str(), parsed.text.as_str(), "");
                proof {
                    reveal_strlit("");
                    assert(""@ =~= Seq::<char>::empty());
                }
                let e = Error::InsecureScheme { host: h.clone(), url: parsed.text.clone() };
                (Err(e), Some(n))
            } else {
                let n = notice_of(
                    "Allowing insecure HTTP request to ",
                    h.as_str(),
                    parsed.text.as_str(),
                    " via allowlist",
                );
                if hsts.is_fresh(h.as_str(), now_ms) {
                    (Ok(upgrade_to_https(parsed.text.as_str())), Some(n))
                } else {
                    (Ok(parsed.text.clone()), Some(n))
                }
            }
        },
    }
}

/// The configuration error for a URL that does not parse.
pub open spec fn invalid_url_text(url: Seq<char>, e: Seq<char>) -> Seq<char> {
    "invalid url "@ + url + ": "@ + e
}

/// Parses a request URL and applies [`enforce_transport_policy`]; a URL that
/// does not parse is a configuration error naming it and the parser's
/// message.
pub fn normalize_request_url(url: &str, allow: &HostAllowList, hsts: &ExpiryTable, now_ms: u64) -> (r: (
    Result<String, Error>,
    Option<String>,
))
    requires
        hsts.wf(),
    ensures
        match url_parse_result(url@) {
            Err(m) => r.0 matches Err(e) && is_request_config_error(e, invalid_url_text(url@, m)) && r.1 is None,
            Ok(parts) => policy_holds(r, url@, parts, allow@, hsts.view(), now_ms),
        },
{
    match parse_url(url) {
        Err(m) => {
            let mut msg = String::from_str("invalid url ");
            append_str(&mut msg, url);
            append_str(&mut msg, ": ");
            append_str(&mut msg, m.as_str());
            let e = Error::ConfigError {
                step: String::from_str("secure_http::get_with_hsts_check"),
                source_message: msg,
                backtrace: String::new(),
            };
            (Err(e), None)
        },
        Ok(parts) => enforce_transport_policy(url, &parts, allow, hsts, now_ms),
    }
}

/// The `Strict-Transport-Security` header of a response.
pub enum HstsHeader {
    /// The response has none.
    Missing,
    /// It is there but is not visible ASCII.
    Unreadable,
    /// Its text.
    Value(String),
}

/// What a response's HSTS header asks for.
pub enum HstsAction {
    /// Remember that `host` wants HTTPS for `max_age_secs`.
    Record { host: String, max_age_secs: u64 },
    /// Warn that the header is missing.
    Warn(String),
    /// Nothing to do.
    Nothing,
}

/// The warning for a response without HSTS header.
pub open spec fn hsts_missing_text(url: Seq<char>) -> Seq<char> {
    "HSTS header missing for "@ + url
}

/// Reads the HSTS header of a response from `url` whose host is `host`: a
/// missing header gives a warning; a readable one with a `max-age` gives an
/// entry for the host (if the URL has one); anything else nothing.
pub fn hsts_action(header: &HstsHeader, host: Option<&str>, url: &str) -> (r: HstsAction)
    ensures
        match header {
            HstsHeader::Missing => r matches HstsAction::Warn(w) && w@ == hsts_missing_text(url@),
            HstsHeader::Unreadable => r is Nothing,
            HstsHeader::Value(v) => match (header_max_age(v@), host) {
                (Some(a), Some(h)) => r matches HstsAction::Record { host, max_age_secs } && host@ == h@
                    && max_age_secs == a,
                _ => r is Nothing,
            },
        },
{
    match header {
        HstsHeader::Missing => {
            let mut w = String::from_str("HSTS header missing for ");
            append_str(&mut w, url);
            HstsAction::Warn(w)
        },
        HstsHeader::Unreadable => HstsAction::Nothing,
        HstsHeader::Value(v) => match (parse_max_age(v.as_str()), host) {
            (Some(a), Some(h)) => HstsAction::Record { host: h.to_owned(), max_age_secs: a },
            _ => HstsAction::Nothing,
        },
    }
}

/// Hosts that asked for HTTPS, each with the time (milliseconds) until
/// which the request holds.
pub struct HstsStore {
    table: ExpiryTable,
}

impl HstsStore {
    pub closed spec fn view(&self) -> Map<Seq<char>, u64> {
        self.table.view()
    }

    pub closed spec fn wf(&self) -> bool {
        self.table.wf()
    }

    /// No host yet.
    pub fn new() -> (r: HstsStore)
        ensures
            r.wf(),
            r@ == Map::<Seq<char>, u64>::empty(),
    {
        HstsStore { table: ExpiryTable::new() }
    }

    /// Records that `host` asked at `now_ms` for HTTPS during `max_age_secs`
    /// seconds, replacing what it asked before.
    pub fn record(&mut self, host: String, max_age_secs: u64, now_ms: u64)
        requires
            old(self).wf(),
            now_ms + max_age_secs * 1000 <= u64::MAX,
        ensures
            final(self).wf(),
            final(self)@ == old(self)@.insert(host@, (now_ms + max_age_secs * 1000) as u64),
    {
        self.table.insert(host, now_ms + max_age_secs * 1000);
    }

    /// Whether requests to `host` are switched to HTTPS at `now_ms`.
    pub fn upgrades(&self, host: &str, now_ms: u64) -> (r: bool)
        requires
            self.wf(),
        ensures
            r == is_valid(self@, host@, now_ms),
    {
        self.table.is_fresh(host, now_ms)
    }

    /// The table the transport policy reads.
    pub fn table(&self) -> (r: &ExpiryTable)
        requires
            self.wf(),
        ensures
            r.wf(),
            r.view() == self@,
    {
        &self.table
    }
}

/// A host that asked at `t` for HTTPS during `a` seconds has its plain-HTTP
/// requests switched to HTTPS exactly before `t + 1000 a` milliseconds.
pub proof fn law_hsts_until_expiry(m: Map<Seq<char>, u64>, host: Seq<char>, t: u64, a: u64, now: u64)
    requires
        t + a * 1000 <= u64::MAX,
    ensures
        is_valid(m.insert(host, (t + a * 1000) as u64), host, now) == (now < t + a * 1000),
{
}

/// An allow-list entry whose normalized keys include the lower-cased host
/// allows plain HTTP to that host on any port.
pub proof fn law_listed_host_allowed(entries: Seq<Seq<char>>, i: int, host: Seq<char>, port: Option<u16>)
    requires
        0 <= i < entries.len(),
        normalized_hosts(entries[i]).contains(unicode_lower(host)),
        unicode_lower(host).len() > 0,
    ensures
        http_allowed(allowed_keys(entries), host, port),
{
    assert(allowed_keys(entries).contains(unicode_lower(host)));
}

/// Plain HTTP needs the allow-list: a parsed `http` URL with a host is
/// refused as insecure, naming that host, while the list is empty.
pub proof fn law_http_blocked_without_allowlist(
    r: (Result<String, Error>, Option<String>),
    original: Seq<char>,
    parts: (Seq<char>, Option<Seq<char>>, Option<u16>, Seq<char>),
    h: Seq<char>,
    hsts: Map<Seq<char>, u64>,
    now_ms: u64,
)
    requires
        parts.0 == "http"@,
        parts.1 == Some(h),
        policy_holds(r, original, parts, Set::empty(), hsts, now_ms),
    ensures
        r.0 matches Err(Error::InsecureScheme { host, .. }) && host@ == h,
{
}

/// Once the host is listed, a parsed `http` URL to it is no longer refused:
/// the request goes ahead (upgraded to HTTPS while an HSTS entry lives).
pub proof fn law_listed_http_passes(
    r: (Result<String, Error>, Option<String>),
    original: Seq<char>,
    parts: (Seq<char>, Option<Seq<char>>, Option<u16>, Seq<char>),
    h: Seq<char>,
    entries: Seq<Seq<char>>,
    i: int,
    hsts: Map<Seq<char>, u64>,
    now_ms: u64,
)
    requires
        parts.0 == "http"@,
        parts.1 == Some(h),
        0 <= i < entries.len(),
        normalized_hosts(entries[i]).contains(unicode_lower(h)),
        unicode_lower(h).len() > 0,
        policy_holds(r, original, parts, allowed_keys(entries), hsts, now_ms),
    ensures
        r.0 is Ok,
{
    law_listed_host_allowed(entries, i, h, parts.2);
}

} // verus!

use torwell84::cert_update::{
    default_cert_path, default_cert_url, default_min_tls_version, default_update_interval, failure_warning,
    resolve_cert_plan, tray_failure_warning, update_urls, CertConfig, CertEnv, CertUpdateTracker, TargetOs,
};
use torwell84::error::Error;
use torwell84::expiry::ExpiryTable;
use torwell84::http_policy::{
    enforced_min_tls, fuzz_parse_max_age, fuzz_tls_version, keep_cipher_suite, parse_max_age, parse_tls_version,
    TlsVersion,
};
use torwell84::transport::{
    enforce_transport_policy, hsts_action, is_http_allowed, normalize_host, normalize_request_url, HostAllowList,
    HstsAction, HstsHeader, HstsStore, UrlParts,
};
use torwell84::workers::{proxy_target, WorkerPool};

fn allow(entries: &[&str]) -> HostAllowList {
    let v: Vec<String> = entries.iter().map(|s| s.to_string()).collect();
    HostAllowList::from_entries(&v)
}

#[test]
fn hsts_max_age_is_read_from_the_first_valid_directive() {
    assert_eq!(parse_max_age("max-age=31536000; includeSubDomains"), Some(31536000));
    assert_eq!(parse_max_age("includeSubDomains;  max-age=60 ;preload"), Some(60));
    assert_eq!(parse_max_age("max-age=abc; max-age=5"), Some(5));
    assert_eq!(parse_max_age("max-age=-1"), None);
    assert_eq!(parse_max_age("preload"), None);
    assert_eq!(fuzz_parse_max_age(""), None);
    fuzz_tls_version(Some("1.0"));
}

#[test]
fn tls_versions_and_cipher_suites() {
    assert_eq!(parse_tls_version(Some("1.3")), TlsVersion::Tls13);
    assert_eq!(parse_tls_version(Some("1.1")), TlsVersion::Tls12);
    assert_eq!(parse_tls_version(None), TlsVersion::Tls12);
    assert_eq!(enforced_min_tls(TlsVersion::Tls10), TlsVersion::Tls12);
    assert_eq!(enforced_min_tls(TlsVersion::Tls13), TlsVersion::Tls13);
    assert!(keep_cipher_suite(0x1302, false, true, TlsVersion::Tls13));
    assert!(!keep_cipher_suite(0xC02C, true, false, TlsVersion::Tls13));
    assert!(keep_cipher_suite(0xC02C, true, false, TlsVersion::Tls12));
    assert!(!keep_cipher_suite(0x1301, false, true, TlsVersion::Tls12));
}

#[test]
fn workers_rotate_round_robin() {
    let mut pool = WorkerPool::new();
    assert_eq!(pool.next_worker(), None);
    pool.set_config(vec!["https://a".into(), "https://b".into(), "https://c".into()], Some("tok".into()));
    assert_eq!(pool.len(), 3);
    assert_eq!(pool.token().as_deref(), Some("tok"));
    let order: Vec<String> = (0..4).map(|_| pool.next_worker().unwrap()).collect();
    assert_eq!(order, vec!["https://a", "https://b", "https://c", "https://a"]);
}

#[test]
fn proxy_target_encodes_the_url() {
    assert_eq!(
        proxy_target("https://worker.example/proxy", "https://example.com/a b?x=1&y=ä"),
        "https://worker.example/proxy?url=https%3A%2F%2Fexample.com%2Fa%20b%3Fx%3D1%26y%3D%C3%A4"
    );
    assert_eq!(proxy_target("https://w/p?k=v", "a-b_c.d~e"), "https://w/p?k=v&url=a-b_c.d~e");
}

#[test]
fn allow_list_entries_are_normalized() {
    assert_eq!(normalize_host("  LocalHost "), vec!["localhost"]);
    assert_eq!(normalize_host("http://Example.COM:8080/x"), vec!["example.com", "example.com:8080"]);
    assert_eq!(normalize_host("   "), Vec::<String>::new());
    let list = allow(&["127.0.0.1", "Example.com:8080", ""]);
    let mut keys = list.keys();
    keys.sort();
    assert_eq!(keys, vec!["127.0.0.1", "example.com", "example.com:8080"]);
    assert!(is_http_allowed(&list, "EXAMPLE.com", None));
    assert!(!is_http_allowed(&list, "other.org", Some(80)));
}

#[test]
fn http_blocked_without_allowlist() {
    let list = allow(&[]);
    let hsts = ExpiryTable::new();
    let (res, notice) = normalize_request_url("http://example.com/", &list, &hsts, 0);
    match res {
        Err(Error::InsecureScheme { host, url }) => {
            assert_eq!(host, "example.com");
            assert_eq!(url, "http://example.com/");
        }
        _ => panic!("expected insecure scheme error"),
    }
    assert_eq!(notice.as_deref(), Some("Blocked insecure HTTP request to example.com (http://example.com/)"));
}

#[test]
fn http_allowed_when_host_is_allowlisted() {
    let list = allow(&["127.0.0.1"]);
    let hsts = ExpiryTable::new();
    let (res, notice) = normalize_request_url("http://127.0.0.1:8080/x", &list, &hsts, 0);
    assert_eq!(res.unwrap(), "http://127.0.0.1:8080/x");
    assert_eq!(
        notice.as_deref(),
        Some("Allowing insecure HTTP request to 127.0.0.1 (http://127.0.0.1:8080/x) via allowlist")
    );
    let (https, none) = normalize_request_url("https://example.com/", &list, &hsts, 0);
    assert_eq!(https.unwrap(), "https://example.com/");
    assert!(none.is_none());
}

#[test]
fn invalid_urls_are_configuration_errors() {
    let list = allow(&[]);
    let hsts = ExpiryTable::new();
    match normalize_request_url("not a url", &list, &hsts, 0).0 {
        Err(Error::ConfigError { step, source_message, .. }) => {
            assert_eq!(step, "secure_http::get_with_hsts_check");
            assert!(source_message.starts_with("invalid url not a url: "));
        }
        _ => panic!("expected config error"),
    }
    let parts = UrlParts { scheme: "http".into(), host: None, port: None, text: "http:x".into() };
    match enforce_transport_policy("http:x", &parts, &list, &hsts, 0).0 {
        Err(Error::ConfigError { source_message, .. }) => assert_eq!(source_message, "missing host for url http:x"),
        _ => panic!("expected config error"),
    }
}

#[test]
fn hsts_entries_upgrade_allowed_hosts_until_expiry() {
    let list = allow(&["localhost"]);
    let mut store = HstsStore::new();
    match hsts_action(&HstsHeader::Value("max-age=10".into()), Some("localhost"), "http://localhost/") {
        HstsAction::Record { host, max_age_secs } => store.record(host, max_age_secs, 1_000),
        _ => panic!("expected an entry"),
    }
    assert!(store.upgrades("localhost", 10_999));
    assert!(!store.upgrades("localhost", 11_000));
    let (res, _) = normalize_request_url("http://localhost:8080/a", &list, store.table(), 5_000);
    assert_eq!(res.unwrap(), "https://localhost:8080/a");
    let (res, _) = normalize_request_url("http://localhost/a", &list, store.table(), 20_000);
    assert_eq!(res.unwrap(), "http://localhost/a");
    match hsts_action(&HstsHeader::Missing, Some("localhost"), "https://localhost/") {
        HstsAction::Warn(w) => assert_eq!(w, "HSTS header missing for https://localhost/"),
        _ => panic!("expected a warning"),
    }
    assert!(matches!(hsts_action(&HstsHeader::Unreadable, None, "x"), HstsAction::Nothing));
}

#[test]
fn cert_defaults_and_overrides() {
    assert_eq!(default_cert_path(), "src-tauri/certs/server.pem");
    assert_eq!(default_cert_url(), "https://certs.torwell.com/server.pem");
    assert_eq!(default_min_tls_version().as_deref(), Some("1.2"));
    assert_eq!(default_update_interval(), 86400);
    let mut cfg = CertConfig::default_config();
    cfg.apply_platform_path(TargetOs::Windows);
    assert_eq!(cfg.cert_path, "%APPDATA%\\Torwell84\\server.pem");
    let cfg = CertConfig::default_config();
    let env = CertEnv {
        cert_url: Some("https://example.com/cert.pem".into()),
        cert_path: None,
        fallback_cert_url: Some("https://fallback/cert.pem".into()),
        update_interval: Some("120".into()),
    };
    let plan = resolve_cert_plan(cfg, env, Some("/tmp/pinned.pem".into()), None, None, None);
    assert_eq!(plan.cert_path, "/tmp/pinned.pem");
    assert_eq!(plan.urls, vec!["https://example.com/cert.pem", "https://fallback/cert.pem"]);
    assert_eq!(plan.interval_secs, 120);
    assert_eq!(plan.min_tls, TlsVersion::Tls12);
    assert!(plan.placeholder_url);
    let env = CertEnv { cert_url: None, cert_path: None, fallback_cert_url: None, update_interval: Some("x".into()) };
    let plan = resolve_cert_plan(CertConfig::default_config(), env, None, None, None, Some(0));
    assert_eq!(plan.urls, vec!["https://certs.torwell.com/server.pem"]);
    assert_eq!(plan.interval_secs, 0);
    assert!(!plan.placeholder_url);
    assert_eq!(
        update_urls(None, Some("f".into()), Some("e".into()), None),
        vec!["e".to_string(), "f".to_string()]
    );
    assert_eq!(update_urls(None, None, None, None), vec!["https://certs.torwell.com/server.pem".to_string()]);
}

#[test]
fn update_failures_set_backoff() {
    let mut t = CertUpdateTracker::new();
    assert!(t.record_failure().is_none());
    assert!(t.record_failure().is_none());
    let w = t.record_failure().unwrap();
    assert_eq!(w, "3 consecutive certificate update failures");
    assert_eq!(t.failures(), 3);
    assert_eq!(t.backoff(), Some(3600));
    assert_eq!(t.next_wait(20), 3620);
    assert_eq!(t.next_wait(20), 20);
    t.record_success();
    assert_eq!(t.failures(), 0);
    assert_eq!(failure_warning(7), "7 consecutive certificate update failures");
    assert_eq!(tray_failure_warning(3, false).as_deref(), Some("3 consecutive certificate update failures"));
    assert_eq!(tray_failure_warning(3, true), None);
    assert_eq!(tray_failure_warning(2, false), None);
}

use torwell84::backoff::{AfterFailure, Backoff};
use torwell84::error::Error;
use torwell84::geo::{finish_lookup, start_lookup, CountryCache, LookupStart};
use torwell84::isolation::IsolationTable;
use torwell84::logs::{join_lines, last_lines, trim_log_lines, trim_metric_lines, MetricTrim};
use torwell84::text::str_lines;
use torwell84::monitor::{
    begin_reconnect, default_insecure_hosts, default_max_log_lines, default_max_metric_lines,
    default_max_metric_mb, metrics_tick, resolve_settings, tray_action, tray_menu, AppConfig, AppEnv, TrafficTotals,
    TrayAction,
};
use torwell84::session::SessionManager;
use torwell84::timeline::{connection_uptime, ConnectionEvent, ConnectionLog};

fn env_none() -> AppEnv {
    AppEnv {
        metric_interval: None,
        max_log_lines: None,
        max_metric_lines: None,
        max_metric_mb: None,
        max_connection_events: None,
        geoip_path: None,
        metrics_file: None,
        max_memory_mb: None,
        max_circuits: None,
        session_ttl: None,
    }
}

fn event(ts_secs: i64, status: &str) -> ConnectionEvent {
    ConnectionEvent {
        timestamp_ns: ts_secs * 1_000_000_000,
        status: status.into(),
        message: None,
        detail: None,
        retry_count: None,
        latency_ms: None,
        memory_bytes: None,
        circuit_count: None,
    }
}

#[test]
fn settings_defaults_and_environment() {
    assert_eq!(default_max_log_lines(), 1000);
    assert_eq!(default_max_metric_lines(), 10_000);
    assert_eq!(default_max_metric_mb(), 5);
    assert_eq!(default_insecure_hosts(), vec!["127.0.0.1".to_string(), "localhost".to_string()]);
    let s = resolve_settings(AppConfig::empty(), &env_none());
    assert_eq!(s.max_log_lines, 1000);
    assert_eq!(s.max_metric_lines, 10_000);
    assert_eq!(s.max_metric_mb, 5);
    assert_eq!(s.insecure_allowed_hosts, vec!["127.0.0.1".to_string(), "localhost".to_string()]);
    assert_eq!(s.max_connection_events, 720);
    assert_eq!(s.metric_interval_secs, 30);
    assert_eq!(s.max_memory_mb, 1024);
    assert_eq!(s.max_circuits, 20);
    assert_eq!(s.session_ttl_secs, 3600);
    let mut env = env_none();
    env.max_connection_events = Some("3".into());
    env.max_log_lines = Some("50".into());
    env.max_metric_mb = Some("not a number".into());
    env.geoip_path = Some("/geo".into());
    env.metrics_file = Some("/env/metrics.json".into());
    let cfg = AppConfig {
        max_log_lines: 10,
        geoip_path: Some("/cfg".into()),
        metrics_file: Some("/cfg/metrics.json".into()),
        max_metric_lines: 7,
        max_metric_mb: 2,
        insecure_allowed_hosts: vec!["localhost".into()],
    };
    let s = resolve_settings(cfg, &env);
    assert_eq!(s.max_connection_events, 10);
    assert_eq!(s.max_log_lines, 50);
    assert_eq!(s.max_metric_mb, 2);
    assert_eq!(s.max_metric_lines, 7);
    assert_eq!(s.geoip_path.as_deref(), Some("/geo"));
    assert_eq!(s.metrics_file.as_deref(), Some("/cfg/metrics.json"));
}

#[test]
fn update_metrics_closes_circuits_on_limit() {
    let mut totals = TrafficTotals::new();
    let u = totals.update(2 * 1024 * 1024, 25, 0, 30, Some(3000), 1, 20);
    assert_eq!(u.throughput, 100);
    assert_eq!(totals.network_total, 3000);
    assert_eq!(totals.prev_traffic, 3000);
    assert!(u.close_circuits);
    assert_eq!(
        u.warnings,
        vec!["memory usage 2 MB exceeds limit 1".to_string(), "circuit count 25 exceeds limit 20".to_string()]
    );
    let u = totals.update(0, 0, 7, 30, Some(2000), 1, 20);
    assert_eq!(u.throughput, 7);
    assert_eq!(totals.network_total, 3000);
    assert!(!u.close_circuits && u.warnings.is_empty());
}

#[test]
fn metrics_round_samples() {
    let t = metrics_tick(1000, 4000, 30, false, true, 5_500_000);
    assert_eq!(t.network, 100);
    assert_eq!(t.connection_change, Some(true));
    assert_eq!(t.memory_mb, 5);
    let t = metrics_tick(4000, 1000, 30, true, true, 0);
    assert_eq!(t.network, 0);
    assert_eq!(t.connection_change, None);
}

#[test]
fn tray_menu_contains_metrics_items() {
    let items = tray_menu(true, 2 * 1024 * 1024, 1, 3, 20, Some("memory usage 2 MB exceeds limit 1".into()));
    let ids: Vec<&str> = items.iter().map(|i| i.id.as_str()).collect();
    assert_eq!(
        ids,
        vec![
            "status", "memory", "circuits", "show", "disconnect", "reconnect", "show_dashboard", "show_logs",
            "open_logs_file", "settings", "open_settings_file", "quit", "warning"
        ]
    );
    assert_eq!(items[0].label, "Status: Connected");
    assert!(!items[0].enabled);
    assert_eq!(items[1].label, "Memory: 2 MB \u{26A0}\u{fe0f}");
    assert_eq!(items[2].label, "Circuits: 3");
    assert_eq!(items[12].label, "\u{26A0}\u{FE0F} memory usage 2 MB exceeds limit 1");
    let items = tray_menu(false, 0, 1, 0, 20, None);
    assert_eq!(items.len(), 12);
    assert_eq!(items[4].id, "connect");
}

#[test]
fn tray_clicks_map_to_actions() {
    assert_eq!(tray_action("quit"), TrayAction::Quit);
    assert_eq!(tray_action("warning"), TrayAction::ClearWarning);
    assert_eq!(tray_action("open_settings_file"), TrayAction::OpenSettingsFile);
    assert_eq!(tray_action("status"), TrayAction::Ignore);
    let mut busy = false;
    assert!(begin_reconnect(&mut busy));
    assert!(!begin_reconnect(&mut busy));
}

#[test]
fn session_create_and_validate() {
    let mut m = SessionManager::new(60_000, 0);
    let startup = m.take_startup_token().unwrap();
    assert_eq!(startup.len(), 32);
    assert!(m.take_startup_token().is_none());
    let token = m.create_session(1_000);
    assert!(token.chars().all(|c| c.is_ascii_alphanumeric()));
    assert!(m.validate(&token, 60_999));
    assert!(!m.validate(&token, 61_000));
    assert!(!m.validate("unknown", 0));
    assert!(!m.validate(&startup, 60_001));
}

#[test]
fn connection_timeline_is_bounded_and_summarised() {
    let mut log = ConnectionLog::new(3);
    log.record(event(0, "CONNECTED"));
    log.record(event(10, "DISCONNECTED"));
    log.record(event(20, "RETRYING"));
    log.record(event(30, "CONNECTED"));
    assert_eq!(log.len(), 3);
    let snap = log.snapshot(Some(2));
    assert_eq!(snap.len(), 2);
    assert_eq!(snap[0].status, "RETRYING");
    assert_eq!(snap[1].timestamp, "1970-01-01T00:00:30+00:00");
    let summary = log.health_summary(40 * 1_000_000_000, Some(30 * 1_000_000_000));
    assert_eq!(summary.total_events, 3);
    assert_eq!(summary.connected_events, 1);
    assert_eq!(summary.error_events, 1);
    assert_eq!(summary.disconnect_events, 1);
    assert_eq!(summary.current_uptime_seconds, Some(10));
    assert_eq!(summary.connected_seconds, 10);
    assert_eq!(summary.observed_seconds, 30);
    assert_eq!(summary.retry_attempts_last_hour, 1);
    assert_eq!(connection_uptime(Some(5_000_000_000), 2_000_000_000), Some(0));
    assert_eq!(connection_uptime(None, 0), None);
}

#[test]
fn log_and_metric_files_are_trimmed() {
    let lines: Vec<String> = vec!["a".into(), "b".into(), "c".into()];
    assert_eq!(trim_log_lines(&lines, 5), None);
    assert_eq!(trim_log_lines(&lines, 2).as_deref(), Some("b\nc\n"));
    assert_eq!(trim_log_lines(&lines, 0).as_deref(), Some(""));
    assert_eq!(join_lines(&lines), "a\nb\nc");
    match trim_metric_lines(&lines, 2, 5) {
        MetricTrim::Rotate { contents, warning } => {
            assert_eq!(contents, "b\nc\n");
            assert_eq!(warning, "metric log exceeded line limit 2");
        }
        MetricTrim::Keep => panic!("expected rotation"),
    }
    match trim_metric_lines(&lines, 2, 0) {
        MetricTrim::Rotate { contents, warning } => {
            assert_eq!(contents, "");
            assert_eq!(warning, "metric log exceeded line limit 2");
        }
        MetricTrim::Keep => panic!("expected rotation"),
    }
    assert!(matches!(trim_metric_lines(&lines, 3, 1), MetricTrim::Keep));
    let blank_last: Vec<String> = vec!["x".into(), "".into()];
    match trim_metric_lines(&blank_last, 1, 5) {
        MetricTrim::Rotate { contents, .. } => assert_eq!(contents, ""),
        MetricTrim::Keep => panic!("expected rotation"),
    }
}

#[test]
fn log_trim_handles_large_file() {
    let limit = default_max_log_lines();
    let mut file = String::new();
    let mut archived = 0;
    let mut count = 0;
    for i in 0..=(limit * 2) {
        file.push_str(&format!("{{\"level\":\"INFO\",\"message\":\"big {}\"}}\n", i));
        count += 1;
        if count > limit {
            let kept = trim_log_lines(&str_lines(&file), limit).expect("over the limit");
            archived += 1;
            file = kept;
            count = str_lines(&file).len();
        }
    }
    assert!(archived > 0);
    let lines = str_lines(&file);
    assert_eq!(lines.len(), limit);
    assert!(lines.iter().all(|l| l.starts_with('{') && l.ends_with('}')));
    assert!(lines[limit - 1].contains(&format!("big {}", limit * 2)));
}

#[test]
fn metrics_rotation_creates_archive() {
    let limit = default_max_metric_lines();
    let mut file = String::new();
    let mut archived = 0;
    let mut count = 0;
    for i in 0..=limit {
        file.push_str(&format!("{{\"time\":{}}}\n", i));
        count += 1;
        if count > limit {
            if let MetricTrim::Rotate { contents, .. } = trim_metric_lines(&str_lines(&file), limit, default_max_metric_mb()) {
                archived += 1;
                file = contents;
                count = str_lines(&file).len();
            }
        }
    }
    assert!(archived > 0);
    let all = last_lines(&str_lines(&file), usize::MAX);
    assert_eq!(all.len(), limit);
}

#[test]
fn connect_with_backoff_schedule() {
    assert!(matches!(Backoff::start(5, 60_000_000_000, false), Err(Error::RateLimitExceeded(op)) if op == "connect"));
    let mut b = Backoff::start(5, 60_000_000_000, true).unwrap();
    let mut waits = Vec::new();
    for k in 0..5u64 {
        match b.record_failure(Error::Bootstrap("e".into()), k as u128) {
            AfterFailure::Retry { info, wait_secs } => {
                assert_eq!(info.attempt as u64, k + 1);
                assert_eq!(info.delay_secs, wait_secs);
                waits.push(wait_secs);
            }
            _ => panic!("expected retry"),
        }
    }
    assert_eq!(waits, vec![1, 2, 4, 8, 16]);
    match b.record_failure(Error::Bootstrap("last".into()), 10) {
        AfterFailure::GiveUp { info: Some(info), error: Error::RetriesExceeded { attempts, error, .. } } => {
            assert_eq!((info.attempt, attempts), (6, 6));
            assert_eq!(error, "Failed to bootstrap Tor: last");
        }
        _ => panic!("expected retries exceeded"),
    }
    let mut b = Backoff::start(5, 60_000_000_000, true).unwrap();
    assert!(b.check_deadline(60_000_000_000).is_some());
    assert!(b.check_deadline(59_999_999_999).is_none());
    match b.record_failure(Error::Bootstrap("slow".into()), 59_500_000_000) {
        AfterFailure::GiveUp { info: Some(info), error: Error::Timeout } => assert_eq!(info.attempt, 1),
        _ => panic!("expected timeout"),
    }
    let mut b = Backoff::start(u32::MAX, 60_000_000_000, true).unwrap();
    assert!(matches!(b.record_failure(Error::Bootstrap("e".into()), 0), AfterFailure::Retry { .. }));
}

#[test]
fn connect_with_backoff_error() {
    let mut b = Backoff::start(1, 5_000_000_000, true).unwrap();
    assert!(b.check_deadline(0).is_none());
    assert!(matches!(b.record_failure(Error::Bootstrap("e1".into()), 0), AfterFailure::Retry { .. }));
    assert!(b.check_deadline(1_000_000_000).is_none());
    let res = match b.record_failure(Error::Bootstrap("e2".into()), 1_000_000_000) {
        AfterFailure::GiveUp { error, .. } => Err(error),
        AfterFailure::Retry { .. } => Ok(()),
    };
    assert!(matches!(res, Err(Error::RetriesExceeded { .. })));
}

#[test]
fn connect_when_already_connected() {
    let mut b = Backoff::start(0, 5_000_000_000, true).unwrap();
    let res = match b.record_failure(Error::AlreadyConnected, 0) {
        AfterFailure::GiveUp { info, error } => {
            assert!(info.is_none());
            Err(error)
        }
        AfterFailure::Retry { .. } => Ok(()),
    };
    assert!(matches!(res, Err(Error::AlreadyConnected)));
    assert_eq!(b.attempt, 0);
}

#[test]
fn connect_with_backoff_timeout() {
    let b = Backoff::start(5, 0, true).unwrap();
    let res = match b.check_deadline(0) {
        Some(e) => Err(e),
        None => Ok(()),
    };
    assert!(matches!(res, Err(Error::Timeout)));
}

#[test]
fn lookup_country_error() {
    let mut cache = CountryCache::new();
    match start_lookup(&cache, "?.?.?.?", None) {
        LookupStart::Done(Err(Error::Lookup(m))) => assert_eq!(m, "invalid address: ?.?.?.?"),
        _ => panic!("expected refusal"),
    }
    match start_lookup(&cache, "8.8.8.8:443", None) {
        LookupStart::Resolve(a) => assert_eq!(a, "8.8.8.8"),
        _ => panic!("expected an address to resolve"),
    }
    assert_eq!(finish_lookup(&mut cache, "8.8.8.8:443", "8.8.8.8", true, Some("US".into())).unwrap(), "US");
    assert_eq!(cache.len(), 1);
    match start_lookup(&cache, "8.8.8.8:443", None) {
        LookupStart::Done(Ok(c)) => assert_eq!(c, "US"),
        _ => panic!("expected a cached code"),
    }
    match finish_lookup(&mut cache, "x", "x", false, None) {
        Err(Error::Lookup(m)) => assert_eq!(m, "invalid address: x"),
        _ => panic!("expected invalid address"),
    }
    match finish_lookup(&mut cache, "10.0.0.1", "10.0.0.1", true, None) {
        Err(Error::Lookup(m)) => assert_eq!(m, "country not found for 10.0.0.1"),
        _ => panic!("expected not found"),
    }
    assert_eq!(cache.len(), 1);
}

#[test]
fn isolation_tokens_per_domain() {
    let mut t = IsolationTable::new();
    let a = t.get_or_create("a.example", 0);
    let b = t.get_or_create("b.example", 1);
    assert_ne!(a, b);
    assert_eq!(t.get_or_create("a.example", 2), a);
    t.cleanup(10, 12);
    assert_eq!(t.len(), 1);
    assert_eq!(t.get_or_create("a.example", 12), a);
}

#[test]
fn isolation_table_evicts_the_least_recently_used() {
    let mut t = IsolationTable::new();
    let mut tokens = Vec::new();
    for i in 0..100u64 {
        tokens.push(t.get_or_create(&format!("d{i}.example"), i));
    }
    assert_eq!(t.len(), 100);
    // Using d0 again refreshes it, so d1 is now the least recently used.
    assert_eq!(t.get_or_create("d0.example", 200), tokens[0]);
    let fresh = t.get_or_create("new.example", 201);
    assert_eq!(fresh, 100);
    assert_eq!(t.len(), 100);
    assert_eq!(t.get_or_create("d0.example", 202), tokens[0]);
    assert_eq!(t.get_or_create("d2.example", 203), tokens[2]);
    assert_eq!(t.get_or_create("new.example", 204), fresh);
    assert_eq!(t.len(), 100);
    // d1 was dropped, so it comes back with a new token, pushing out d3.
    assert_eq!(t.get_or_create("d1.example", 205), 101);
    assert_eq!(t.get_or_create("d4.example", 206), tokens[4]);
}

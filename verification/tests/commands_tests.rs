use torwell84::backoff::RetryInfo;
use torwell84::commands::{
    attempt_failed_message, check_api_rate, check_log_rate, circuit_warning, is_valid_host, memory_warning,
    identity_update, ping_params, require_session, status_text, traceroute_params, CallTracker, StatusUpdate,
};
use torwell84::error::{connection_failed, ConnectionStep, Error};

#[test]
fn calls_are_counted_over_a_minute() {
    let mut t = CallTracker::new();
    assert_eq!(t.track_call("connect", 0), 1);
    assert_eq!(t.track_call("connect", 30_000), 2);
    assert_eq!(t.track_call("get_status", 30_000), 1);
    assert_eq!(t.track_call("connect", 60_000), 3);
    // the call at 0 is now more than a minute old
    assert_eq!(t.track_call("connect", 60_001), 3);
    assert_eq!(t.track_call("connect", 200_000), 1);
}

#[test]
fn ping_host_invalid_hostname() {
    match ping_params(Some("bad host!".into()), None) {
        Err(Error::Io(m)) => assert_eq!(m, "invalid host"),
        _ => panic!("expected invalid host"),
    }
    assert!(!is_valid_host(""));
    assert!(is_valid_host("tor-project.org"));
    assert!(!is_valid_host("a\nb"));
}

#[test]
fn ping_host_count_capped() {
    let (host, count) = ping_params(Some("127.0.0.1".into()), Some(100)).unwrap();
    assert_eq!(host, "127.0.0.1");
    assert_eq!(count, 10);
    assert_eq!(ping_params(None, None).unwrap(), ("google.com".to_string(), 5));
    assert_eq!(ping_params(None, Some(3)).unwrap().1, 3);
}

#[test]
fn traceroute_parameters() {
    assert_eq!(traceroute_params("example.org", None).unwrap(), ("example.org:0".to_string(), 30));
    assert_eq!(traceroute_params("example.org", Some(5)).unwrap().1, 5);
    assert!(traceroute_params("exa mple", Some(5)).is_err());
}

#[test]
fn checks_of_tokens_and_rates() {
    assert!(matches!(require_session(false), Err(Error::InvalidToken)));
    assert!(require_session(true).is_ok());
    assert!(matches!(check_api_rate(false), Err(Error::RateLimitExceeded(op)) if op == "api"));
    assert!(matches!(check_log_rate(false), Err(Error::RateLimitExceeded(op)) if op == "get_logs"));
    assert_eq!(status_text(true), "CONNECTED");
    assert_eq!(status_text(false), "DISCONNECTED");
}

#[test]
fn resource_warnings() {
    assert_eq!(memory_warning(2 * 1024 * 1024, 1).as_deref(), Some("memory usage 2 MB exceeds limit 1"));
    assert_eq!(memory_warning(2 * 1024 * 1024, 2), None);
    assert_eq!(circuit_warning(21, 20).as_deref(), Some("circuit count 21 exceeds limit 20"));
    assert_eq!(circuit_warning(20, 20), None);
}

#[test]
fn command_connect_retry_event_contains_details() {
    let info = RetryInfo {
        attempt: 2,
        delay_secs: 4,
        error: connection_failed(ConnectionStep::Bootstrap, "boom".into()),
    };
    let u = StatusUpdate::retrying(&info);
    assert_eq!(u.status, "RETRYING");
    assert_eq!(u.retry_count, Some(2));
    assert_eq!(u.retry_delay, Some(4));
    assert_eq!(u.error_step.as_deref(), Some("bootstrap"));
    assert_eq!(u.error_source.as_deref(), Some("boom"));
    assert_eq!(u.error_message.as_deref(), Some("connection failed during bootstrap: boom"));
    assert_eq!(attempt_failed_message(&info), "connection attempt 2 failed: connection failed during bootstrap: boom");
}

#[test]
fn command_connect_error_propagates_details() {
    let e = Error::ConfigError { step: "torrc_parse".into(), source_message: "bad".into(), backtrace: String::new() };
    let u = StatusUpdate::failed(&e);
    assert_eq!(u.status, "ERROR");
    assert_eq!(u.error_step.as_deref(), Some("torrc_parse"));
    assert_eq!(u.error_source.as_deref(), Some("bad"));
    assert_eq!(u.bootstrap_message.as_deref(), Some(""));
    let u = StatusUpdate::identity_failed(&Error::NotConnected);
    assert_eq!(u.error_step.as_deref(), Some(""));
    assert_eq!(u.error_message.as_deref(), Some("Client not initialized"));
    assert_eq!(StatusUpdate::connected().bootstrap_progress, Some(100));
    assert_eq!(StatusUpdate::connecting().status, "CONNECTING");
    assert_eq!(StatusUpdate::disconnected().status, "DISCONNECTED");
    assert_eq!(StatusUpdate::disconnecting().bootstrap_progress, None);
    assert_eq!(StatusUpdate::new_identity().status, "NEW_IDENTITY");
    assert_eq!(StatusUpdate::progress(40, "dir".into()).bootstrap_message.as_deref(), Some("dir"));
}

#[test]
fn identity_events_follow_the_outcome() {
    let ok = identity_update(&Ok(())).expect("event on success");
    assert_eq!(ok.status, "NEW_IDENTITY");
    assert!(identity_update(&Err(Error::NotConnected)).is_none());
    let failed = identity_update(&Err(Error::NetworkFailure {
        step: "reconfigure".into(),
        source_message: "reconf failed".into(),
        backtrace: String::new(),
    }))
    .expect("event on failure");
    assert_eq!(failed.status, "ERROR");
    assert_eq!(failed.error_step.as_deref(), Some("reconfigure"));
    assert_eq!(failed.error_source.as_deref(), Some("reconf failed"));
}

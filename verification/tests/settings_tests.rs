use torwell84::error::Error;
use torwell84::route::RelayInfo;
use torwell84::tor_settings::{
    active_circuit, add_bridges, check_circuit_quota, fast_fallback_list, policy_report, Hop, TorSettings,
};

fn relay(country: &str) -> RelayInfo {
    RelayInfo { nickname: "r".into(), ip_address: "192.0.2.9".into(), country: country.into() }
}

#[test]
fn command_set_exit_country_invalid() {
    let mut s = TorSettings::new();
    match s.set_exit_country(Some("zzz".into())) {
        Err(Error::ConfigError { step, .. }) => assert_eq!(step, "set_exit_country"),
        _ => panic!("expected config error"),
    }
    assert_eq!(s.get_exit_country(), None);
}

#[test]
fn command_set_entry_country_invalid() {
    let mut s = TorSettings::new();
    match s.set_entry_country(Some("zzz".into())) {
        Err(Error::ConfigError { step, .. }) => assert_eq!(step, "set_entry_country"),
        _ => panic!("expected config error"),
    }
}

#[test]
fn command_set_middle_country_invalid() {
    let mut s = TorSettings::new();
    match s.set_middle_country(Some("zzz".into())) {
        Err(Error::ConfigError { step, .. }) => assert_eq!(step, "set_middle_country"),
        _ => panic!("expected config error"),
    }
}

#[test]
fn command_set_exit_country_mixed_case() {
    let mut s = TorSettings::new();
    s.set_exit_country(Some("dE".into())).unwrap();
    assert_eq!(s.get_exit_country().as_deref(), Some("DE"));
    s.set_exit_country(None).unwrap();
    assert_eq!(s.get_country(Hop::Exit), None);
}

#[test]
fn command_set_and_clear_bridges() {
    let mut s = TorSettings::new();
    s.set_bridges(vec!["Bridge 1.2.3.4:80".into()]);
    assert_eq!(s.get_bridges(), vec!["Bridge 1.2.3.4:80".to_string()]);
    s.set_bridges(Vec::new());
    assert!(s.get_bridges().is_empty());
}

#[test]
fn bridges_are_added_to_the_configuration() {
    assert_eq!(add_bridges("a = 1", &Vec::new()), "a = 1");
    let text = add_bridges("", &vec!["Bridge \"x\" 1.2.3.4:80".to_string()]);
    assert_eq!(text, "\n[bridges]\nenabled = true\nbridges = [\n  \"Bridge \\\"x\\\" 1.2.3.4:80\",\n]\n");
    let obfs = add_bridges("", &vec!["Bridge obfs4 192.0.2.1:443 cert=AA".to_string()]);
    assert!(obfs.ends_with(
        "\n[[bridges.transports]]\nprotocols = [\"obfs4\"]\npath = \"obfs4proxy\"\nrun_on_startup = true\n"
    ));
    let mut s = TorSettings::new();
    assert_eq!(s.client_config_text(), None);
    s.set_torrc_config("  \n".into());
    assert_eq!(s.client_config_text(), None);
    s.set_torrc_config("[storage]".into());
    assert_eq!(s.client_config_text().as_deref(), Some("[storage]"));
}

#[test]
fn command_generate_torrc_profile_includes_preferences() {
    let mut s = TorSettings::new();
    s.set_entry_country(Some("NL".into())).unwrap();
    s.set_middle_country(Some("SE".into())).unwrap();
    s.set_exit_country(Some("US".into())).unwrap();
    s.set_bridges(vec!["Bridge obfs4 192.0.2.55:443 FFFFFFFFFFFFFFFFFFFFFFFFFFFFFFFFFFFFFFFF cert=DDDD iat-mode=0".into()]);
    let profile = s
        .generate_torrc_profile(true, Some(vec!["FR".into(), "NL".into()]), true, "2024-01-01T00:00:00+00:00".into())
        .unwrap();
    assert_eq!(profile.entry, "NL");
    assert_eq!(profile.middle, "SE");
    assert_eq!(profile.exit, "US");
    assert!(profile.fast_only);
    assert!(profile.config.contains("UseBridges 1"));
    assert!(profile.config.contains("Bridge obfs4 192.0.2.55:443"));
    assert!(profile.config.contains("ExcludeNodes {=badexit}"));
    assert!(profile.config.contains("# Route: NL -> SE -> US"));
    assert!(profile.fast_fallback.iter().any(|code| code == "FR"));
    assert!(profile.config.starts_with("# Torwell84 generated torrc fragment - 2024-01-01T00:00:00+00:00\n"));
}

#[test]
fn profile_without_preferences_uses_default_route() {
    let s = TorSettings::new();
    let profile = s.generate_torrc_profile(false, None, false, "t".into()).unwrap();
    assert_eq!(profile.fast_fallback, vec!["DE", "NL", "SE"]);
    assert_eq!((profile.entry.as_str(), profile.middle.as_str(), profile.exit.as_str()), ("DE", "NL", "SE"));
    assert_eq!(
        profile.config,
        "# Torwell84 generated torrc fragment - t\nClientUseIPv4 1\nClientUseIPv6 1\nUseEntryGuardsAsDirGuards 1\nStrictNodes 1\n# Route: DE -> NL -> SE\nEntryNodes {DE}\nMiddleNodes {NL}\nExitNodes {SE}"
    );
}

#[test]
fn fast_fallback_adds_codes_once() {
    let fb = fast_fallback_list(true, &Some(vec!["fr".into(), " jp ".into(), "bad!".into(), "BR".into()]));
    assert_eq!(fb.len(), 3 + 15 + 1);
    assert_eq!(&fb[..3], &["DE", "NL", "SE"]);
    assert_eq!(fb.last().unwrap(), "BR");
    assert_eq!(fb.iter().filter(|c| c.as_str() == "FR").count(), 1);
}

#[test]
fn circuit_policy_reports() {
    let mut s = TorSettings::new();
    s.set_exit_country(Some("US".into())).unwrap();
    let prefs = s.prefs();
    let rep = policy_report(&prefs, Ok((vec![relay("DE"), relay("NL"), relay("US")], true))).unwrap();
    assert_eq!(rep.effective_entry.as_deref(), Some("DE"));
    assert_eq!(rep.effective_middle.as_deref(), Some("NL"));
    assert_eq!(rep.effective_exit.as_deref(), Some("US"));
    assert_eq!(rep.requested_exit.as_deref(), Some("US"));
    assert!(rep.matches_policy);
    let rep = policy_report(&prefs, Err(Error::NotConnected)).unwrap();
    assert!(!rep.matches_policy && rep.relays.is_empty() && rep.effective_entry.is_none());
    assert!(matches!(policy_report(&prefs, Err(Error::Timeout)), Err(Error::Timeout)));
    match active_circuit(Ok((vec![relay("DE")], false))) {
        Err(Error::Circuit { source_message }) => {
            assert_eq!(source_message, "unable to satisfy circuit country preferences")
        }
        _ => panic!("expected circuit error"),
    }
    assert!(matches!(check_circuit_quota("new_identity", false), Err(Error::RateLimitExceeded(op)) if op == "new_identity"));
    assert!(check_circuit_quota("build_circuit", true).is_ok());
}

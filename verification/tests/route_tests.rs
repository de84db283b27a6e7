use std::collections::HashSet;
use torwell84::route::{
    check_country_code, ensure_unique_route, matches_policy, normalise_country_code_str, CircuitCountryPrefs,
    RelayInfo,
};

fn relay(country: &str) -> RelayInfo {
    RelayInfo { nickname: format!("relay-{country}"), ip_address: "192.0.2.1".into(), country: country.into() }
}

#[test]
fn ensure_unique_route_resolves_duplicates() {
    let requested = vec![Some("DE".to_string()), Some("DE".to_string()), Some("NL".to_string())];
    let fallback = vec!["SE".to_string(), "CH".to_string(), "US".to_string()];
    let resolved = ensure_unique_route(&requested, &fallback);
    assert_eq!(resolved.len(), 3);
    assert_eq!(resolved[0], "DE");
    assert_eq!(resolved[1], "SE");
    assert_eq!(resolved[2], "NL");
    assert_eq!(resolved.iter().collect::<HashSet<_>>().len(), 3);
}

#[test]
fn ensure_unique_route_uses_fallback_when_empty() {
    let requested = vec![None, None, None];
    let fallback = vec!["DE".to_string(), "NL".to_string(), "US".to_string()];
    let resolved = ensure_unique_route(&requested, &fallback);
    assert_eq!(resolved, fallback);
}

#[test]
fn unique_route_upper_cases_and_falls_back_to_defaults() {
    let requested = vec![Some("de".to_string()), Some("de".to_string()), None];
    let resolved = ensure_unique_route(&requested, &Vec::new());
    // the duplicate keeps its request when no fallback is free; the free slot
    // takes the default code of its position
    assert_eq!(resolved, vec!["DE".to_string(), "DE".to_string(), "SE".to_string()]);
}

#[test]
fn country_codes_are_checked_and_upper_cased() {
    assert_eq!(check_country_code("us").unwrap(), "US");
    assert!(check_country_code("zzz").is_err());
    assert!(check_country_code("??").is_err());
    assert_eq!(check_country_code("zzz").unwrap_err(), "Unsupported country code in file: ZZZ");
    assert_eq!(check_country_code("\u{1}a").unwrap_err(), "Unsupported country code in file: \u{1}a");
    assert_eq!(check_country_code("é").unwrap_err(), "Unsupported country code in file: é");
    assert_eq!(
        check_country_code("??").unwrap_err(),
        "The 'nowhere' country code ('??') is not supported in this context."
    );
    assert_eq!(normalise_country_code_str("  fr ").as_deref(), Some("FR"));
    assert_eq!(normalise_country_code_str("   "), None);
    assert_eq!(normalise_country_code_str("xyz"), None);
}

#[test]
fn policy_matching_checks_each_hop() {
    let prefs = CircuitCountryPrefs { entry: Some("DE".into()), middle: Some("nl".into()), exit: Some("US".into()) };
    let good = vec![relay("de"), relay("NL"), relay("us")];
    let bad_middle = vec![relay("DE"), relay("SE"), relay("US")];
    let too_short = vec![relay("DE"), relay("US")];
    assert!(prefs.is_restricted());
    assert!(prefs.matches(&good));
    assert!(!prefs.matches(&bad_middle));
    assert!(!prefs.matches(&too_short));
    assert!(!prefs.matches(&Vec::new()));
    let open = CircuitCountryPrefs { entry: None, middle: None, exit: None };
    assert!(!open.is_restricted());
    assert!(matches_policy(&Vec::new(), &open));
    assert!(!matches_policy(&bad_middle, &prefs));
}

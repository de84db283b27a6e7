use torwell84::hsm::{
    hsm_settings, login_failure, mock_key_pair, session_failure, HsmError, CKR_PIN_INCORRECT, CKR_PIN_LEN_RANGE,
    CKR_SLOT_ID_INVALID, CKR_TOKEN_NOT_PRESENT,
};

#[test]
fn hsm_settings_defaults() {
    let s = match hsm_settings(None, None, None, None, None) {
        Ok(s) => s,
        Err(e) => panic!("{}", e.message()),
    };
    assert_eq!(s.module, "/usr/lib/softhsm/libsofthsm2.so");
    assert_eq!(s.slot, 0);
    assert_eq!(s.pin, "1234");
    assert_eq!(s.key_label, "tls-key");
    assert_eq!(s.cert_label, "tls-cert");
}

#[test]
fn hsm_settings_overrides() {
    let s = match hsm_settings(
        Some("/opt/lib.so".into()),
        Some("42".into()),
        Some("9999".into()),
        Some("k".into()),
        Some("c".into()),
    ) {
        Ok(s) => s,
        Err(e) => panic!("{}", e.message()),
    };
    assert_eq!((s.module.as_str(), s.slot, s.pin.as_str()), ("/opt/lib.so", 42, "9999"));
    assert_eq!((s.key_label.as_str(), s.cert_label.as_str()), ("k", "c"));
}

#[test]
fn hsm_settings_rejects_bad_slot_and_empty_pin() {
    match hsm_settings(None, Some("abc".into()), None, None, None) {
        Err(e) => assert_eq!(e.message(), "invalid TORWELL_HSM_SLOT value: abc"),
        Ok(_) => panic!("slot accepted"),
    }
    match hsm_settings(None, Some("-1".into()), Some("".into()), None, None) {
        Err(HsmError::InvalidSlotValue(v)) => assert_eq!(v, "-1"),
        _ => panic!("negative slot accepted"),
    }
    match hsm_settings(None, None, Some("".into()), None, None) {
        Err(e) => assert_eq!(e.message(), "invalid HSM PIN"),
        Ok(_) => panic!("empty pin accepted"),
    }
}

#[test]
fn hsm_failures_are_classified() {
    assert_eq!(session_failure(Some(CKR_SLOT_ID_INVALID), 7, "x".into()).message(), "invalid HSM slot: 7");
    assert_eq!(session_failure(Some(CKR_TOKEN_NOT_PRESENT), 0, "x".into()).message(), "invalid HSM slot: 0");
    assert_eq!(session_failure(Some(0x5), 7, "general error".into()).message(), "general error");
    assert_eq!(session_failure(None, 7, "io".into()).message(), "io");
    assert_eq!(login_failure(Some(CKR_PIN_INCORRECT), "x".into()).message(), "invalid HSM PIN");
    assert_eq!(login_failure(Some(CKR_PIN_LEN_RANGE), "x".into()).message(), "invalid HSM PIN");
    assert_eq!(login_failure(Some(0x100), "user type".into()).message(), "user type");
}

#[test]
fn hsm_mock_key_pair_decodes_base64() {
    let pair = match mock_key_pair("aGVsbG8=", "d29ybGQ=") {
        Ok(p) => p,
        Err(e) => panic!("{}", e.message()),
    };
    assert_eq!(pair.key, b"hello".to_vec());
    assert_eq!(pair.cert, b"world".to_vec());
    match mock_key_pair("aGVsbG8=", "not base64!") {
        Err(HsmError::InvalidEncoding(m)) => assert!(!m.is_empty()),
        _ => panic!("bad certificate encoding accepted"),
    }
    match mock_key_pair("aGVsbG8", "d29ybGQ=") {
        Err(HsmError::InvalidEncoding(_)) => {}
        _ => panic!("missing padding accepted"),
    }
}

//! The hardware security module that can hold the HTTP client's key: its
//! settings with their defaults, how a module's failures are reported, and
//! the key pair given in base64 in place of a module.

use base64::Engine;
use vstd::prelude::*;
use vstd::utf8::encode_utf8;
use crate::cert_update::HsmKeyPair;
use crate::text::{decimal, parse_u64, parsed_u64, u64_to_decimal};
use crate::workers::append_str;

verus! {

/// The PKCS#11 library used when none is set.
pub open spec fn default_hsm_lib_text() -> Seq<char> {
    "/usr/lib/softhsm/libsofthsm2.so"@
}

/// PKCS#11 return value: the slot does not exist.
pub const CKR_SLOT_ID_INVALID: u64 = 0x3;
/// PKCS#11 return value: no token in the slot.
pub const CKR_TOKEN_NOT_PRESENT: u64 = 0xE0;
/// PKCS#11 return value: wrong PIN.
pub const CKR_PIN_INCORRECT: u64 = 0xA0;
/// PKCS#11 return value: PIN with invalid characters.
pub const CKR_PIN_INVALID: u64 = 0xA1;
/// PKCS#11 return value: PIN too long or too short.
pub const CKR_PIN_LEN_RANGE: u64 = 0xA2;

/// How the module is reached and what is read from it.
pub struct HsmSettings {
    /// Path of the PKCS#11 library.
    pub module: String,
    /// The token's slot.
    pub slot: u64,
    /// The user PIN.
    pub pin: String,
    /// Label of the private key object.
    pub key_label: String,
    /// Label of the certificate object.
    pub cert_label: String,
}

/// Why the module could not be used.
pub enum HsmError {
    /// The slot setting is not a number; it holds the setting.
    InvalidSlotValue(String),
    /// The PIN is empty or the module refused it.
    InvalidPin,
    /// The module has no usable token in this slot.
    InvalidSlot(u64),
    /// The key pair given in base64 does not decode; the decoder's words.
    InvalidEncoding(String),
    /// Any other failure of the module, in its words.
    Device(String),
}

/// The text of an [`HsmError`].
pub open spec fn hsm_error_text(e: HsmError) -> Seq<char> {
    match e {
        HsmError::InvalidSlotValue(v) => "invalid TORWELL_HSM_SLOT value: "@ + v@,
        HsmError::InvalidPin => "invalid HSM PIN"@,
        HsmError::InvalidSlot(s) => "invalid HSM slot: "@ + decimal(s as nat),
        HsmError::InvalidEncoding(m) => m@,
        HsmError::Device(m) => m@,
    }
}

impl HsmError {
    /// The error's text, as the client reports it.
    pub fn message(&self) -> (r: String)
        ensures
            r@ == hsm_error_text(*self),
    {
        let mut s = String::new();
        match self {
            HsmError::InvalidSlotValue(v) => {
                append_str(&mut s, "invalid TORWELL_HSM_SLOT value: ");
                append_str(&mut s, v.as_str());
            },
            HsmError::InvalidPin => {
                append_str(&mut s, "invalid HSM PIN");
            },
            HsmError::InvalidSlot(slot) => {
                append_str(&mut s, "invalid HSM slot: ");
                let d = u64_to_decimal(*slot);
                append_str(&mut s, d.as_str());
            },
            HsmError::InvalidEncoding(m) => {
                append_str(&mut s, m.as_str());
            },
            HsmError::Device(m) => {
                append_str(&mut s, m.as_str());
            },
        }
        s
    }
}

/// A setting, or its default where it is unset.
pub open spec fn or_default(v: Option<String>, d: Seq<char>) -> Seq<char> {
    match v {
        Some(s) => s@,
        None => d,
    }
}

fn take_or(v: Option<String>, d: &str) -> (r: String)
    ensures
        r@ == or_default(v, d@),
{
    match v {
        Some(s) => s,
        None => String::from_str(d),
    }
}

/// The settings from the values set for the library, slot, PIN and the two
/// labels (`None` where a value is unset): the library defaults to SoftHSM's,
/// the slot to `0`, the PIN to `1234` and the labels to `tls-key` and
/// `tls-cert`. A slot that is not a number, or an empty PIN, is refused.
pub fn hsm_settings(
    module: Option<String>,
    slot: Option<String>,
    pin: Option<String>,
    key_label: Option<String>,
    cert_label: Option<String>,
) -> (r: Result<HsmSettings, HsmError>)
    ensures
        parsed_u64(or_default(slot, "0"@)) is None ==> (r matches Err(HsmError::InvalidSlotValue(v)) && v@
            == or_default(slot, "0"@)),
        parsed_u64(or_default(slot, "0"@)) is Some && or_default(pin, "1234"@).len() == 0 ==> r matches Err(
            HsmError::InvalidPin,
        ),
        parsed_u64(or_default(slot, "0"@)) is Some && or_default(pin, "1234"@).len() > 0 ==> (r matches Ok(s) && {
            &&& s.module@ == or_default(module, default_hsm_lib_text())
            &&& Some(s.slot) == parsed_u64(or_default(slot, "0"@))
            &&& s.pin@ == or_default(pin, "1234"@)
            &&& s.key_label@ == or_default(key_label, "tls-key"@)
            &&& s.cert_label@ == or_default(cert_label, "tls-cert"@)
        }),
{
    let module = take_or(module, "/usr/lib/softhsm/libsofthsm2.so");
    let slot_var = take_or(slot, "0");
    let slot = match parse_u64(slot_var.as_str()) {
        Some(n) => n,
        None => {
            return Err(HsmError::InvalidSlotValue(slot_var));
        },
    };
    let pin = take_or(pin, "1234");
    if pin.as_str().unicode_len() == 0 {
        return Err(HsmError::InvalidPin);
    }
    let key_label = take_or(key_label, "tls-key");
    let cert_label = take_or(cert_label, "tls-cert");
    Ok(HsmSettings { module, slot, pin, key_label, cert_label })
}

/// What the module's failure to open a session on `slot` is reported as:
/// a missing slot or token is an invalid slot; any other return value, or a
/// failure that is no return value (`code` is `None`), is reported in the
/// module's words.
pub fn session_failure(code: Option<u64>, slot: u64, detail: String) -> (r: HsmError)
    ensures
        (code == Some(CKR_SLOT_ID_INVALID) || code == Some(CKR_TOKEN_NOT_PRESENT)) ==> r == HsmError::InvalidSlot(
            slot,
        ),
        !(code == Some(CKR_SLOT_ID_INVALID) || code == Some(CKR_TOKEN_NOT_PRESENT)) ==> (r matches HsmError::Device(m) && m@ == detail@),
{
    match code {
        Some(rv) => {
            if rv == CKR_SLOT_ID_INVALID || rv == CKR_TOKEN_NOT_PRESENT {
                HsmError::InvalidSlot(slot)
            } else {
                HsmError::Device(detail)
            }
        },
        None => HsmError::Device(detail),
    }
}

/// What the module's refusal of the login is reported as: a wrong, invalid
/// or badly sized PIN is an invalid PIN; anything else is reported in the
/// module's words.
pub fn login_failure(code: Option<u64>, detail: String) -> (r: HsmError)
    ensures
        (code == Some(CKR_PIN_INCORRECT) || code == Some(CKR_PIN_INVALID) || code == Some(CKR_PIN_LEN_RANGE))
            ==> r == HsmError::InvalidPin,
        !(code == Some(CKR_PIN_INCORRECT) || code == Some(CKR_PIN_INVALID) || code == Some(CKR_PIN_LEN_RANGE))
            ==> (r matches HsmError::Device(m) && m@ == detail@),
{
    match code {
        Some(rv) => {
            if rv == CKR_PIN_INCORRECT || rv == CKR_PIN_INVALID || rv == CKR_PIN_LEN_RANGE {
                HsmError::InvalidPin
            } else {
                HsmError::Device(detail)
            }
        },
        None => HsmError::Device(detail),
    }
}

/// The bytes that the standard base64 engine (alphabet `A-Z a-z 0-9 + /`,
/// canonical `=` padding) decodes `input` to, if it accepts it.
pub uninterp spec fn base64_standard_decoded(input: Seq<u8>) -> Option<Seq<u8>>;

/// `base64::engine::general_purpose::STANDARD.decode`: the bytes it decodes
/// `input` to, named; where it refuses the input, the decoder's message.
/// The message's text is left unsaid.
#[verifier::external_body]
fn base64_decode(input: &str) -> (r: Result<Vec<u8>, String>)
    ensures
        match r {
            Ok(v) => base64_standard_decoded(encode_utf8(input@)) == Some(v@),
            Err(_) => base64_standard_decoded(encode_utf8(input@)) is None,
        },
{
    match base64::engine::general_purpose::STANDARD.decode(input) {
        Ok(v) => Ok(v),
        Err(e) => Err(format!("{}", e)),
    }
}

/// The key pair given in base64 in place of a module: the key, then the
/// certificate, decoded; the first that does not decode is reported.
pub fn mock_key_pair(key_b64: &str, cert_b64: &str) -> (r: Result<HsmKeyPair, HsmError>)
    ensures
        match (base64_standard_decoded(encode_utf8(key_b64@)), base64_standard_decoded(encode_utf8(cert_b64@))) {
            (Some(k), Some(c)) => r matches Ok(p) && p.key@ == k && p.cert@ == c,
            _ => r matches Err(HsmError::InvalidEncoding(_)),
        },
{
    let key = match base64_decode(key_b64) {
        Ok(v) => v,
        Err(m) => {
            return Err(HsmError::InvalidEncoding(m));
        },
    };
    let cert = match base64_decode(cert_b64) {
        Ok(v) => v,
        Err(m) => {
            return Err(HsmError::InvalidEncoding(m));
        },
    };
    Ok(HsmKeyPair { key, cert })
}

} // verus!

//! Transport policy of the certificate-pinned HTTP client: HSTS header
//! parsing, TLS version selection and cipher-suite strength, the allow-list
//! for plain HTTP, request routing through proxy workers, and the bookkeeping
//! of certificate updates.

use vstd::prelude::*;
use crate::text::{
    chars_of, decimal, parse_u64, parsed_u64, push_char, string_of, trimmed, trim_chars, u64_to_decimal, views,
};

verus! {

/// The text `max-age=`.
pub open spec fn max_age_prefix() -> Seq<char> {
    seq!['m', 'a', 'x', '-', 'a', 'g', 'e', '=']
}

/// The `max-age` value of one directive of a `Strict-Transport-Security`
/// header: the directive, trimmed, must start with `max-age=` followed by a
/// number that `u64::from_str` accepts.
pub open spec fn directive_max_age(part: Seq<char>) -> Option<u64> {
    let t = trimmed(part);
    if t.len() >= 8 && t.take(8) == max_age_prefix() { parsed_u64(t.skip(8)) } else { None }
}

/// Index of the first `;` in `s`, or its length.
pub open spec fn first_semicolon(s: Seq<char>) -> int
    decreases s.len(),
{
    if s.len() == 0 {
        0
    } else if s[0] == ';' {
        0
    } else {
        1 + first_semicolon(s.drop_first())
    }
}

/// The first directive (the header split at `;`) that carries a `max-age`.
pub open spec fn header_max_age(s: Seq<char>) -> Option<u64>
    decreases s.len(),
{
    let i = first_semicolon(s);
    let v = directive_max_age(s.take(i));
    if v is Some {
        v
    } else if i >= s.len() {
        None
    } else {
        proof { lemma_first_semicolon_bound(s); }
        header_max_age(s.skip(i + 1))
    }
}

pub proof fn lemma_first_semicolon_bound(s: Seq<char>)
    ensures
        0 <= first_semicolon(s) <= s.len(),
    decreases s.len(),
{
    if s.len() > 0 && s[0] != ';' {
        lemma_first_semicolon_bound(s.drop_first());
    }
}

proof fn lemma_first_semicolon(s: Seq<char>, i: int)
    requires
        0 <= i <= s.len(),
        forall|j: int| 0 <= j < i ==> s[j] != ';',
        i == s.len() || s[i] == ';',
    ensures
        first_semicolon(s) == i,
    decreases i,
{
    if i > 0 {
        let t = s.drop_first();
        assert forall|j: int| 0 <= j < i - 1 implies t[j] != ';' by {
            assert(t[j] == s[j + 1]);
        }
        if i < s.len() {
            assert(t[i - 1] == s[i]);
        }
        lemma_first_semicolon(t, i - 1);
    }
}

/// The `max-age` of one directive.
fn directive_value(part: &Vec<char>) -> (r: Option<u64>)
    ensures
        r == directive_max_age(part@),
{
    let s = string_of(part);
    let t = trim_chars(s.as_str());
    if t.len() < 8 {
        return None;
    }
    let ok = t[0] == 'm' && t[1] == 'a' && t[2] == 'x' && t[3] == '-' && t[4] == 'a' && t[5] == 'g'
        && t[6] == 'e' && t[7] == '=';
    if !ok {
        proof {
            if t@.take(8) == max_age_prefix() {
                assert(t@[0] == t@.take(8)[0]);
                assert(t@[1] == t@.take(8)[1]);
                assert(t@[2] == t@.take(8)[2]);
                assert(t@[3] == t@.take(8)[3]);
                assert(t@[4] == t@.take(8)[4]);
                assert(t@[5] == t@.take(8)[5]);
                assert(t@[6] == t@.take(8)[6]);
                assert(t@[7] == t@.take(8)[7]);
            }
        }
        return None;
    }
    assert(t@.take(8) =~= max_age_prefix());
    let mut rest: Vec<char> = Vec::new();
    let mut k: usize = 8;
    while k < t.len()
        invariant
            8 <= k <= t.len(),
            rest@ == t@.subrange(8, k as int),
        decreases t.len() - k,
    {
        rest.push(t[k]);
        assert(rest@ =~= t@.subrange(8, k + 1));
        k = k + 1;
    }
    assert(rest@ =~= t@.skip(8));
    let r = string_of(&rest);
    parse_u64(r.as_str())
}

/// The `max-age` of a `Strict-Transport-Security` header: the value of its
/// first directive of the form `max-age=<seconds>`.
pub fn parse_max_age(header: &str) -> (r: Option<u64>)
    ensures
        r == header_max_age(header@),
{
    let v = chars_of(header);
    let n = v.len();
    let mut start: usize = 0;
    assert(header@.skip(0) =~= header@);
    loop
        invariant
            start <= n,
            n == v.len(),
            v@ == header@,
            header_max_age(header@) == header_max_age(header@.skip(start as int)),
        decreases n + 1 - start,
    {
        let ghost rest = header@.skip(start as int);
        let mut part: Vec<char> = Vec::new();
        let mut i: usize = start;
        while i < n && v[i] != ';'
            invariant
                start <= i <= n,
                n == v.len(),
                v@ == header@,
                rest == header@.skip(start as int),
                part@ == header@.subrange(start as int, i as int),
                forall|j: int| start <= j < i ==> header@[j] != ';',
            decreases n - i,
        {
            part.push(v[i]);
            assert(part@ =~= header@.subrange(start as int, i + 1));
            i = i + 1;
        }
        proof {
            assert forall|j: int| 0 <= j < i - start implies rest[j] != ';' by {
                assert(rest[j] == header@[start + j]);
            }
            if i < n {
                assert(rest[i - start] == header@[i as int]);
            }
            lemma_first_semicolon(rest, (i - start) as int);
            assert(rest.take((i - start) as int) =~= part@);
        }
        let val = directive_value(&part);
        if val.is_some() {
            return val;
        }
        if i >= n {
            return None;
        }
        assert(rest.skip((i - start) + 1) =~= header@.skip(i + 1));
        start = i + 1;
    }
}

/// Entry point for fuzzing the HSTS header parser.
pub fn fuzz_parse_max_age(header: &str) -> (r: Option<u64>)
    ensures
        r == header_max_age(header@),
{
    parse_max_age(header)
}

/// TLS protocol versions.
#[derive(Clone, Copy, Debug, PartialEq, Eq, Structural)]
pub enum TlsVersion {
    Tls10,
    Tls11,
    Tls12,
    Tls13,
}

/// The configured minimum TLS version: TLS 1.3 when the setting is exactly
/// `1.3`, TLS 1.2 otherwise (also when unset).
pub fn parse_tls_version(v: Option<&str>) -> (r: TlsVersion)
    ensures
        r == (if v matches Some(s) && s@ == "1.3"@ { TlsVersion::Tls13 } else { TlsVersion::Tls12 }),
{
    match v {
        Some(s) => {
            if crate::text::str_equal(s, "1.3") { TlsVersion::Tls13 } else { TlsVersion::Tls12 }
        },
        None => TlsVersion::Tls12,
    }
}

/// Entry point for fuzzing the TLS version setting.
pub fn fuzz_tls_version(version: Option<&str>) {
    let _ = parse_tls_version(version);
}

/// The minimum version actually used: versions below TLS 1.2 are raised to
/// TLS 1.2.
pub fn enforced_min_tls(v: TlsVersion) -> (r: TlsVersion)
    ensures
        r == (if v == TlsVersion::Tls10 || v == TlsVersion::Tls11 { TlsVersion::Tls12 } else { v }),
{
    match v {
        TlsVersion::Tls10 | TlsVersion::Tls11 => TlsVersion::Tls12,
        _ => v,
    }
}

/// IANA codes of the cipher suites considered strong: the AES-256-GCM and
/// ChaCha20-Poly1305 suites of TLS 1.3, and their ECDHE (ECDSA or RSA)
/// counterparts of TLS 1.2.
pub open spec fn strong_suite(code: u16) -> bool {
    code == 0x1302 || code == 0x1303 || code == 0xC02C || code == 0xCCA9 || code == 0xC030 || code == 0xCCA8
}

/// Whether a cipher suite (by IANA code, with the protocol versions it
/// supports) is kept for a client whose minimum version is `min`: it must be
/// strong, and support TLS 1.3 when the minimum is TLS 1.3, or TLS 1.2 or 1.3
/// otherwise.
pub fn keep_cipher_suite(code: u16, has_tls12: bool, has_tls13: bool, min: TlsVersion) -> (r: bool)
    ensures
        r == (strong_suite(code) && if min == TlsVersion::Tls13 { has_tls13 } else { has_tls12 || has_tls13 }),
{
    let strong = code == 0x1302 || code == 0x1303 || code == 0xC02C || code == 0xCCA9 || code == 0xC030
        || code == 0xCCA8;
    if !strong {
        return false;
    }
    match min {
        TlsVersion::Tls13 => has_tls13,
        _ => has_tls12 || has_tls13,
    }
}

} // verus!

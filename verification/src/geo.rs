//! Country lookup of relay addresses: the checks around the GeoIP database
//! and the cache of codes already found.

use vstd::prelude::*;
use vstd::hash_map::StringHashMap;
use crate::error::Error;
use crate::text::{chars_of, contains_char, copy_string, first_index_of, str_equal, string_of};
use crate::workers::append_str;

verus! {

/// Country codes already found, per address as given.
pub struct CountryCache {
    codes: StringHashMap<String>,
}

impl CountryCache {
    /// The cached code of each address.
    pub closed spec fn get_spec(&self, ip: Seq<char>) -> Option<Seq<char>> {
        if self.codes@.contains_key(ip) { Some(self.codes@[ip]@) } else { None }
    }

    /// Number of cached addresses.
    pub closed spec fn size(&self) -> nat {
        self.codes@.len()
    }

    /// The cache holds finitely many addresses.
    #[verifier::type_invariant]
    closed spec fn wf(&self) -> bool {
        self.codes@.dom().finite()
    }

    /// An empty cache.
    pub fn new() -> (r: CountryCache)
        ensures
            forall|ip: Seq<char>| r.get_spec(ip) is None,
            r.size() == 0,
    {
        CountryCache { codes: StringHashMap::new() }
    }

    /// Number of cached addresses.
    pub fn len(&self) -> (n: usize)
        ensures
            n == self.size(),
    {
        self.codes.len()
    }

    /// The cached code of `ip`.
    pub fn get(&self, ip: &str) -> (r: Option<String>)
        ensures
            match r {
                Some(c) => self.get_spec(ip@) == Some(c@),
                None => self.get_spec(ip@) is None,
            },
    {
        match self.codes.get(ip) {
            Some(c) => Some(copy_string(c)),
            None => None,
        }
    }

    /// Caches `code` for `ip`, which has no code yet.
    pub fn insert(&mut self, ip: String, code: String)
        requires
            old(self).get_spec(ip@) is None,
        ensures
            forall|k: Seq<char>| final(self).get_spec(k) == if k == ip@ { Some(code@) } else { old(self).get_spec(k) },
            final(self).size() == old(self).size() + 1,
    {
        proof {
            use_type_invariant(&*self);
        }
        let mut codes = StringHashMap::new();
        std::mem::swap(&mut codes, &mut self.codes);
        codes.insert(ip, code);
        self.codes = codes;
    }
}

/// `ip` up to its first `:` (all of it without one).
pub open spec fn before_colon(ip: Seq<char>) -> Seq<char> {
    ip.take(first_index_of(ip, ':'))
}

/// The text of the lookup error for an address that does not parse.
pub open spec fn invalid_address_text(a: Seq<char>) -> Seq<char> {
    "invalid address: "@ + a
}

/// The text of the lookup error for an address without country.
pub open spec fn not_found_text(a: Seq<char>) -> Seq<char> {
    "country not found for "@ + a
}

/// The first step of a country lookup.
pub enum LookupStart {
    /// The answer is known: a refused address or a cached code.
    Done(Result<String, Error>),
    /// The address to look up in the database.
    Resolve(String),
}

fn lookup_error(prefix: &str, a: &str) -> (e: Error)
    ensures
        e matches Error::Lookup(m) && m@ == prefix@ + a@,
{
    let mut m = String::new();
    append_str(&mut m, prefix);
    append_str(&mut m, a);
    Error::Lookup(m)
}

/// Starts the lookup of `ip` (a relay address, possibly with a port;
/// `socket_ip` is its IP part when it parses as a socket address): an
/// address holding `?` is refused; a cached code is the answer; otherwise
/// the address to resolve is the socket address's IP, or the text before
/// the first `:`.
pub fn start_lookup(cache: &CountryCache, ip: &str, socket_ip: Option<String>) -> (r: LookupStart)
    ensures
        ip@.contains('?') ==> (r matches LookupStart::Done(Err(e)) && e matches Error::Lookup(m) && m@
            == invalid_address_text(ip@)),
        !ip@.contains('?') ==> match cache.get_spec(ip@) {
            Some(c) => r matches LookupStart::Done(Ok(code)) && code@ == c,
            None => r matches LookupStart::Resolve(a) && a@ == (match socket_ip {
                Some(s) => s@,
                None => before_colon(ip@),
            }),
        },
{
    if contains_char(ip, '?') {
        return LookupStart::Done(Err(lookup_error("invalid address: ", ip)));
    }
    match cache.get(ip) {
        Some(code) => LookupStart::Done(Ok(code)),
        None => match socket_ip {
            Some(s) => LookupStart::Resolve(s),
            None => {
                let v = chars_of(ip);
                let mut part: Vec<char> = Vec::new();
                let mut i: usize = 0;
                while i < v.len() && v[i] != ':'
                    invariant
                        i <= v.len(),
                        v@ == ip@,
                        part@ == ip@.take(i as int),
                        forall|j: int| 0 <= j < i ==> ip@[j] != ':',
                    decreases v.len() - i,
                {
                    part.push(v[i]);
                    assert(part@ =~= ip@.take(i + 1));
                    i = i + 1;
                }
                proof {
                    crate::text::lemma_first_index_bound(ip@, ':');
                    first_colon_at(ip@, i as int);
                }
                LookupStart::Resolve(string_of(&part))
            },
        },
    }
}

proof fn first_colon_at(s: Seq<char>, i: int)
    requires
        0 <= i <= s.len(),
        forall|j: int| 0 <= j < i ==> s[j] != ':',
        i == s.len() || s[i] == ':',
    ensures
        first_index_of(s, ':') == i,
    decreases i,
{
    if i > 0 {
        let t = s.drop_first();
        assert forall|j: int| 0 <= j < i - 1 implies t[j] != ':' by {
            assert(t[j] == s[j + 1]);
        }
        if i < s.len() {
            assert(t[i - 1] == s[i]);
        }
        first_colon_at(t, i - 1);
    }
}

/// Ends the lookup of `ip` resolved as `addr`: an address that does not
/// parse as an IP address is refused; a found code is cached for `ip` and
/// returned; otherwise the address has no known country.
pub fn finish_lookup(cache: &mut CountryCache, ip: &str, addr: &str, ip_valid: bool, found: Option<String>) -> (r: Result<String, Error>)
    requires
        old(cache).get_spec(ip@) is None,
    ensures
        !ip_valid ==> (r matches Err(e) && e matches Error::Lookup(m) && m@ == invalid_address_text(addr@)
            && forall|k: Seq<char>| final(cache).get_spec(k) == old(cache).get_spec(k)) && final(cache).size()
            == old(cache).size(),
        ip_valid ==> match found {
            Some(c) => r matches Ok(code) && code@ == c@ && final(cache).size() == old(cache).size() + 1 && forall|
                k: Seq<char>,
            | final(cache).get_spec(k) == if k == ip@ { Some(c@) } else { old(cache).get_spec(k) },
            None => r matches Err(e) && e matches Error::Lookup(m) && m@ == not_found_text(addr@)
                && final(cache).size() == old(cache).size() && forall|k: Seq<char>|
                final(cache).get_spec(k) == old(cache).get_spec(k),
        },
{
    if !ip_valid {
        return Err(lookup_error("invalid address: ", addr));
    }
    match found {
        Some(code) => {
            cache.insert(ip.to_owned(), copy_string(&code));
            Ok(code)
        },
        None => Err(lookup_error("country not found for ", addr)),
    }
}

} // verus!

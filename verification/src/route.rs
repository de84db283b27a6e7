//! Country preferences for circuit hops: validation of country codes, the
//! check of a built circuit against the preferences, and the choice of three
//! distinct countries for a generated route.

use vstd::prelude::*;
use vstd::utf8::encode_utf8;
use crate::text::{
    ascii_upper, eq_ignore_ascii_case, eq_ignore_case, to_upper, trim, trimmed, upper_char,
    vec_contains_str, views,
};

verus! {

/// One relay of a circuit. `country` is an ISO 3166-1 alpha-2 code derived
/// from the relay's IP address.
pub struct RelayInfo {
    pub nickname: String,
    pub ip_address: String,
    pub country: String,
}

/// Requested countries for the entry, middle and exit hops.
pub struct CircuitCountryPrefs {
    pub entry: Option<String>,
    pub middle: Option<String>,
    pub exit: Option<String>,
}

/// Whether `c` is the country requested by `want`, ignoring ASCII case.
pub open spec fn hop_matches(c: Seq<char>, want: Seq<char>) -> bool {
    eq_ignore_case(c, want)
}

impl CircuitCountryPrefs {
    pub open spec fn restricted(&self) -> bool {
        self.entry is Some || self.middle is Some || self.exit is Some
    }

    /// The circuit `relays` (entry first, exit last) satisfies every
    /// preference: the entry and exit countries match, and when a middle
    /// country is requested the circuit has at least three hops and every hop
    /// between entry and exit is in that country.
    pub open spec fn spec_matches(&self, relays: Seq<RelayInfo>) -> bool {
        &&& relays.len() > 0
        &&& self.entry matches Some(e) ==> hop_matches(relays[0].country@, e@)
        &&& self.exit matches Some(x) ==> hop_matches(relays.last().country@, x@)
        &&& self.middle matches Some(m) ==> {
            &&& relays.len() >= 3
            &&& forall|i: int| 1 <= i < relays.len() - 1 ==> hop_matches(#[trigger] relays[i].country@, m@)
        }
    }

    /// Whether any hop has a country preference.
    pub fn is_restricted(&self) -> (r: bool)
        ensures
            r == self.restricted(),
    {
        self.entry.is_some() || self.middle.is_some() || self.exit.is_some()
    }

    /// Whether the circuit `relays` satisfies the preferences.
    pub fn matches(&self, relays: &Vec<RelayInfo>) -> (r: bool)
        ensures
            r == self.spec_matches(relays@),
    {
        if relays.len() == 0 {
            return false;
        }
        if let Some(entry) = &self.entry {
            if !eq_ignore_ascii_case(relays[0].country.as_str(), entry.as_str()) {
                return false;
            }
        }
        if let Some(exit) = &self.exit {
            if !eq_ignore_ascii_case(relays[relays.len() - 1].country.as_str(), exit.as_str()) {
                return false;
            }
        }
        if let Some(middle) = &self.middle {
            if relays.len() < 3 {
                return false;
            }
            let mut i: usize = 1;
            while i < relays.len() - 1
                invariant
                    1 <= i <= relays.len() - 1,
                    relays.len() >= 3,
                    self.middle == Some(*middle),
                    forall|j: int| 1 <= j < i ==> hop_matches(#[trigger] relays@[j].country@, middle@),
                decreases relays.len() - i,
            {
                if !eq_ignore_ascii_case(relays[i].country.as_str(), middle.as_str()) {
                    assert(!hop_matches(relays@[i as int].country@, middle@));
                    return false;
                }
                i = i + 1;
            }
        }
        true
    }
}

/// A circuit is acceptable when no preference is set or it satisfies them.
pub open spec fn policy_accepts(policy: CircuitCountryPrefs, relays: Seq<RelayInfo>) -> bool {
    !policy.restricted() || policy.spec_matches(relays)
}

/// Whether a built circuit is acceptable under the country policy.
pub fn matches_policy(relays: &Vec<RelayInfo>, policy: &CircuitCountryPrefs) -> (r: bool)
    ensures
        r == policy_accepts(*policy, relays@),
{
    if !policy.is_restricted() {
        return true;
    }
    policy.matches(relays)
}


/// A printable ASCII character: neither a control character nor outside ASCII.
pub open spec fn printable_ascii(c: char) -> bool {
    0x20 <= (c as u32) && (c as u32) <= 0x7E
}

/// What `tor_geoip::CountryCode` accepts: exactly two printable ASCII
/// characters, other than the "unknown country" marker `??`.
pub open spec fn valid_country_code(s: Seq<char>) -> bool {
    &&& s.len() == 2
    &&& printable_ascii(s[0])
    &&& printable_ascii(s[1])
    &&& !(s[0] == '?' && s[1] == '?')
}

/// The message of the error that `tor_geoip::CountryCode::from_str` returns
/// for a code `s` it refuses: a code that is not two bytes long in UTF-8 is
/// "unsupported" and named in ASCII upper case; one of two bytes that are not
/// both printable ASCII is "unsupported" and named as given; and `??` is
/// refused as the "nowhere" code.
pub open spec fn country_code_error_text(s: Seq<char>) -> Seq<char> {
    if encode_utf8(s).len() != 2 {
        "Unsupported country code in file: "@ + ascii_upper(s)
    } else if !(s.len() == 2 && printable_ascii(s[0]) && printable_ascii(s[1])) {
        "Unsupported country code in file: "@ + s
    } else {
        "The 'nowhere' country code ('??') is not supported in this context."@
    }
}

/// Parses a country code with `tor_geoip::CountryCode::from_str` and renders
/// it with its `Display` impl. Per the crate's source, the parse succeeds
/// exactly on two printable ASCII characters other than `??`, and the code is
/// stored (and displayed) in ASCII upper case; a refused code's error
/// displays as [`country_code_error_text`].
#[verifier::external_body]
fn parse_country_code(s: &str) -> (r: Result<String, String>)
    ensures
        match r {
            Ok(code) => valid_country_code(s@) && code@ == ascii_upper(s@),
            Err(msg) => !valid_country_code(s@) && msg@ == country_code_error_text(s@),
        },
{
    match s.parse::<tor_geoip::CountryCode>() {
        Ok(cc) => Ok(cc.to_string()),
        Err(e) => Err(e.to_string()),
    }
}

/// Validates a country code for a hop preference: the upper-cased code, or
/// the message of the parse error.
pub fn check_country_code(code: &str) -> (r: Result<String, String>)
    ensures
        match r {
            Ok(c) => valid_country_code(code@) && c@ == ascii_upper(code@),
            Err(msg) => !valid_country_code(code@) && msg@ == country_code_error_text(code@),
        },
{
    parse_country_code(code)
}

/// A country code given by the user: trimmed, upper-cased, and kept only if
/// it is a valid code.
pub open spec fn normalised_code(code: Seq<char>) -> Option<Seq<char>> {
    let t = trimmed(code);
    if t.len() == 0 || !valid_country_code(t) { None } else { Some(ascii_upper(t)) }
}

/// Normalises a user-supplied country code (trim, upper-case, validate).
pub fn normalise_country_code_str(code: &str) -> (r: Option<String>)
    ensures
        r matches Some(c) ==> normalised_code(code@) == Some(c@),
        r is None ==> normalised_code(code@) is None,
{
    let t = trim(code);
    if t.as_str().is_empty() {
        return None;
    }
    let upper = to_upper(t.as_str());
    match parse_country_code(upper.as_str()) {
        Ok(_) => {
            proof {
                assert(valid_country_code(t@)) by {
                    assert(upper@[0] == upper_char(t@[0]));
                    assert(upper@[1] == upper_char(t@[1]));
                }
            }
            Some(upper)
        },
        Err(_) => {
            proof {
                if valid_country_code(t@) {
                    assert(upper@[0] == upper_char(t@[0]));
                    assert(upper@[1] == upper_char(t@[1]));
                    assert(valid_country_code(upper@));
                }
            }
            None
        },
    }
}


/// Country codes used for a route slot when neither the request nor the
/// fallback list provides one: DE, NL, then SE for every later slot.
pub open spec fn default_route_code(idx: int) -> Seq<char> {
    if idx == 0 { seq!['D', 'E'] } else if idx == 1 { seq!['N', 'L'] } else { seq!['S', 'E'] }
}

/// The requested codes of a route, as character sequences.
pub open spec fn option_views(v: Seq<Option<String>>) -> Seq<Option<Seq<char>>> {
    v.map_values(|o: Option<String>| match o { Some(s) => Some(s@), None => None })
}

/// The first fallback code (upper-cased), from position `k` on, that is not
/// yet used.
pub open spec fn first_free(used: Set<Seq<char>>, fb: Seq<Seq<char>>, k: int) -> Option<Seq<char>>
    decreases fb.len() - k,
{
    if k < 0 || k >= fb.len() {
        None
    } else if !used.contains(ascii_upper(fb[k])) {
        Some(ascii_upper(fb[k]))
    } else {
        first_free(used, fb, k + 1)
    }
}

/// The code chosen for slot `idx`, and the set of used codes afterwards.
///
/// A requested code is taken when it is not used yet; otherwise the first
/// unused fallback; otherwise the requested code even though it repeats;
/// otherwise the fallback at the same position, or a default code.
pub open spec fn route_slot(
    used: Set<Seq<char>>,
    idx: int,
    cand: Option<Seq<char>>,
    fb: Seq<Seq<char>>,
) -> (Seq<char>, Set<Seq<char>>) {
    if cand is Some && !used.contains(ascii_upper(cand->0)) {
        (ascii_upper(cand->0), used.insert(ascii_upper(cand->0)))
    } else if first_free(used, fb, 0) is Some {
        (first_free(used, fb, 0)->0, used.insert(first_free(used, fb, 0)->0))
    } else if cand is Some {
        (ascii_upper(cand->0), used)
    } else if 0 <= idx < fb.len() {
        (ascii_upper(fb[idx]), used)
    } else {
        (ascii_upper(default_route_code(idx)), used)
    }
}

/// The codes chosen for the first `n` slots, and the set of used codes.
pub open spec fn route_prefix(req: Seq<Option<Seq<char>>>, fb: Seq<Seq<char>>, n: int) -> (
    Seq<Seq<char>>,
    Set<Seq<char>>,
)
    decreases n,
{
    if n <= 0 {
        (Seq::empty(), Set::empty())
    } else {
        let prev = route_prefix(req, fb, n - 1);
        let slot = route_slot(prev.1, n - 1, req[n - 1], fb);
        (prev.0.push(slot.0), slot.1)
    }
}

/// The route chosen for the requested hop countries.
pub open spec fn unique_route(req: Seq<Option<Seq<char>>>, fb: Seq<Seq<char>>) -> Seq<Seq<char>> {
    route_prefix(req, fb, req.len() as int).0
}

proof fn lemma_push_contains(before: Seq<String>, s: String, after: Seq<String>)
    requires
        after == before.push(s),
    ensures
        forall|x: Seq<char>| views(after).contains(x) <==> (views(before).contains(x) || x == s@),
{
    assert(views(after) =~= views(before).push(s@));
    assert forall|x: Seq<char>| views(after).contains(x) <==> (views(before).contains(x) || x == s@) by {
        if views(after).contains(x) {
            let j = choose|j: int| 0 <= j < views(after).len() && views(after)[j] == x;
            if j < views(before).len() {
                assert(views(before)[j] == x);
            }
        }
        if views(before).contains(x) {
            let j = choose|j: int| 0 <= j < views(before).len() && views(before)[j] == x;
            assert(views(after)[j] == x);
        }
        if x == s@ {
            assert(views(after)[views(before).len() as int] == x);
        }
    }
}

/// Finds the first fallback code not yet used, scanning from position `k`.
fn find_free_fallback(used: &Vec<String>, fallback: &Vec<String>, Ghost(used_set): Ghost<Set<Seq<char>>>) -> (r: Option<String>)
    requires
        forall|x: Seq<char>| used_set.contains(x) <==> views(used@).contains(x),
    ensures
        r matches Some(f) ==> first_free(used_set, views(fallback@), 0) == Some(f@),
        r is None ==> first_free(used_set, views(fallback@), 0) is None,
{
    let ghost fb = views(fallback@);
    let mut k: usize = 0;
    while k < fallback.len()
        invariant
            k <= fallback.len(),
            fb == views(fallback@),
            forall|x: Seq<char>| used_set.contains(x) <==> views(used@).contains(x),
            first_free(used_set, fb, 0) == first_free(used_set, fb, k as int),
        decreases fallback.len() - k,
    {
        let upper = to_upper(fallback[k].as_str());
        assert(fb[k as int] == fallback@[k as int]@);
        if !vec_contains_str(used, upper.as_str()) {
            return Some(upper);
        }
        k = k + 1;
    }
    None
}

/// Picks one country code per requested hop such that, as far as the
/// fallback list allows, no code repeats (see [`unique_route`]).
pub fn ensure_unique_route(requested: &Vec<Option<String>>, fallback: &Vec<String>) -> (r: Vec<String>)
    ensures
        views(r@) == unique_route(option_views(requested@), views(fallback@)),
{
    let ghost req = option_views(requested@);
    let ghost fb = views(fallback@);
    let mut used: Vec<String> = Vec::new();
    let mut result: Vec<String> = Vec::new();
    let ghost mut used_set: Set<Seq<char>> = Set::empty();
    let mut idx: usize = 0;
    while idx < requested.len()
        invariant
            idx <= requested.len(),
            req == option_views(requested@),
            fb == views(fallback@),
            (views(result@), used_set) == route_prefix(req, fb, idx as int),
            forall|x: Seq<char>| used_set.contains(x) <==> views(used@).contains(x),
        decreases requested.len() - idx,
    {
        let ghost prev_used = used_set;
        let ghost cand = req[idx as int];
        assert(cand == match requested@[idx as int] { Some(s) => Some(s@), None => None::<Seq<char>> });
        let mut assigned: Option<String> = None;
        if let Some(code) = &requested[idx] {
            let upper = to_upper(code.as_str());
            if !vec_contains_str(&used, upper.as_str()) {
                let ghost before = used@;
                used.push(upper.clone());
                proof {
                    lemma_push_contains(before, upper, used@);
                    used_set = used_set.insert(upper@);
                }
                assigned = Some(upper);
            }
        }
        if assigned.is_none() {
            match find_free_fallback(&used, fallback, Ghost(used_set)) {
                Some(f) => {
                    let ghost before = used@;
                    used.push(f.clone());
                    proof {
                        lemma_push_contains(before, f, used@);
                        used_set = used_set.insert(f@);
                    }
                    assigned = Some(f);
                },
                None => {},
            }
        }
        if assigned.is_none() {
            if let Some(code) = &requested[idx] {
                assigned = Some(to_upper(code.as_str()));
            }
        }
        let chosen = match assigned {
            Some(a) => a,
            None => {
                if idx < fallback.len() {
                    assert(fb[idx as int] == fallback@[idx as int]@);
                    to_upper(fallback[idx].as_str())
                } else {
                    let d = if idx == 0 {
                        String::from_str("DE")
                    } else if idx == 1 {
                        String::from_str("NL")
                    } else {
                        String::from_str("SE")
                    };
                    proof {
                        reveal_strlit("DE");
                        reveal_strlit("NL");
                        reveal_strlit("SE");
                        assert(d@ =~= default_route_code(idx as int));
                    }
                    to_upper(d.as_str())
                }
            },
        };
        proof {
            let slot = route_slot(prev_used, idx as int, cand, fb);
            assert(chosen@ == slot.0);
            assert(used_set == slot.1);
        }
        result.push(chosen);
        assert(views(result@) =~= route_prefix(req, fb, idx as int).0.push(route_slot(prev_used, idx as int, cand, fb).0));
        idx = idx + 1;
    }
    result
}


proof fn lemma_prefix_len(req: Seq<Option<Seq<char>>>, fb: Seq<Seq<char>>, n: int)
    requires
        n >= 0,
    ensures
        route_prefix(req, fb, n).0.len() == n,
    decreases n,
{
    if n > 0 {
        lemma_prefix_len(req, fb, n - 1);
    }
}

proof fn lemma_prefix_stable(req: Seq<Option<Seq<char>>>, fb: Seq<Seq<char>>, n: int, m: int)
    requires
        0 <= n <= m,
    ensures
        forall|k: int| 0 <= k < n ==> route_prefix(req, fb, n).0[k] == route_prefix(req, fb, m).0[k],
    decreases m - n,
{
    lemma_prefix_len(req, fb, n);
    if n < m {
        lemma_prefix_stable(req, fb, n + 1, m);
    }
}

proof fn lemma_first_free(used: Set<Seq<char>>, fb: Seq<Seq<char>>, k: int)
    requires
        0 <= k,
    ensures
        first_free(used, fb, k) matches Some(f) ==> !used.contains(f),
        (exists|j: int| k <= j < fb.len() && !used.contains(ascii_upper(#[trigger] fb[j])))
            ==> first_free(used, fb, k) is Some,
    decreases fb.len() - k,
{
    if k < fb.len() {
        lemma_first_free(used, fb, k + 1);
        if exists|j: int| k <= j < fb.len() && !used.contains(ascii_upper(#[trigger] fb[j])) {
            let j = choose|j: int| k <= j < fb.len() && !used.contains(ascii_upper(#[trigger] fb[j]));
            if j > k && used.contains(ascii_upper(fb[k])) {
                assert(k + 1 <= j < fb.len() && !used.contains(ascii_upper(fb[j])));
            }
        }
    }
}

proof fn lemma_used_subset(req: Seq<Option<Seq<char>>>, fb: Seq<Seq<char>>, n: int)
    requires
        n >= 0,
    ensures
        forall|x: Seq<char>| route_prefix(req, fb, n).1.contains(x) ==> route_prefix(req, fb, n).0.contains(x),
    decreases n,
{
    if n > 0 {
        lemma_used_subset(req, fb, n - 1);
        let prev = route_prefix(req, fb, n - 1);
        let cur = route_prefix(req, fb, n);
        assert forall|x: Seq<char>| cur.1.contains(x) implies cur.0.contains(x) by {
            if prev.1.contains(x) {
                let j = choose|j: int| 0 <= j < prev.0.len() && prev.0[j] == x;
                assert(cur.0[j] == x);
            } else {
                assert(cur.0[cur.0.len() - 1] == x);
            }
        }
    }
}

proof fn lemma_upper_idem(s: Seq<char>)
    ensures
        ascii_upper(ascii_upper(s)) == ascii_upper(s),
{
    assert(ascii_upper(ascii_upper(s)) =~= ascii_upper(s));
}

proof fn lemma_prefix_upper(req: Seq<Option<Seq<char>>>, fb: Seq<Seq<char>>, n: int)
    requires
        n >= 0,
    ensures
        forall|k: int| 0 <= k < n ==> ascii_upper(#[trigger] route_prefix(req, fb, n).0[k]) == route_prefix(req, fb, n).0[k],
    decreases n,
{
    lemma_prefix_len(req, fb, n);
    if n > 0 {
        lemma_prefix_upper(req, fb, n - 1);
        let prev = route_prefix(req, fb, n - 1);
        let slot = route_slot(prev.1, n - 1, req[n - 1], fb);
        assert(exists|t: Seq<char>| slot.0 == ascii_upper(t)) by {
            if req[n - 1] is Some && !prev.1.contains(ascii_upper(req[n - 1]->0)) {
                assert(slot.0 == ascii_upper(req[n - 1]->0));
            } else if first_free(prev.1, fb, 0) is Some {
                lemma_first_free_upper(prev.1, fb, 0);
            } else if req[n - 1] is Some {
                assert(slot.0 == ascii_upper(req[n - 1]->0));
            } else if 0 <= n - 1 < fb.len() {
                assert(slot.0 == ascii_upper(fb[n - 1]));
            } else {
                assert(slot.0 == ascii_upper(default_route_code(n - 1)));
            }
        }
        let t = choose|t: Seq<char>| slot.0 == ascii_upper(t);
        lemma_upper_idem(t);
        assert forall|k: int| 0 <= k < n implies ascii_upper(#[trigger] route_prefix(req, fb, n).0[k]) == route_prefix(req, fb, n).0[k] by {
            if k < n - 1 {
                assert(route_prefix(req, fb, n).0[k] == prev.0[k]);
            }
        }
    }
}

proof fn lemma_first_free_upper(used: Set<Seq<char>>, fb: Seq<Seq<char>>, k: int)
    requires
        first_free(used, fb, k) is Some,
    ensures
        exists|t: Seq<char>| first_free(used, fb, k)->0 == ascii_upper(t),
    decreases fb.len() - k,
{
    if k >= 0 && k < fb.len() && used.contains(ascii_upper(fb[k])) {
        lemma_first_free_upper(used, fb, k + 1);
    } else {
        assert(first_free(used, fb, k)->0 == ascii_upper(fb[k]));
    }
}

/// The upper-cased fallback codes.
pub open spec fn fallback_codes(fb: Seq<Seq<char>>) -> Set<Seq<char>> {
    fb.map_values(|c: Seq<char>| ascii_upper(c)).to_set()
}

proof fn lemma_distinct_prefix(req: Seq<Option<Seq<char>>>, fb: Seq<Seq<char>>, n: int)
    requires
        0 <= n <= req.len(),
        fallback_codes(fb).len() >= req.len(),
    ensures
        route_prefix(req, fb, n).1.finite(),
        route_prefix(req, fb, n).1.len() == n,
        forall|x: Seq<char>| route_prefix(req, fb, n).1.contains(x) <==> route_prefix(req, fb, n).0.contains(x),
        forall|i: int, j: int| 0 <= i < j < n ==> route_prefix(req, fb, n).0[i] != route_prefix(req, fb, n).0[j],
    decreases n,
{
    lemma_prefix_len(req, fb, n);
    if n > 0 {
        lemma_distinct_prefix(req, fb, n - 1);
        let prev = route_prefix(req, fb, n - 1);
        let u = prev.1;
        let cand = req[n - 1];
        let slot = route_slot(u, n - 1, cand, fb);
        if !(cand is Some && !u.contains(ascii_upper(cand->0))) {
            // Some fallback code is still free: the used codes are fewer than
            // the distinct fallback codes.
            let f = fallback_codes(fb);
            let mapped = fb.map_values(|c: Seq<char>| ascii_upper(c));
            if f.subset_of(u) {
                vstd::set_lib::lemma_len_subset(f, u);
                assert(false);
            }
            let x = choose|x: Seq<char>| f.contains(x) && !u.contains(x);
            assert(mapped.contains(x));
            let j = choose|j: int| 0 <= j < mapped.len() && mapped[j] == x;
            assert(mapped[j] == ascii_upper(fb[j]));
            lemma_first_free(u, fb, 0);
        } else {
            lemma_first_free(u, fb, 0);
        }
        assert(!u.contains(slot.0));
        let cur = route_prefix(req, fb, n);
        assert(cur.0 == prev.0.push(slot.0));
        assert(cur.1 == u.insert(slot.0));
        assert forall|x: Seq<char>| cur.1.contains(x) <==> cur.0.contains(x) by {
            if prev.0.contains(x) {
                let j = choose|j: int| 0 <= j < prev.0.len() && prev.0[j] == x;
                assert(cur.0[j] == x);
            }
            if cur.0.contains(x) {
                let j = choose|j: int| 0 <= j < cur.0.len() && cur.0[j] == x;
                if j < n - 1 {
                    assert(prev.0[j] == x);
                }
            }
            if x == slot.0 {
                assert(cur.0[n - 1] == x);
            }
        }
        assert forall|i: int, j: int| 0 <= i < j < n implies cur.0[i] != cur.0[j] by {
            if j == n - 1 {
                assert(cur.0[i] == prev.0[i]);
                assert(prev.0.contains(prev.0[i]));
            } else {
                assert(cur.0[i] == prev.0[i]);
                assert(cur.0[j] == prev.0[j]);
            }
        }
    }
}

/// The route has one code per requested hop.
pub proof fn law_route_length(req: Seq<Option<Seq<char>>>, fb: Seq<Seq<char>>)
    ensures
        unique_route(req, fb).len() == req.len(),
{
    lemma_prefix_len(req, fb, req.len() as int);
}

/// Every code of the route is in ASCII upper case.
pub proof fn law_route_upper_case(req: Seq<Option<Seq<char>>>, fb: Seq<Seq<char>>)
    ensures
        forall|k: int| 0 <= k < req.len() ==> ascii_upper(#[trigger] unique_route(req, fb)[k]) == unique_route(req, fb)[k],
{
    lemma_prefix_upper(req, fb, req.len() as int);
}

/// A requested country is kept for its hop unless an earlier hop of the route
/// already uses it.
pub proof fn law_route_keeps_request(req: Seq<Option<Seq<char>>>, fb: Seq<Seq<char>>, i: int)
    requires
        0 <= i < req.len(),
        req[i] is Some,
        forall|j: int| 0 <= j < i ==> unique_route(req, fb)[j] != ascii_upper(req[i]->0),
    ensures
        unique_route(req, fb)[i] == ascii_upper(req[i]->0),
{
    let n = req.len() as int;
    lemma_prefix_stable(req, fb, i, n);
    lemma_prefix_stable(req, fb, i + 1, n);
    lemma_prefix_len(req, fb, i);
    lemma_used_subset(req, fb, i);
    let prev = route_prefix(req, fb, i);
    if prev.1.contains(ascii_upper(req[i]->0)) {
        let j = choose|j: int| 0 <= j < prev.0.len() && prev.0[j] == ascii_upper(req[i]->0);
        assert(unique_route(req, fb)[j] == prev.0[j]);
        assert(false);
    }
    assert(route_prefix(req, fb, i + 1).0[i] == ascii_upper(req[i]->0));
}

/// When the fallback list offers at least as many distinct countries as there
/// are hops, no country repeats in the route.
pub proof fn law_route_distinct(req: Seq<Option<Seq<char>>>, fb: Seq<Seq<char>>)
    requires
        fallback_codes(fb).len() >= req.len(),
    ensures
        forall|i: int, j: int| 0 <= i < j < req.len() ==> unique_route(req, fb)[i] != unique_route(req, fb)[j],
{
    lemma_distinct_prefix(req, fb, req.len() as int);
}

} // verus!

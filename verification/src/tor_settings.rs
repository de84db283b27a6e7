//! Settings of the Tor client that the user controls: per-hop country
//! preferences, bridges and the extra configuration text, and what is
//! derived from them (the configuration handed to the client, a generated
//! torrc profile, the report on the current circuit).

use vstd::prelude::*;
use crate::error::{capture_backtrace, Error};
use crate::route::{
    check_country_code, country_code_error_text, ensure_unique_route, fallback_codes, law_route_distinct,
    normalise_country_code_str, normalised_code, option_views, unique_route, valid_country_code,
    CircuitCountryPrefs, RelayInfo,
};
use crate::text::{
    ascii_upper, upper_char, chars_of, copy_string, copy_strings, eq_ignore_ascii_case, eq_ignore_case, has_substring,
    push_char, str_contains, trimmed, views,
};
use crate::logs::{join_lines, joined};
use crate::workers::append_str;

verus! {

/// View of an optional string.
pub open spec fn opt_view(o: Option<String>) -> Option<Seq<char>> {
    match o {
        Some(s) => Some(s@),
        None => None,
    }
}

fn copy_opt(o: &Option<String>) -> (r: Option<String>)
    ensures
        opt_view(r) == opt_view(*o),
{
    match o {
        Some(s) => Some(copy_string(s)),
        None => None,
    }
}

/// The hop whose country is set.
#[derive(Clone, Copy, Debug, PartialEq, Eq, Structural)]
pub enum Hop {
    Entry,
    Middle,
    Exit,
}

/// The step named in the error for an invalid code of a hop.
pub open spec fn hop_step(h: Hop) -> Seq<char> {
    match h {
        Hop::Entry => "set_entry_country"@,
        Hop::Middle => "set_middle_country"@,
        Hop::Exit => "set_exit_country"@,
    }
}

fn hop_step_text(h: Hop) -> (r: String)
    ensures
        r@ == hop_step(h),
{
    match h {
        Hop::Entry => String::from_str("set_entry_country"),
        Hop::Middle => String::from_str("set_middle_country"),
        Hop::Exit => String::from_str("set_exit_country"),
    }
}

/// A hop country as stored: a valid country code in ASCII upper case.
pub open spec fn stored_code(c: Seq<char>) -> bool {
    valid_country_code(c) && ascii_upper(c) == c
}

/// The upper-cased form of a valid code is a stored code.
proof fn lemma_upper_code_stored(c: Seq<char>)
    requires
        valid_country_code(c),
    ensures
        stored_code(ascii_upper(c)),
{
    let u = ascii_upper(c);
    assert(u.len() == 2);
    assert(u[0] == upper_char(c[0]) && u[1] == upper_char(c[1]));
    assert(ascii_upper(u) =~= u);
}

/// The settings: country per hop (upper-case, valid codes), bridge lines and
/// the user's configuration text.
pub struct TorSettings {
    entry: Option<String>,
    middle: Option<String>,
    exit: Option<String>,
    bridges: Vec<String>,
    torrc: String,
}

impl TorSettings {
    pub closed spec fn country(&self, h: Hop) -> Option<Seq<char>> {
        match h {
            Hop::Entry => opt_view(self.entry),
            Hop::Middle => opt_view(self.middle),
            Hop::Exit => opt_view(self.exit),
        }
    }

    pub closed spec fn bridges_view(&self) -> Seq<Seq<char>> {
        views(self.bridges@)
    }

    pub closed spec fn torrc_view(&self) -> Seq<char> {
        self.torrc@
    }

    /// Every stored hop country is a valid country code in ASCII upper case,
    /// as the client's country-code type holds it.
    pub open spec fn wf(&self) -> bool {
        forall|h: Hop| #[trigger] self.country(h) matches Some(c) ==> stored_code(c)
    }

    /// No preferences, no bridges, empty configuration text.
    pub fn new() -> (r: TorSettings)
        ensures
            r.wf(),
            forall|h: Hop| r.country(h) is None,
            r.bridges_view() == Seq::<Seq<char>>::empty(),
            r.torrc_view() == Seq::<char>::empty(),
    {
        let r = TorSettings { entry: None, middle: None, exit: None, bridges: Vec::new(), torrc: String::new() };
        assert(r.bridges_view() =~= Seq::<Seq<char>>::empty());
        r
    }

    /// Sets (or with `None` clears) the country of hop `h`. A code that is
    /// not a valid country code is refused with a configuration error naming
    /// the hop's step and the parser's message, and nothing changes.
    pub fn set_country(&mut self, h: Hop, country: Option<String>) -> (r: Result<(), Error>)
        ensures
            old(self).wf() ==> final(self).wf(),
            match country {
                None => r is Ok && final(self).country(h) is None,
                Some(c) => if valid_country_code(c@) {
                    r is Ok && final(self).country(h) == Some(ascii_upper(c@))
                } else {
                    &&& r matches Err(e) && e matches Error::ConfigError { step, source_message, .. }
                        && step@ == hop_step(h) && source_message@ == country_code_error_text(c@)
                    &&& final(self).country(h) == old(self).country(h)
                },
            },
            forall|o: Hop| o != h ==> final(self).country(o) == old(self).country(o),
            final(self).bridges_view() == old(self).bridges_view(),
            final(self).torrc_view() == old(self).torrc_view(),
    {
        let value = match country {
            None => None,
            Some(c) => match check_country_code(c.as_str()) {
                Ok(code) => {
                    proof {
                        lemma_upper_code_stored(c@);
                    }
                    Some(code)
                },
                Err(msg) => {
                    return Err(
                        Error::ConfigError {
                            step: hop_step_text(h),
                            source_message: msg,
                            backtrace: capture_backtrace(),
                        },
                    );
                },
            },
        };
        let ghost stored = value;
        match h {
            Hop::Entry => self.entry = value,
            Hop::Middle => self.middle = value,
            Hop::Exit => self.exit = value,
        }
        proof {
            assert forall|o: Hop| old(self).wf() && (#[trigger] self.country(o)) is Some implies stored_code(
                self.country(o)->0,
            ) by {
                if o == h {
                    assert(self.country(o) == opt_view(stored));
                } else {
                    assert(self.country(o) == old(self).country(o));
                }
            }
        }
        Ok(())
    }

    /// Sets the exit country (see [`set_country`](Self::set_country)).
    pub fn set_exit_country(&mut self, country: Option<String>) -> (r: Result<(), Error>)
        ensures
            old(self).wf() ==> final(self).wf(),
            match country {
                None => r is Ok && final(self).country(Hop::Exit) is None,
                Some(c) => if valid_country_code(c@) {
                    r is Ok && final(self).country(Hop::Exit) == Some(ascii_upper(c@))
                } else {
                    &&& r matches Err(e) && e matches Error::ConfigError { step, source_message, .. }
                        && step@ == hop_step(Hop::Exit) && source_message@ == country_code_error_text(c@)
                    &&& final(self).country(Hop::Exit) == old(self).country(Hop::Exit)
                },
            },
            forall|o: Hop| o != Hop::Exit ==> final(self).country(o) == old(self).country(o),
            final(self).bridges_view() == old(self).bridges_view(),
            final(self).torrc_view() == old(self).torrc_view(),
    {
        self.set_country(Hop::Exit, country)
    }

    /// Sets the entry country (see [`set_country`](Self::set_country)).
    pub fn set_entry_country(&mut self, country: Option<String>) -> (r: Result<(), Error>)
        ensures
            old(self).wf() ==> final(self).wf(),
            match country {
                None => r is Ok && final(self).country(Hop::Entry) is None,
                Some(c) => if valid_country_code(c@) {
                    r is Ok && final(self).country(Hop::Entry) == Some(ascii_upper(c@))
                } else {
                    &&& r matches Err(e) && e matches Error::ConfigError { step, source_message, .. }
                        && step@ == hop_step(Hop::Entry) && source_message@ == country_code_error_text(c@)
                    &&& final(self).country(Hop::Entry) == old(self).country(Hop::Entry)
                },
            },
            forall|o: Hop| o != Hop::Entry ==> final(self).country(o) == old(self).country(o),
            final(self).bridges_view() == old(self).bridges_view(),
            final(self).torrc_view() == old(self).torrc_view(),
    {
        self.set_country(Hop::Entry, country)
    }

    /// Sets the middle country (see [`set_country`](Self::set_country)).
    pub fn set_middle_country(&mut self, country: Option<String>) -> (r: Result<(), Error>)
        ensures
            old(self).wf() ==> final(self).wf(),
            match country {
                None => r is Ok && final(self).country(Hop::Middle) is None,
                Some(c) => if valid_country_code(c@) {
                    r is Ok && final(self).country(Hop::Middle) == Some(ascii_upper(c@))
                } else {
                    &&& r matches Err(e) && e matches Error::ConfigError { step, source_message, .. }
                        && step@ == hop_step(Hop::Middle) && source_message@ == country_code_error_text(c@)
                    &&& final(self).country(Hop::Middle) == old(self).country(Hop::Middle)
                },
            },
            forall|o: Hop| o != Hop::Middle ==> final(self).country(o) == old(self).country(o),
            final(self).bridges_view() == old(self).bridges_view(),
            final(self).torrc_view() == old(self).torrc_view(),
    {
        self.set_country(Hop::Middle, country)
    }

    /// The country of hop `h`.
    pub fn get_country(&self, h: Hop) -> (r: Option<String>)
        ensures
            opt_view(r) == self.country(h),
    {
        match h {
            Hop::Entry => copy_opt(&self.entry),
            Hop::Middle => copy_opt(&self.middle),
            Hop::Exit => copy_opt(&self.exit),
        }
    }

    /// The exit country.
    pub fn get_exit_country(&self) -> (r: Option<String>)
        ensures
            opt_view(r) == self.country(Hop::Exit),
    {
        self.get_country(Hop::Exit)
    }

    /// The entry country.
    pub fn get_entry_country(&self) -> (r: Option<String>)
        ensures
            opt_view(r) == self.country(Hop::Entry),
    {
        self.get_country(Hop::Entry)
    }

    /// The middle country.
    pub fn get_middle_country(&self) -> (r: Option<String>)
        ensures
            opt_view(r) == self.country(Hop::Middle),
    {
        self.get_country(Hop::Middle)
    }

    /// The preferences of all three hops.
    pub fn prefs(&self) -> (r: CircuitCountryPrefs)
        ensures
            opt_view(r.entry) == self.country(Hop::Entry),
            opt_view(r.middle) == self.country(Hop::Middle),
            opt_view(r.exit) == self.country(Hop::Exit),
    {
        CircuitCountryPrefs { entry: copy_opt(&self.entry), middle: copy_opt(&self.middle), exit: copy_opt(&self.exit) }
    }

    /// Replaces the bridge lines.
    pub fn set_bridges(&mut self, bridges: Vec<String>)
        ensures
            old(self).wf() ==> final(self).wf(),
            final(self).bridges_view() == views(bridges@),
            forall|h: Hop| final(self).country(h) == old(self).country(h),
            final(self).torrc_view() == old(self).torrc_view(),
    {
        self.bridges = bridges;
        assert(forall|h: Hop| #[trigger] self.country(h) == old(self).country(h));
    }

    /// The bridge lines.
    pub fn get_bridges(&self) -> (r: Vec<String>)
        ensures
            views(r@) == self.bridges_view(),
    {
        copy_strings(&self.bridges)
    }

    /// Replaces the configuration text.
    pub fn set_torrc_config(&mut self, config: String)
        ensures
            old(self).wf() ==> final(self).wf(),
            final(self).torrc_view() == config@,
            forall|h: Hop| final(self).country(h) == old(self).country(h),
            final(self).bridges_view() == old(self).bridges_view(),
    {
        self.torrc = config;
        assert(forall|h: Hop| #[trigger] self.country(h) == old(self).country(h));
    }

    /// The configuration text handed to the client: the user's text with the
    /// bridges added (see [`with_bridges`]); `None` when that is blank, in
    /// which case the client's defaults apply.
    pub fn client_config_text(&self) -> (r: Option<String>)
        ensures
            match r {
                Some(t) => t@ == with_bridges(self.torrc_view(), self.bridges_view()) && trimmed(t@).len() > 0,
                None => trimmed(with_bridges(self.torrc_view(), self.bridges_view())).len() == 0,
            },
    {
        let t = add_bridges(self.torrc.as_str(), &self.bridges);
        let trimmed_text = crate::text::trim_chars(t.as_str());
        if trimmed_text.len() == 0 {
            None
        } else {
            Some(t)
        }
    }
}

/// `s` with every `"` written as `\"`.
pub open spec fn escape_quotes(s: Seq<char>) -> Seq<char>
    decreases s.len(),
{
    if s.len() == 0 {
        Seq::empty()
    } else {
        escape_quotes(s.drop_last()) + if s.last() == '"' { seq!['\\', '"'] } else { seq![s.last()] }
    }
}

/// The list entries of the bridge lines: each quoted (inner quotes escaped),
/// indented by two spaces and followed by a comma and a newline.
pub open spec fn bridge_entries(b: Seq<Seq<char>>) -> Seq<char>
    decreases b.len(),
{
    if b.len() == 0 {
        Seq::empty()
    } else {
        bridge_entries(b.drop_last()) + "  \""@ + escape_quotes(b.last()) + "\",\n"@
    }
}

/// The transport section added when some bridge uses obfs4.
pub open spec fn obfs4_section() -> Seq<char> {
    "\n[[bridges.transports]]\n"@ + "protocols = [\"obfs4\"]\n"@ + "path = \"obfs4proxy\"\n"@
        + "run_on_startup = true\n"@
}

/// The configuration text with the bridges: unchanged without bridges;
/// otherwise a `[bridges]` section that enables them and lists them, and,
/// when some line mentions `obfs4`, the obfs4 transport section.
pub open spec fn with_bridges(torrc: Seq<char>, bridges: Seq<Seq<char>>) -> Seq<char> {
    if bridges.len() == 0 {
        torrc
    } else {
        torrc + "\n[bridges]\n"@ + "enabled = true\n"@ + "bridges = [\n"@ + bridge_entries(bridges) + "]\n"@
            + if exists|i: int| 0 <= i < bridges.len() && has_substring(#[trigger] bridges[i], "obfs4"@) {
            obfs4_section()
        } else {
            Seq::empty()
        }
    }
}

/// `s` ends with `t`.
pub open spec fn ends_with(s: Seq<char>, t: Seq<char>) -> bool {
    s.len() >= t.len() && s.subrange(s.len() - t.len(), s.len() as int) == t
}

/// Bridges get the obfs4 transport section exactly when some bridge line,
/// wherever it stands, mentions `obfs4`: then the configuration ends with
/// that section, and otherwise it does not. So the section does not depend
/// on the order of the lines: two lists with the same lines agree on it.
pub proof fn law_obfs4_transport_when_some_bridge_uses_it(
    torrc: Seq<char>,
    bridges: Seq<Seq<char>>,
    reordered: Seq<Seq<char>>,
)
    requires
        bridges.len() > 0,
    ensures
        forall|i: int| 0 <= i < bridges.len() && has_substring(#[trigger] bridges[i], "obfs4"@) ==> ends_with(
            with_bridges(torrc, bridges),
            "\n[[bridges.transports]]\n"@ + "protocols = [\"obfs4\"]\n"@ + "path = \"obfs4proxy\"\n"@
                + "run_on_startup = true\n"@,
        ),
        (forall|i: int| 0 <= i < bridges.len() ==> !has_substring(#[trigger] bridges[i], "obfs4"@)) ==> !ends_with(
            with_bridges(torrc, bridges),
            "\n[[bridges.transports]]\n"@ + "protocols = [\"obfs4\"]\n"@ + "path = \"obfs4proxy\"\n"@
                + "run_on_startup = true\n"@,
        ),
        (reordered.len() > 0
            && (forall|i: int| 0 <= i < bridges.len() ==> #[trigger] reordered.contains(bridges[i]))
            && (forall|j: int| 0 <= j < reordered.len() ==> #[trigger] bridges.contains(reordered[j]))) ==> (
        ends_with(
            with_bridges(torrc, bridges),
            "\n[[bridges.transports]]\n"@ + "protocols = [\"obfs4\"]\n"@ + "path = \"obfs4proxy\"\n"@
                + "run_on_startup = true\n"@,
        ) == ends_with(
            with_bridges(torrc, reordered),
            "\n[[bridges.transports]]\n"@ + "protocols = [\"obfs4\"]\n"@ + "path = \"obfs4proxy\"\n"@
                + "run_on_startup = true\n"@,
        )),
{
    lemma_obfs4_suffix(torrc, bridges);
    if reordered.len() > 0 {
        lemma_obfs4_suffix(torrc, reordered);
    }
    if reordered.len() > 0
        && (forall|i: int| 0 <= i < bridges.len() ==> #[trigger] reordered.contains(bridges[i]))
        && (forall|j: int| 0 <= j < reordered.len() ==> #[trigger] bridges.contains(reordered[j])) {
        if exists|i: int| 0 <= i < bridges.len() && has_substring(#[trigger] bridges[i], "obfs4"@) {
            let i = choose|i: int| 0 <= i < bridges.len() && has_substring(#[trigger] bridges[i], "obfs4"@);
            assert(reordered.contains(bridges[i]));
            let j = choose|j: int| 0 <= j < reordered.len() && reordered[j] == bridges[i];
            assert(has_substring(reordered[j], "obfs4"@));
        }
        if exists|j: int| 0 <= j < reordered.len() && has_substring(#[trigger] reordered[j], "obfs4"@) {
            let j = choose|j: int| 0 <= j < reordered.len() && has_substring(#[trigger] reordered[j], "obfs4"@);
            assert(bridges.contains(reordered[j]));
            let i = choose|i: int| 0 <= i < bridges.len() && bridges[i] == reordered[j];
            assert(has_substring(bridges[i], "obfs4"@));
        }
    }
}

proof fn lemma_obfs4_suffix(torrc: Seq<char>, bridges: Seq<Seq<char>>)
    requires
        bridges.len() > 0,
    ensures
        ({
            let lit = "\n[[bridges.transports]]\n"@ + "protocols = [\"obfs4\"]\n"@ + "path = \"obfs4proxy\"\n"@
                + "run_on_startup = true\n"@;
            ends_with(with_bridges(torrc, bridges), lit) == exists|i: int| 0 <= i < bridges.len() && has_substring(
                #[trigger] bridges[i],
                "obfs4"@,
            )
        }),
{
    let lit = "\n[[bridges.transports]]\n"@ + "protocols = [\"obfs4\"]\n"@ + "path = \"obfs4proxy\"\n"@
        + "run_on_startup = true\n"@;
    let head = torrc + "\n[bridges]\n"@ + "enabled = true\n"@ + "bridges = [\n"@ + bridge_entries(bridges) + "]\n"@;
    let r = with_bridges(torrc, bridges);
    reveal_strlit("]\n");
    reveal_strlit("run_on_startup = true\n");
    let tail = "run_on_startup = true\n"@;
    assert(tail.len() == 22);
    assert(lit.len() >= 22);
    assert(lit[lit.len() - 2] == tail[20]);
    assert(tail[20] == 'e');
    if exists|i: int| 0 <= i < bridges.len() && has_substring(#[trigger] bridges[i], "obfs4"@) {
        assert(r == head + lit);
        assert(r.subrange(r.len() - lit.len(), r.len() as int) =~= lit);
    } else {
        assert(r == head + Seq::<char>::empty());
        assert(r =~= head);
        assert(head[head.len() - 2] == ']');
        if ends_with(r, lit) {
            assert(r.subrange(r.len() - lit.len(), r.len() as int)[lit.len() - 2] == r[r.len() - 2]);
        }
    }
}

fn push_escaped(s: &mut String, t: &str)
    ensures
        final(s)@ == old(s)@ + escape_quotes(t@),
{
    let v = chars_of(t);
    let mut i: usize = 0;
    while i < v.len()
        invariant
            i <= v.len(),
            v@ == t@,
            s@ == old(s)@ + escape_quotes(t@.take(i as int)),
        decreases v.len() - i,
    {
        assert(t@.take(i + 1).drop_last() =~= t@.take(i as int));
        if v[i] == '"' {
            push_char(s, '\\');
            push_char(s, '"');
        } else {
            push_char(s, v[i]);
        }
        assert(s@ =~= old(s)@ + escape_quotes(t@.take(i + 1)));
        i = i + 1;
    }
    assert(t@.take(v.len() as int) =~= t@);
}

/// Adds the bridges to the configuration text (see [`with_bridges`]).
pub fn add_bridges(torrc: &str, bridges: &Vec<String>) -> (r: String)
    ensures
        r@ == with_bridges(torrc@, views(bridges@)),
{
    let mut out = String::new();
    append_str(&mut out, torrc);
    assert(out@ =~= torrc@);
    if bridges.len() == 0 {
        return out;
    }
    append_str(&mut out, "\n[bridges]\n");
    append_str(&mut out, "enabled = true\n");
    append_str(&mut out, "bridges = [\n");
    let ghost head = out@;
    let ghost bv = views(bridges@);
    let mut any_obfs4 = false;
    let mut i: usize = 0;
    while i < bridges.len()
        invariant
            i <= bridges.len(),
            bv == views(bridges@),
            out@ == head + bridge_entries(bv.take(i as int)),
            any_obfs4 == exists|k: int| 0 <= k < i && has_substring(#[trigger] bv[k], "obfs4"@),
        decreases bridges.len() - i,
    {
        assert(bv.take(i + 1).drop_last() =~= bv.take(i as int));
        assert(bv.take(i + 1).last() == bridges@[i as int]@);
        append_str(&mut out, "  \"");
        push_escaped(&mut out, bridges[i].as_str());
        append_str(&mut out, "\",\n");
        assert(out@ =~= head + bridge_entries(bv.take(i + 1)));
        if str_contains(bridges[i].as_str(), "obfs4") {
            any_obfs4 = true;
        }
        proof {
            assert(bv[i as int] == bridges@[i as int]@);
        }
        i = i + 1;
    }
    assert(bv.take(bridges.len() as int) =~= bv);
    append_str(&mut out, "]\n");
    if any_obfs4 {
        append_str(&mut out, "\n[[bridges.transports]]\n");
        append_str(&mut out, "protocols = [\"obfs4\"]\n");
        append_str(&mut out, "path = \"obfs4proxy\"\n");
        append_str(&mut out, "run_on_startup = true\n");
    }
    assert(out@ =~= with_bridges(torrc@, views(bridges@)));
    out
}

/// Countries used, in order, when a hop has no preference: DE, NL, SE.
pub open spec fn default_route_codes() -> Seq<Seq<char>> {
    seq!["DE"@, "NL"@, "SE"@]
}

/// Countries considered to have fast relays, added to the fallback list in
/// fast-only mode.
pub open spec fn fast_country_codes() -> Seq<Seq<char>> {
    seq!["CA"@, "CH"@, "DE"@, "DK"@, "EE"@, "FI"@, "FR"@, "GB"@, "IS"@, "JP"@, "LT"@, "LU"@, "LV"@, "NL"@, "NO"@, "SE"@, "SG"@, "US"@]
}

fn default_route_list() -> (v: Vec<String>)
    ensures
        views(v@) == default_route_codes(),
{
    let mut v: Vec<String> = Vec::new();
    v.push(String::from_str("DE"));
    v.push(String::from_str("NL"));
    v.push(String::from_str("SE"));
    assert(views(v@) =~= default_route_codes());
    v
}

fn fast_country_list() -> (v: Vec<String>)
    ensures
        views(v@) == fast_country_codes(),
{
    let mut v: Vec<String> = Vec::new();
    v.push(String::from_str("CA"));
    v.push(String::from_str("CH"));
    v.push(String::from_str("DE"));
    v.push(String::from_str("DK"));
    v.push(String::from_str("EE"));
    v.push(String::from_str("FI"));
    v.push(String::from_str("FR"));
    v.push(String::from_str("GB"));
    v.push(String::from_str("IS"));
    v.push(String::from_str("JP"));
    v.push(String::from_str("LT"));
    v.push(String::from_str("LU"));
    v.push(String::from_str("LV"));
    v.push(String::from_str("NL"));
    v.push(String::from_str("NO"));
    v.push(String::from_str("SE"));
    v.push(String::from_str("SG"));
    v.push(String::from_str("US"));
    assert(views(v@) =~= fast_country_codes());
    v
}

/// Whether `fb` holds `c`, ignoring ASCII case.
pub open spec fn has_code(fb: Seq<Seq<char>>, c: Seq<char>) -> bool {
    exists|i: int| 0 <= i < fb.len() && eq_ignore_case(#[trigger] fb[i], c)
}

/// `fb` with `c` added at the end unless it already holds it.
pub open spec fn add_code(fb: Seq<Seq<char>>, c: Seq<char>) -> Seq<Seq<char>> {
    if has_code(fb, c) { fb } else { fb.push(c) }
}

/// `fb` with each of `codes` added in turn (see [`add_code`]).
pub open spec fn add_codes(fb: Seq<Seq<char>>, codes: Seq<Seq<char>>) -> Seq<Seq<char>>
    decreases codes.len(),
{
    if codes.len() == 0 { fb } else { add_code(add_codes(fb, codes.drop_last()), codes.last()) }
}

/// `fb` with each valid code of `extra`, normalised, added in turn; invalid
/// ones are skipped.
pub open spec fn add_preferred(fb: Seq<Seq<char>>, extra: Seq<Seq<char>>) -> Seq<Seq<char>>
    decreases extra.len(),
{
    if extra.len() == 0 {
        fb
    } else {
        let p = add_preferred(fb, extra.drop_last());
        match normalised_code(extra.last()) {
            Some(n) => add_code(p, n),
            None => p,
        }
    }
}

/// The fallback countries of a generated profile: DE, NL, SE; in fast-only
/// mode then the fast countries; then the caller's preferred countries.
pub open spec fn fast_fallback(fast_only: bool, preferred: Option<Seq<Seq<char>>>) -> Seq<Seq<char>> {
    let a = if fast_only { add_codes(default_route_codes(), fast_country_codes()) } else { default_route_codes() };
    match preferred {
        Some(p) => add_preferred(a, p),
        None => a,
    }
}

fn holds_code(fb: &Vec<String>, c: &str) -> (r: bool)
    ensures
        r == has_code(views(fb@), c@),
{
    let mut i: usize = 0;
    while i < fb.len()
        invariant
            i <= fb.len(),
            forall|k: int| 0 <= k < i ==> !eq_ignore_case(#[trigger] views(fb@)[k], c@),
        decreases fb.len() - i,
    {
        if eq_ignore_ascii_case(fb[i].as_str(), c) {
            assert(views(fb@)[i as int] == fb@[i as int]@);
            return true;
        }
        assert(views(fb@)[i as int] == fb@[i as int]@);
        i = i + 1;
    }
    false
}

fn push_code(fb: &mut Vec<String>, c: String)
    ensures
        views(final(fb)@) == add_code(views(old(fb)@), c@),
{
    if !holds_code(fb, c.as_str()) {
        let ghost before = fb@;
        fb.push(c);
        assert(views(fb@) =~= views(before).push(c@));
    }
}

/// Builds the fallback countries of a generated profile (see
/// [`fast_fallback`]).
pub fn fast_fallback_list(fast_only: bool, preferred: &Option<Vec<String>>) -> (r: Vec<String>)
    ensures
        views(r@) == fast_fallback(fast_only, match preferred { Some(p) => Some(views(p@)), None => None }),
{
    let mut fb = default_route_list();
    if fast_only {
        let fast = fast_country_list();
        let ghost start = views(fb@);
        let mut i: usize = 0;
        while i < fast.len()
            invariant
                i <= fast.len(),
                start == default_route_codes(),
                views(fast@) == fast_country_codes(),
                views(fb@) == add_codes(start, views(fast@).take(i as int)),
            decreases fast.len() - i,
        {
            assert(views(fast@).take(i + 1).drop_last() =~= views(fast@).take(i as int));
            assert(views(fast@).take(i + 1).last() == fast@[i as int]@);
            push_code(&mut fb, copy_string(&fast[i]));
            i = i + 1;
        }
        assert(views(fast@).take(fast.len() as int) =~= views(fast@));
    }
    match preferred {
        Some(extra) => {
            let ghost start = views(fb@);
            let mut i: usize = 0;
            while i < extra.len()
                invariant
                    i <= extra.len(),
                    views(fb@) == add_preferred(start, views(extra@).take(i as int)),
                decreases extra.len() - i,
            {
                assert(views(extra@).take(i + 1).drop_last() =~= views(extra@).take(i as int));
                assert(views(extra@).take(i + 1).last() == extra@[i as int]@);
                match normalise_country_code_str(extra[i].as_str()) {
                    Some(n) => push_code(&mut fb, n),
                    None => {},
                }
                i = i + 1;
            }
            assert(views(extra@).take(extra.len() as int) =~= views(extra@));
        },
        None => {},
    }
    fb
}

/// A generated torrc fragment with what it was made from.
pub struct TorrcProfile {
    pub generated_at: String,
    pub config: String,
    pub entry: String,
    pub middle: String,
    pub exit: String,
    pub requested_entry: Option<String>,
    pub requested_middle: Option<String>,
    pub requested_exit: Option<String>,
    pub fast_fallback: Vec<String>,
    pub bridges: Vec<String>,
    pub fast_only: bool,
}

/// The lines of a generated fragment for the route `r` (entry, middle,
/// exit): a comment with the time, the fixed client options, a comment with
/// the route, the node settings for the three hops; in fast-only mode the
/// exclusion of bad exits; and with bridges an empty line, `UseBridges 1`
/// and the bridge lines.
pub open spec fn profile_lines(ts: Seq<char>, r: Seq<Seq<char>>, fast_only: bool, bridges: Seq<Seq<char>>) -> Seq<Seq<char>> {
    let base = seq![
        "# Torwell84 generated torrc fragment - "@ + ts,
        "ClientUseIPv4 1"@,
        "ClientUseIPv6 1"@,
        "UseEntryGuardsAsDirGuards 1"@,
        "StrictNodes 1"@,
        "# Route: "@ + r[0] + " -> "@ + r[1] + " -> "@ + r[2],
        "EntryNodes {"@ + r[0] + "}"@,
        "MiddleNodes {"@ + r[1] + "}"@,
        "ExitNodes {"@ + r[2] + "}"@
    ];
    let f = if fast_only {
        base + seq!["# Enforce high-quality routes"@, "ExcludeNodes {=badexit}"@, "ExcludeExitNodes {=badexit}"@]
    } else {
        base
    };
    if bridges.len() > 0 { f + seq![Seq::<char>::empty(), "UseBridges 1"@] + bridges } else { f }
}

impl TorSettings {
    /// A torrc fragment for the current preferences, stamped with
    /// `timestamp`: the route is chosen from the hop preferences with the
    /// fallback countries (see [`fast_fallback`] and
    /// [`unique_route`](crate::route::unique_route)); the bridges are
    /// included on request.
    pub fn generate_torrc_profile(
        &self,
        fast_only: bool,
        preferred_fast: Option<Vec<String>>,
        include_bridges: bool,
        timestamp: String,
    ) -> (r: Result<TorrcProfile, Error>)
        ensures
            r matches Ok(p) && {
                let fb = fast_fallback(fast_only, match preferred_fast { Some(v) => Some(views(v@)), None => None });
                let route = unique_route(seq![self.country(Hop::Entry), self.country(Hop::Middle), self.country(Hop::Exit)], fb);
                let bridges = if include_bridges { self.bridges_view() } else { Seq::empty() };
                &&& views(p.fast_fallback@) == fb
                &&& p.entry@ == route[0] && p.middle@ == route[1] && p.exit@ == route[2]
                &&& views(p.bridges@) == bridges
                &&& p.config@ == joined(profile_lines(timestamp@, route, fast_only, bridges))
                &&& p.generated_at@ == timestamp@
                &&& opt_view(p.requested_entry) == self.country(Hop::Entry)
                &&& opt_view(p.requested_middle) == self.country(Hop::Middle)
                &&& opt_view(p.requested_exit) == self.country(Hop::Exit)
                &&& p.fast_only == fast_only
            },
    {
        let prefs = self.prefs();
        let mut requested: Vec<Option<String>> = Vec::new();
        requested.push(copy_opt(&prefs.entry));
        requested.push(copy_opt(&prefs.middle));
        requested.push(copy_opt(&prefs.exit));
        let fallback = fast_fallback_list(fast_only, &preferred_fast);
        let route = ensure_unique_route(&requested, &fallback);
        let ghost req = option_views(requested@);
        proof {
            assert(req =~= seq![self.country(Hop::Entry), self.country(Hop::Middle), self.country(Hop::Exit)]);
            crate::route::law_route_length(req, views(fallback@));
            assert(views(route@).len() == 3);
        }
        let bridges = if include_bridges { self.get_bridges() } else { Vec::new() };
        assert(views(bridges@) == (if include_bridges { self.bridges_view() } else { Seq::empty() }));
        let r0 = route[0].as_str();
        let r1 = route[1].as_str();
        let r2 = route[2].as_str();
        assert(r0@ == views(route@)[0] && r1@ == views(route@)[1] && r2@ == views(route@)[2]);
        let mut lines: Vec<String> = Vec::new();
        let mut head = String::from_str("# Torwell84 generated torrc fragment - ");
        append_str(&mut head, timestamp.as_str());
        lines.push(head);
        lines.push(String::from_str("ClientUseIPv4 1"));
        lines.push(String::from_str("ClientUseIPv6 1"));
        lines.push(String::from_str("UseEntryGuardsAsDirGuards 1"));
        lines.push(String::from_str("StrictNodes 1"));
        let mut rl = String::from_str("# Route: ");
        append_str(&mut rl, r0);
        append_str(&mut rl, " -> ");
        append_str(&mut rl, r1);
        append_str(&mut rl, " -> ");
        append_str(&mut rl, r2);
        lines.push(rl);
        let mut en = String::from_str("EntryNodes {");
        append_str(&mut en, r0);
        append_str(&mut en, "}");
        lines.push(en);
        let mut mn = String::from_str("MiddleNodes {");
        append_str(&mut mn, r1);
        append_str(&mut mn, "}");
        lines.push(mn);
        let mut xn = String::from_str("ExitNodes {");
        append_str(&mut xn, r2);
        append_str(&mut xn, "}");
        lines.push(xn);
        if fast_only {
            lines.push(String::from_str("# Enforce high-quality routes"));
            lines.push(String::from_str("ExcludeNodes {=badexit}"));
            lines.push(String::from_str("ExcludeExitNodes {=badexit}"));
        }
        let ghost before_bridges = views(lines@);
        if bridges.len() > 0 {
            lines.push(String::new());
            lines.push(String::from_str("UseBridges 1"));
            let ghost mid = views(lines@);
            let mut i: usize = 0;
            while i < bridges.len()
                invariant
                    i <= bridges.len(),
                    views(lines@) == mid + views(bridges@).take(i as int),
                decreases bridges.len() - i,
            {
                let ghost prev = lines@;
                lines.push(copy_string(&bridges[i]));
                proof {
                    assert(views(lines@) =~= views(prev).push(bridges@[i as int]@));
                    assert(views(bridges@).take(i + 1) =~= views(bridges@).take(i as int).push(bridges@[i as int]@));
                    assert(views(lines@) =~= mid + views(bridges@).take(i + 1));
                }
                i = i + 1;
            }
            assert(views(bridges@).take(bridges.len() as int) =~= views(bridges@));
            assert(views(lines@) =~= before_bridges + seq![Seq::<char>::empty(), "UseBridges 1"@] + views(bridges@));
        }
        assert(views(lines@) =~= profile_lines(timestamp@, views(route@), fast_only, views(bridges@)));
        let config = join_lines(&lines);
        Ok(TorrcProfile {
            generated_at: timestamp,
            config,
            entry: copy_string(&route[0]),
            middle: copy_string(&route[1]),
            exit: copy_string(&route[2]),
            requested_entry: prefs.entry,
            requested_middle: prefs.middle,
            requested_exit: prefs.exit,
            fast_fallback: fallback,
            bridges,
            fast_only,
        })
    }
}

/// The requested and the actual countries of the current circuit.
pub struct CircuitPolicyReport {
    pub requested_entry: Option<String>,
    pub requested_middle: Option<String>,
    pub requested_exit: Option<String>,
    pub effective_entry: Option<String>,
    pub effective_middle: Option<String>,
    pub effective_exit: Option<String>,
    pub matches_policy: bool,
    pub relays: Vec<RelayInfo>,
}

/// The report for a circuit lookup that gave `outcome` (the relays, entry
/// first, and whether they satisfy the preferences): the actual countries
/// are those of the first relay, of the second one when there are more than
/// two, and of the last one. When the client is not connected the report
/// says so (no relays, no match); other errors are passed on.
pub fn policy_report(policy: &CircuitCountryPrefs, outcome: Result<(Vec<RelayInfo>, bool), Error>) -> (r: Result<
    CircuitPolicyReport,
    Error,
>)
    ensures
        match outcome {
            Ok((relays, matched)) => r matches Ok(rep) && {
                &&& opt_view(rep.requested_entry) == opt_view(policy.entry)
                &&& opt_view(rep.requested_middle) == opt_view(policy.middle)
                &&& opt_view(rep.requested_exit) == opt_view(policy.exit)
                &&& opt_view(rep.effective_entry) == (if relays@.len() > 0 { Some(relays@[0].country@) } else { None })
                &&& opt_view(rep.effective_exit) == (if relays@.len() > 0 { Some(relays@.last().country@) } else { None })
                &&& opt_view(rep.effective_middle) == (if relays@.len() > 2 { Some(relays@[1].country@) } else { None })
                &&& rep.matches_policy == matched
                &&& rep.relays@ == relays@
            },
            Err(Error::NotConnected) => r matches Ok(rep) && {
                &&& opt_view(rep.requested_entry) == opt_view(policy.entry)
                &&& opt_view(rep.requested_middle) == opt_view(policy.middle)
                &&& opt_view(rep.requested_exit) == opt_view(policy.exit)
                &&& rep.effective_entry is None && rep.effective_middle is None && rep.effective_exit is None
                &&& !rep.matches_policy
                &&& rep.relays@.len() == 0
            },
            Err(e) => r == Err::<CircuitPolicyReport, Error>(e),
        },
{
    match outcome {
        Ok((relays, matched)) => {
            let n = relays.len();
            let effective_entry = if n > 0 { Some(copy_string(&relays[0].country)) } else { None };
            let effective_exit = if n > 0 { Some(copy_string(&relays[n - 1].country)) } else { None };
            let effective_middle = if n > 2 { Some(copy_string(&relays[1].country)) } else { None };
            Ok(CircuitPolicyReport {
                requested_entry: copy_opt(&policy.entry),
                requested_middle: copy_opt(&policy.middle),
                requested_exit: copy_opt(&policy.exit),
                effective_entry,
                effective_middle,
                effective_exit,
                matches_policy: matched,
                relays,
            })
        },
        Err(Error::NotConnected) => Ok(CircuitPolicyReport {
            requested_entry: copy_opt(&policy.entry),
            requested_middle: copy_opt(&policy.middle),
            requested_exit: copy_opt(&policy.exit),
            effective_entry: None,
            effective_middle: None,
            effective_exit: None,
            matches_policy: false,
            relays: Vec::new(),
        }),
        Err(e) => Err(e),
    }
}

/// The error when no circuit satisfies the country preferences.
pub fn policy_unsatisfied() -> (e: Error)
    ensures
        e matches Error::Circuit { source_message } && source_message@
            == "unable to satisfy circuit country preferences"@,
{
    Error::Circuit { source_message: String::from_str("unable to satisfy circuit country preferences") }
}

/// The active circuit for a lookup outcome: the relays when they satisfy
/// the preferences, else the "unable to satisfy" error; errors pass on.
pub fn active_circuit(outcome: Result<(Vec<RelayInfo>, bool), Error>) -> (r: Result<Vec<RelayInfo>, Error>)
    ensures
        match outcome {
            Ok((relays, true)) => r matches Ok(v) && v@ == relays@,
            Ok((_, false)) => r matches Err(e) && e matches Error::Circuit { source_message } && source_message@
                == "unable to satisfy circuit country preferences"@,
            Err(e) => r == Err::<Vec<RelayInfo>, Error>(e),
        },
{
    match outcome {
        Ok((relays, matched)) => if matched { Ok(relays) } else { Err(policy_unsatisfied()) },
        Err(e) => Err(e),
    }
}

/// The outcome of the rate limit on circuit operations: an operation that
/// the limiter did not permit fails with a rate-limit error naming it.
pub fn check_circuit_quota(op: &str, permitted: bool) -> (r: Result<(), Error>)
    ensures
        permitted ==> r is Ok,
        !permitted ==> (r matches Err(e) && e matches Error::RateLimitExceeded(o) && o@ == op@),
{
    if !permitted {
        return Err(Error::RateLimitExceeded(op.to_owned()));
    }
    Ok(())
}

/// A named set of bridge lines offered to the user.
pub struct BridgePreset {
    pub name: String,
    pub bridges: Vec<String>,
}

proof fn lemma_add_codes_prefix(fb: Seq<Seq<char>>, codes: Seq<Seq<char>>)
    ensures
        add_codes(fb, codes).len() >= fb.len(),
        forall|i: int| 0 <= i < fb.len() ==> #[trigger] add_codes(fb, codes)[i] == fb[i],
    decreases codes.len(),
{
    if codes.len() > 0 {
        lemma_add_codes_prefix(fb, codes.drop_last());
    }
}

proof fn lemma_add_preferred_prefix(fb: Seq<Seq<char>>, extra: Seq<Seq<char>>)
    ensures
        add_preferred(fb, extra).len() >= fb.len(),
        forall|i: int| 0 <= i < fb.len() ==> #[trigger] add_preferred(fb, extra)[i] == fb[i],
    decreases extra.len(),
{
    if extra.len() > 0 {
        lemma_add_preferred_prefix(fb, extra.drop_last());
    }
}

proof fn lemma_fallback_starts_with_defaults(fast_only: bool, preferred: Option<Seq<Seq<char>>>)
    ensures
        fast_fallback(fast_only, preferred).len() >= 3,
        fast_fallback(fast_only, preferred)[0] == "DE"@,
        fast_fallback(fast_only, preferred)[1] == "NL"@,
        fast_fallback(fast_only, preferred)[2] == "SE"@,
{
    let d = default_route_codes();
    let a = if fast_only { add_codes(d, fast_country_codes()) } else { d };
    lemma_add_codes_prefix(d, fast_country_codes());
    assert(a.len() >= 3 && a[0] == d[0] && a[1] == d[1] && a[2] == d[2]);
    match preferred {
        Some(p) => {
            lemma_add_preferred_prefix(a, p);
        },
        None => {},
    }
}

/// A generated profile never routes two hops through the same country:
/// whatever the hop preferences, fast-only mode and preferred countries,
/// the entry, middle and exit countries of the route are pairwise distinct
/// (the fallback list always offers DE, NL and SE).
pub proof fn law_profile_hops_distinct(
    entry: Option<Seq<char>>,
    middle: Option<Seq<char>>,
    exit: Option<Seq<char>>,
    fast_only: bool,
    preferred: Option<Seq<Seq<char>>>,
)
    ensures
        ({
            let r = unique_route(seq![entry, middle, exit], fast_fallback(fast_only, preferred));
            r[0] != r[1] && r[0] != r[2] && r[1] != r[2]
        }),
{
    let fb = fast_fallback(fast_only, preferred);
    lemma_fallback_starts_with_defaults(fast_only, preferred);
    reveal_strlit("DE");
    reveal_strlit("NL");
    reveal_strlit("SE");
    let up = fb.map_values(|c: Seq<char>| crate::text::ascii_upper(c));
    assert(up[0] == fb[0].map_values(|c: char| crate::text::upper_char(c)));
    assert(up[0] =~= "DE"@);
    assert(up[1] =~= "NL"@);
    assert(up[2] =~= "SE"@);
    let three = set!["DE"@, "NL"@, "SE"@];
    assert(fallback_codes(fb).contains(up[0]));
    assert(fallback_codes(fb).contains(up[1]));
    assert(fallback_codes(fb).contains(up[2]));
    assert(three.subset_of(fallback_codes(fb)));
    vstd::seq_lib::seq_to_set_is_finite(up);
    vstd::set_lib::lemma_len_subset(three, fallback_codes(fb));
    assert("DE"@ != "NL"@ && "DE"@ != "SE"@ && "NL"@ != "SE"@) by {
        assert("DE"@[0] != "NL"@[0]);
        assert("DE"@[0] != "SE"@[0]);
        assert("NL"@[0] != "SE"@[0]);
    }
    assert(three.len() == 3);
    let req = seq![entry, middle, exit];
    law_route_distinct(req, fb);
}

} // verus!

//! Application state decisions: the settings read from the configuration
//! file and the environment, the traffic and resource bookkeeping of each
//! metrics round, and the tray menu with its actions.

use vstd::prelude::*;
use crate::commands::{circuit_warning, circuit_warning_text, memory_warning, memory_warning_text};
use crate::text::{copy_string, decimal, parse_u64, parsed_u64, push_char, str_equal, u64_to_decimal, views};
use crate::workers::append_str;

verus! {

/// Log lines kept when the configuration names no limit.
pub const DEFAULT_MAX_LOG_LINES: usize = 1000;
/// Metric lines kept when the configuration names no limit.
pub const DEFAULT_MAX_METRIC_LINES: usize = 10000;
/// Size limit of the metrics file in MiB when the configuration names none.
pub const DEFAULT_MAX_METRIC_MB: usize = 5;
/// Lifetime of a session token in seconds.
pub const DEFAULT_SESSION_TTL: u64 = 3600;
/// Seconds between two metrics rounds.
pub const DEFAULT_METRIC_INTERVAL_SECS: u64 = 30;
/// Connection events kept.
pub const DEFAULT_MAX_CONNECTION_EVENTS: usize = 720;
/// Fewest connection events that may be kept.
pub const MIN_CONNECTION_EVENTS: usize = 10;
/// Memory limit in MiB before a warning.
pub const DEFAULT_MAX_MEMORY_MB: u64 = 1024;
/// Circuit limit before a warning.
pub const DEFAULT_MAX_CIRCUITS: usize = 20;

/// The default log line limit.
pub fn default_max_log_lines() -> (r: usize)
    ensures
        r == DEFAULT_MAX_LOG_LINES,
{
    DEFAULT_MAX_LOG_LINES
}

/// The default metric line limit.
pub fn default_max_metric_lines() -> (r: usize)
    ensures
        r == DEFAULT_MAX_METRIC_LINES,
{
    DEFAULT_MAX_METRIC_LINES
}

/// The default metrics file size limit.
pub fn default_max_metric_mb() -> (r: usize)
    ensures
        r == DEFAULT_MAX_METRIC_MB,
{
    DEFAULT_MAX_METRIC_MB
}

/// Hosts reachable over plain HTTP by default: the local machine.
pub fn default_insecure_hosts() -> (r: Vec<String>)
    ensures
        views(r@) == seq!["127.0.0.1"@, "localhost"@],
{
    let mut v: Vec<String> = Vec::new();
    v.push(String::from_str("127.0.0.1"));
    v.push(String::from_str("localhost"));
    assert(views(v@) =~= seq!["127.0.0.1"@, "localhost"@]);
    v
}

/// The application's configuration file.
pub struct AppConfig {
    pub max_log_lines: usize,
    pub geoip_path: Option<String>,
    pub metrics_file: Option<String>,
    pub max_metric_lines: usize,
    pub max_metric_mb: usize,
    pub insecure_allowed_hosts: Vec<String>,
}

impl AppConfig {
    /// The configuration used when the file is missing or unreadable: the
    /// default limits (1000 log lines, 10000 metric lines, 5 MiB of
    /// metrics), no paths, and the local machine as the hosts reachable over
    /// plain HTTP.
    pub fn empty() -> (r: AppConfig)
        ensures
            r.max_log_lines == DEFAULT_MAX_LOG_LINES,
            r.max_metric_lines == DEFAULT_MAX_METRIC_LINES,
            r.max_metric_mb == DEFAULT_MAX_METRIC_MB,
            r.geoip_path is None && r.metrics_file is None,
            views(r.insecure_allowed_hosts@) == seq!["127.0.0.1"@, "localhost"@],
    {
        AppConfig {
            max_log_lines: default_max_log_lines(),
            geoip_path: None,
            metrics_file: None,
            max_metric_lines: default_max_metric_lines(),
            max_metric_mb: default_max_metric_mb(),
            insecure_allowed_hosts: default_insecure_hosts(),
        }
    }
}

/// Overrides read from the environment, each as found.
pub struct AppEnv {
    pub metric_interval: Option<String>,
    pub max_log_lines: Option<String>,
    pub max_metric_lines: Option<String>,
    pub max_metric_mb: Option<String>,
    pub max_connection_events: Option<String>,
    pub geoip_path: Option<String>,
    pub metrics_file: Option<String>,
    pub max_memory_mb: Option<String>,
    pub max_circuits: Option<String>,
    pub session_ttl: Option<String>,
}

/// The settings the application runs with.
pub struct AppSettings {
    pub max_log_lines: usize,
    pub max_metric_lines: usize,
    pub max_metric_mb: usize,
    pub geoip_path: Option<String>,
    pub metrics_file: Option<String>,
    pub max_connection_events: usize,
    pub metric_interval_secs: u64,
    pub max_memory_mb: u64,
    pub max_circuits: usize,
    pub session_ttl_secs: u64,
    pub insecure_allowed_hosts: Vec<String>,
}

/// View of an optional string.
pub open spec fn opt_view(o: Option<String>) -> Option<Seq<char>> {
    match o {
        Some(s) => Some(s@),
        None => None,
    }
}

/// An environment number as `str::parse::<u64>` reads it.
pub open spec fn env_u64(v: Option<String>) -> Option<u64> {
    match v {
        Some(s) => parsed_u64(s@),
        None => None,
    }
}

/// An environment number as `str::parse::<usize>` reads it.
pub open spec fn env_usize(v: Option<String>) -> Option<usize> {
    match env_u64(v) {
        Some(n) => if n <= usize::MAX { Some(n as usize) } else { None },
        None => None,
    }
}

fn read_u64(v: &Option<String>) -> (r: Option<u64>)
    ensures
        r == env_u64(*v),
{
    match v {
        Some(s) => parse_u64(s.as_str()),
        None => None,
    }
}

fn read_usize(v: &Option<String>) -> (r: Option<usize>)
    ensures
        r == env_usize(*v),
{
    match read_u64(v) {
        Some(n) => if n <= usize::MAX as u64 { Some(n as usize) } else { None },
        None => None,
    }
}

/// Combines the configuration file with the environment: a number from the
/// environment counts only if it parses; the connection event limit is at
/// least ten; the environment's GeoIP path wins over the file's, while the
/// file's metrics file wins over the environment's (without either, the
/// caller picks the data folder).
pub fn resolve_settings(cfg: AppConfig, env: &AppEnv) -> (r: AppSettings)
    ensures
        r.max_log_lines == (match env_usize(env.max_log_lines) { Some(n) => n, None => cfg.max_log_lines }),
        r.max_metric_lines == (match env_usize(env.max_metric_lines) {
            Some(n) => n,
            None => cfg.max_metric_lines,
        }),
        r.max_metric_mb == (match env_usize(env.max_metric_mb) { Some(n) => n, None => cfg.max_metric_mb }),
        r.max_connection_events == (match env_usize(env.max_connection_events) {
            Some(n) => if n > MIN_CONNECTION_EVENTS { n } else { MIN_CONNECTION_EVENTS },
            None => DEFAULT_MAX_CONNECTION_EVENTS,
        }),
        opt_view(r.geoip_path) == (match env.geoip_path {
            Some(p) => Some(p@),
            None => opt_view(cfg.geoip_path),
        }),
        opt_view(r.metrics_file) == (match cfg.metrics_file {
            Some(p) => Some(p@),
            None => opt_view(env.metrics_file),
        }),
        r.metric_interval_secs == (match env_u64(env.metric_interval) {
            Some(n) => n,
            None => DEFAULT_METRIC_INTERVAL_SECS,
        }),
        r.max_memory_mb == (match env_u64(env.max_memory_mb) { Some(n) => n, None => DEFAULT_MAX_MEMORY_MB }),
        r.max_circuits == (match env_usize(env.max_circuits) { Some(n) => n, None => DEFAULT_MAX_CIRCUITS }),
        r.session_ttl_secs == (match env_u64(env.session_ttl) { Some(n) => n, None => DEFAULT_SESSION_TTL }),
        views(r.insecure_allowed_hosts@) == views(cfg.insecure_allowed_hosts@),
{
    let max_log_lines = match read_usize(&env.max_log_lines) {
        Some(n) => n,
        None => cfg.max_log_lines,
    };
    let max_metric_lines = match read_usize(&env.max_metric_lines) {
        Some(n) => n,
        None => cfg.max_metric_lines,
    };
    let max_metric_mb = match read_usize(&env.max_metric_mb) {
        Some(n) => n,
        None => cfg.max_metric_mb,
    };
    let max_connection_events = match read_usize(&env.max_connection_events) {
        Some(n) => if n > MIN_CONNECTION_EVENTS { n } else { MIN_CONNECTION_EVENTS },
        None => DEFAULT_MAX_CONNECTION_EVENTS,
    };
    let geoip_path = match &env.geoip_path {
        Some(p) => Some(copy_string(p)),
        None => cfg.geoip_path,
    };
    let metrics_file = match cfg.metrics_file {
        Some(p) => Some(p),
        None => match &env.metrics_file {
            Some(p) => Some(copy_string(p)),
            None => None,
        },
    };
    let metric_interval_secs = match read_u64(&env.metric_interval) {
        Some(n) => n,
        None => DEFAULT_METRIC_INTERVAL_SECS,
    };
    let max_memory_mb = match read_u64(&env.max_memory_mb) {
        Some(n) => n,
        None => DEFAULT_MAX_MEMORY_MB,
    };
    let max_circuits = match read_usize(&env.max_circuits) {
        Some(n) => n,
        None => DEFAULT_MAX_CIRCUITS,
    };
    let session_ttl_secs = match read_u64(&env.session_ttl) {
        Some(n) => n,
        None => DEFAULT_SESSION_TTL,
    };
    AppSettings {
        max_log_lines,
        max_metric_lines,
        max_metric_mb,
        geoip_path,
        metrics_file,
        max_connection_events,
        metric_interval_secs,
        max_memory_mb,
        max_circuits,
        session_ttl_secs,
        insecure_allowed_hosts: cfg.insecure_allowed_hosts,
    }
}

/// Traffic counted by the metrics rounds.
pub struct TrafficTotals {
    /// Tor traffic (sent and received bytes) seen at the last round.
    pub prev_traffic: u64,
    /// Bytes counted since the start.
    pub network_total: u64,
}

/// What a metrics round decides from the samples it took.
pub struct MetricsUpdate {
    /// Bytes per second to show.
    pub throughput: u64,
    /// Warnings to log, show in the tray and raise (memory first).
    pub warnings: Vec<String>,
    /// Whether the circuits are to be closed.
    pub close_circuits: bool,
}

/// Tor traffic growth since the last round (none if the counter went back).
pub open spec fn traffic_growth(prev: u64, total: u64) -> u64 {
    if total > prev { (total - prev) as u64 } else { 0 }
}

impl TrafficTotals {
    /// Nothing counted yet.
    pub fn new() -> (r: TrafficTotals)
        ensures
            r.prev_traffic == 0 && r.network_total == 0,
    {
        TrafficTotals { prev_traffic: 0, network_total: 0 }
    }

    /// One metrics round. With the Tor traffic total (`tor_total`, if the
    /// client reported it) the growth since the last round is added to the
    /// total, and when no throughput was measured (`network` is 0) it is the
    /// growth per second of the interval. Memory above the limit (in MiB)
    /// and more circuits than allowed each give a warning, and either closes
    /// the circuits.
    pub fn update(
        &mut self,
        memory_bytes: u64,
        circuits: u64,
        network: u64,
        interval_secs: u64,
        tor_total: Option<u64>,
        max_memory_mb: u64,
        max_circuits: u64,
    ) -> (r: MetricsUpdate)
        requires
            tor_total matches Some(t) ==> old(self).network_total + traffic_growth(old(self).prev_traffic, t)
                <= u64::MAX,
        ensures
            match tor_total {
                Some(t) => {
                    let g = traffic_growth(old(self).prev_traffic, t);
                    &&& final(self).prev_traffic == t
                    &&& final(self).network_total == old(self).network_total + g
                    &&& r.throughput == (if network == 0 && interval_secs > 0 { g / interval_secs } else { network })
                },
                None => {
                    &&& final(self).prev_traffic == old(self).prev_traffic
                    &&& final(self).network_total == old(self).network_total
                    &&& r.throughput == network
                },
            },
            views(r.warnings@) == (if memory_bytes / 1024 / 1024 > max_memory_mb {
                seq![memory_warning_text((memory_bytes / 1024 / 1024) as nat, max_memory_mb as nat)]
            } else {
                Seq::empty()
            }) + (if circuits > max_circuits {
                seq![circuit_warning_text(circuits as nat, max_circuits as nat)]
            } else {
                Seq::empty()
            }),
            r.close_circuits == (memory_bytes / 1024 / 1024 > max_memory_mb || circuits > max_circuits),
    {
        let mut net = network;
        match tor_total {
            Some(total) => {
                let diff = if total > self.prev_traffic { total - self.prev_traffic } else { 0 };
                self.prev_traffic = total;
                self.network_total = self.network_total + diff;
                if net == 0 && interval_secs > 0 {
                    net = diff / interval_secs;
                }
            },
            None => {},
        }
        let mut warnings: Vec<String> = Vec::new();
        let mem = memory_warning(memory_bytes, max_memory_mb);
        let circ = circuit_warning(circuits, max_circuits);
        let close = mem.is_some() || circ.is_some();
        match mem {
            Some(w) => warnings.push(w),
            None => {},
        }
        match circ {
            Some(w) => warnings.push(w),
            None => {},
        }
        proof {
            let a = if memory_bytes / 1024 / 1024 > max_memory_mb {
                seq![memory_warning_text((memory_bytes / 1024 / 1024) as nat, max_memory_mb as nat)]
            } else {
                Seq::<Seq<char>>::empty()
            };
            let b = if circuits > max_circuits {
                seq![circuit_warning_text(circuits as nat, max_circuits as nat)]
            } else {
                Seq::<Seq<char>>::empty()
            };
            assert(views(warnings@) =~= a + b);
        }
        MetricsUpdate { throughput: net, warnings, close_circuits: close }
    }
}

/// What a periodic metrics round derives from its samples.
pub struct MetricsTick {
    /// Host network bytes per second over the interval.
    pub network: u64,
    /// The new connection state, when it changed.
    pub connection_change: Option<bool>,
    /// Memory for the stored metric point, in megabytes of 10^6 bytes.
    pub memory_mb: u64,
}

/// One periodic round: the host's network rate since the last round (none
/// if the counter went back), whether the connection state changed, and the
/// memory in megabytes for the stored metric point.
pub fn metrics_tick(prev_net: u64, net_total: u64, interval_secs: u64, last_connected: bool, connected: bool, memory_bytes: u64) -> (r: MetricsTick)
    requires
        interval_secs > 0,
    ensures
        r.network == (if net_total > prev_net { ((net_total - prev_net) / (interval_secs as int)) as u64 } else { 0 }),
        r.connection_change == (if connected != last_connected { Some(connected) } else { None }),
        r.memory_mb == memory_bytes / 1000000,
{
    let network = if net_total > prev_net { (net_total - prev_net) / interval_secs } else { 0 };
    let connection_change = if connected != last_connected { Some(connected) } else { None };
    MetricsTick { network, connection_change, memory_mb: memory_bytes / 1_000_000 }
}

/// An entry of the tray menu.
pub struct MenuItem {
    pub id: String,
    pub label: String,
    pub enabled: bool,
}

/// The warning sign (with its emoji presentation selector) added to labels.
pub open spec fn warning_sign() -> Seq<char> {
    seq!['\u{26A0}', '\u{FE0F}']
}

/// The entries of the tray menu as (id, label, enabled).
pub open spec fn menu_view(items: Seq<MenuItem>) -> Seq<(Seq<char>, Seq<char>, bool)> {
    items.map_values(|m: MenuItem| (m.id@, m.label@, m.enabled))
}

/// The tray menu: the status, memory and circuit lines (not clickable; a
/// warning sign marks values over their limit), Show, Connect or
/// Disconnect, the fixed entries, and the current warning, if any.
pub open spec fn tray_menu_spec(
    connected: bool,
    memory_mb: nat,
    max_memory_mb: nat,
    circuits: nat,
    max_circuits: nat,
    warning: Option<Seq<char>>,
) -> Seq<(Seq<char>, Seq<char>, bool)> {
    let mem = "Memory: "@ + decimal(memory_mb) + " MB"@ + if memory_mb > max_memory_mb {
        seq![' '] + warning_sign()
    } else {
        Seq::empty()
    };
    let circ = "Circuits: "@ + decimal(circuits) + if circuits > max_circuits {
        seq![' '] + warning_sign()
    } else {
        Seq::empty()
    };
    let head = seq![
        ("status"@, "Status: "@ + if connected { "Connected"@ } else { "Disconnected"@ }, false),
        ("memory"@, mem, false),
        ("circuits"@, circ, false),
        ("show"@, "Show"@, true),
        if connected { ("disconnect"@, "Disconnect"@, true) } else { ("connect"@, "Connect"@, true) },
        ("reconnect"@, "Reconnect"@, true),
        ("show_dashboard"@, "Show Dashboard"@, true),
        ("show_logs"@, "Show Logs"@, true),
        ("open_logs_file"@, "Open Log File"@, true),
        ("settings"@, "Settings"@, true),
        ("open_settings_file"@, "Open Settings File"@, true),
        ("quit"@, "Quit"@, true)
    ];
    match warning {
        Some(w) => head.push(("warning"@, warning_sign() + seq![' '] + w, false)),
        None => head,
    }
}

fn item(id: &str, label: String, enabled: bool) -> (r: MenuItem)
    ensures
        r.id@ == id@ && r.label@ == label@ && r.enabled == enabled,
{
    MenuItem { id: id.to_owned(), label, enabled }
}

fn push_warning_sign(s: &mut String)
    ensures
        final(s)@ == old(s)@ + seq![' '] + warning_sign(),
{
    push_char(s, ' ');
    push_char(s, '\u{26A0}');
    push_char(s, '\u{FE0F}');
    assert(final(s)@ =~= old(s)@ + seq![' '] + warning_sign());
}

/// Builds the tray menu (see [`tray_menu_spec`]); memory is given in bytes
/// and shown in MiB.
pub fn tray_menu(
    connected: bool,
    memory_bytes: u64,
    max_memory_mb: u64,
    circuits: u64,
    max_circuits: u64,
    warning: Option<String>,
) -> (r: Vec<MenuItem>)
    ensures
        menu_view(r@) == tray_menu_spec(
            connected,
            (memory_bytes / 1024 / 1024) as nat,
            max_memory_mb as nat,
            circuits as nat,
            max_circuits as nat,
            opt_view(warning),
        ),
{
    let memory_mb = memory_bytes / 1024 / 1024;
    let mut items: Vec<MenuItem> = Vec::new();
    let mut status = String::from_str("Status: ");
    if connected {
        append_str(&mut status, "Connected");
    } else {
        append_str(&mut status, "Disconnected");
    }
    assert(status@ == "Status: "@ + if connected { "Connected"@ } else { "Disconnected"@ });
    items.push(item("status", status, false));
    let mut mem = String::from_str("Memory: ");
    let m = u64_to_decimal(memory_mb);
    append_str(&mut mem, m.as_str());
    append_str(&mut mem, " MB");
    if memory_mb > max_memory_mb {
        push_warning_sign(&mut mem);
    }
    assert(mem@ == "Memory: "@ + decimal(memory_mb as nat) + " MB"@ + if memory_mb > max_memory_mb {
        seq![' '] + warning_sign()
    } else {
        Seq::<char>::empty()
    });
    items.push(item("memory", mem, false));
    let mut circ = String::from_str("Circuits: ");
    let c = u64_to_decimal(circuits);
    append_str(&mut circ, c.as_str());
    if circuits > max_circuits {
        push_warning_sign(&mut circ);
    }
    assert(circ@ == "Circuits: "@ + decimal(circuits as nat) + if circuits > max_circuits {
        seq![' '] + warning_sign()
    } else {
        Seq::<char>::empty()
    });
    items.push(item("circuits", circ, false));
    items.push(item("show", String::from_str("Show"), true));
    if connected {
        items.push(item("disconnect", String::from_str("Disconnect"), true));
    } else {
        items.push(item("connect", String::from_str("Connect"), true));
    }
    items.push(item("reconnect", String::from_str("Reconnect"), true));
    items.push(item("show_dashboard", String::from_str("Show Dashboard"), true));
    items.push(item("show_logs", String::from_str("Show Logs"), true));
    items.push(item("open_logs_file", String::from_str("Open Log File"), true));
    items.push(item("settings", String::from_str("Settings"), true));
    items.push(item("open_settings_file", String::from_str("Open Settings File"), true));
    items.push(item("quit", String::from_str("Quit"), true));
    match &warning {
        Some(w) => {
            let mut label = String::new();
            push_char(&mut label, '\u{26A0}');
            push_char(&mut label, '\u{FE0F}');
            push_char(&mut label, ' ');
            append_str(&mut label, w.as_str());
            assert(label@ =~= warning_sign() + seq![' '] + w@);
            items.push(item("warning", label, false));
        },
        None => {},
    }
    assert(menu_view(items@) =~= tray_menu_spec(
        connected,
        (memory_bytes / 1024 / 1024) as nat,
        max_memory_mb as nat,
        circuits as nat,
        max_circuits as nat,
        opt_view(warning),
    ));
    items
}

/// The tray menu shown at start-up, before any metrics: the status line
/// (not clickable), Show, Connect or Disconnect, Reconnect, Show Logs, Open
/// Log File, Show Dashboard, Settings, Open Settings File and Quit.
pub open spec fn initial_menu_spec(connected: bool) -> Seq<(Seq<char>, Seq<char>, bool)> {
    seq![
        ("status"@, "Status: "@ + if connected { "Connected"@ } else { "Disconnected"@ }, false),
        ("show"@, "Show"@, true),
        if connected { ("disconnect"@, "Disconnect"@, true) } else { ("connect"@, "Connect"@, true) },
        ("reconnect"@, "Reconnect"@, true),
        ("show_logs"@, "Show Logs"@, true),
        ("open_logs_file"@, "Open Log File"@, true),
        ("show_dashboard"@, "Show Dashboard"@, true),
        ("settings"@, "Settings"@, true),
        ("open_settings_file"@, "Open Settings File"@, true),
        ("quit"@, "Quit"@, true)
    ]
}

/// Builds the start-up tray menu (see [`initial_menu_spec`]).
pub fn initial_tray_menu(connected: bool) -> (r: Vec<MenuItem>)
    ensures
        menu_view(r@) == initial_menu_spec(connected),
{
    let mut items: Vec<MenuItem> = Vec::new();
    let mut status = String::from_str("Status: ");
    if connected {
        append_str(&mut status, "Connected");
    } else {
        append_str(&mut status, "Disconnected");
    }
    assert(status@ == "Status: "@ + if connected { "Connected"@ } else { "Disconnected"@ });
    items.push(item("status", status, false));
    items.push(item("show", String::from_str("Show"), true));
    if connected {
        items.push(item("disconnect", String::from_str("Disconnect"), true));
    } else {
        items.push(item("connect", String::from_str("Connect"), true));
    }
    items.push(item("reconnect", String::from_str("Reconnect"), true));
    items.push(item("show_logs", String::from_str("Show Logs"), true));
    items.push(item("open_logs_file", String::from_str("Open Log File"), true));
    items.push(item("show_dashboard", String::from_str("Show Dashboard"), true));
    items.push(item("settings", String::from_str("Settings"), true));
    items.push(item("open_settings_file", String::from_str("Open Settings File"), true));
    items.push(item("quit", String::from_str("Quit"), true));
    assert(menu_view(items@) =~= initial_menu_spec(connected));
    items
}

/// What a click on a tray entry asks for.
#[derive(Clone, Copy, Debug, PartialEq, Eq, Structural)]
pub enum TrayAction {
    Quit,
    Show,
    Connect,
    Disconnect,
    Reconnect,
    ShowLogs,
    ShowDashboard,
    OpenLogsFile,
    Settings,
    OpenSettingsFile,
    ClearWarning,
    Ignore,
}

/// The action of the tray entry with id `id`; unknown ids do nothing.
pub open spec fn tray_action_of(id: Seq<char>) -> TrayAction {
    if id == "quit"@ {
        TrayAction::Quit
    } else if id == "show"@ {
        TrayAction::Show
    } else if id == "connect"@ {
        TrayAction::Connect
    } else if id == "disconnect"@ {
        TrayAction::Disconnect
    } else if id == "reconnect"@ {
        TrayAction::Reconnect
    } else if id == "show_logs"@ {
        TrayAction::ShowLogs
    } else if id == "show_dashboard"@ {
        TrayAction::ShowDashboard
    } else if id == "open_logs_file"@ {
        TrayAction::OpenLogsFile
    } else if id == "settings"@ {
        TrayAction::Settings
    } else if id == "open_settings_file"@ {
        TrayAction::OpenSettingsFile
    } else if id == "warning"@ {
        TrayAction::ClearWarning
    } else {
        TrayAction::Ignore
    }
}

/// The action for a click on the tray entry `id`.
pub fn tray_action(id: &str) -> (r: TrayAction)
    ensures
        r == tray_action_of(id@),
{
    if str_equal(id, "quit") {
        TrayAction::Quit
    } else if str_equal(id, "show") {
        TrayAction::Show
    } else if str_equal(id, "connect") {
        TrayAction::Connect
    } else if str_equal(id, "disconnect") {
        TrayAction::Disconnect
    } else if str_equal(id, "reconnect") {
        TrayAction::Reconnect
    } else if str_equal(id, "show_logs") {
        TrayAction::ShowLogs
    } else if str_equal(id, "show_dashboard") {
        TrayAction::ShowDashboard
    } else if str_equal(id, "open_logs_file") {
        TrayAction::OpenLogsFile
    } else if str_equal(id, "settings") {
        TrayAction::Settings
    } else if str_equal(id, "open_settings_file") {
        TrayAction::OpenSettingsFile
    } else if str_equal(id, "warning") {
        TrayAction::ClearWarning
    } else {
        TrayAction::Ignore
    }
}

/// Whether an automatic reconnect may start: only when none is running; the
/// flag is then set until the attempt ends.
pub fn begin_reconnect(in_progress: &mut bool) -> (start: bool)
    ensures
        start == !*old(in_progress),
        *final(in_progress),
{
    if *in_progress {
        false
    } else {
        *in_progress = true;
        true
    }
}

} // verus!

//! The system-wide proxy setting: which commands point the desktop's proxy
//! at the local SOCKS port and back, per platform.

use vstd::prelude::*;
use crate::text::{decimal, has_substring, str_contains, str_lines, text_lines, trim, trimmed, u64_to_decimal, views};
use crate::workers::append_str;

verus! {

/// A program to run with its arguments.
pub struct SystemCommand {
    pub program: String,
    pub args: Vec<String>,
}

/// The command as plain text: the program, then the arguments.
pub open spec fn command_view(c: SystemCommand) -> Seq<Seq<char>> {
    seq![c.program@] + views(c.args@)
}

fn command(parts: Vec<&str>) -> (r: SystemCommand)
    requires
        parts@.len() > 0,
    ensures
        command_view(r) == parts@.map_values(|p: &str| p@),
{
    let program = parts[0].to_owned();
    let mut args: Vec<String> = Vec::new();
    let mut i: usize = 1;
    while i < parts.len()
        invariant
            1 <= i <= parts.len(),
            args@.len() == i - 1,
            views(args@) == parts@.subrange(1, i as int).map_values(|p: &str| p@),
        decreases parts.len() - i,
    {
        let ghost prev = args@;
        let a = parts[i].to_owned();
        args.push(a);
        proof {
            let target = parts@.subrange(1, i + 1).map_values(|p: &str| p@);
            assert(views(args@).len() == target.len());
            assert forall|k: int| 0 <= k < target.len() implies views(args@)[k] == target[k] by {
                if k < i - 1 {
                    assert(args@[k] == prev[k]);
                    assert(views(prev)[k] == parts@.subrange(1, i as int).map_values(|p: &str| p@)[k]);
                }
            }
            assert(views(args@) =~= target);
        }
        i = i + 1;
    }
    let r = SystemCommand { program, args };
    assert(command_view(r) =~= parts@.map_values(|p: &str| p@));
    r
}

/// The GNOME settings that route traffic through the SOCKS proxy on
/// `127.0.0.1` at `port`: manual proxy mode, the SOCKS host, the SOCKS port.
pub open spec fn linux_enable_plan(port: u16) -> Seq<Seq<Seq<char>>> {
    seq![
        seq!["gsettings"@, "set"@, "org.gnome.system.proxy"@, "mode"@, "manual"@],
        seq!["gsettings"@, "set"@, "org.gnome.system.proxy.socks"@, "host"@, "127.0.0.1"@],
        seq!["gsettings"@, "set"@, "org.gnome.system.proxy.socks"@, "port"@, decimal(port as nat)]
    ]
}

/// The commands that enable the system proxy on Linux (see
/// [`linux_enable_plan`]).
pub fn linux_enable_commands(port: u16) -> (r: Vec<SystemCommand>)
    ensures
        r@.len() == 3,
        forall|i: int| 0 <= i < 3 ==> command_view(#[trigger] r@[i]) == linux_enable_plan(port)[i],
{
    let port_str = u64_to_decimal(port as u64);
    let mut r: Vec<SystemCommand> = Vec::new();
    let c0 = command(vec!["gsettings", "set", "org.gnome.system.proxy", "mode", "manual"]);
    let c1 = command(vec!["gsettings", "set", "org.gnome.system.proxy.socks", "host", "127.0.0.1"]);
    let c2 = command(vec!["gsettings", "set", "org.gnome.system.proxy.socks", "port", port_str.as_str()]);
    proof {
        assert(command_view(c0) =~= linux_enable_plan(port)[0]);
        assert(command_view(c1) =~= linux_enable_plan(port)[1]);
        assert(command_view(c2) =~= linux_enable_plan(port)[2]);
    }
    r.push(c0);
    r.push(c1);
    r.push(c2);
    r
}

/// The command that turns the proxy off on Linux.
pub fn linux_disable_command() -> (r: SystemCommand)
    ensures
        command_view(r) == seq!["gsettings"@, "set"@, "org.gnome.system.proxy"@, "mode"@, "none"@],
{
    let c = command(vec!["gsettings", "set", "org.gnome.system.proxy", "mode", "none"]);
    assert(command_view(c) =~= seq!["gsettings"@, "set"@, "org.gnome.system.proxy"@, "mode"@, "none"@]);
    c
}

/// The registry key of the Windows Internet settings.
pub open spec fn internet_settings_path() -> Seq<char> {
    "HKCU:\\Software\\Microsoft\\Windows\\CurrentVersion\\Internet Settings"@
}

/// The PowerShell script that points the Windows proxy at the SOCKS port
/// and enables it.
pub open spec fn windows_enable_text(port: u16) -> Seq<char> {
    "Set-ItemProperty -Path '"@ + internet_settings_path() + "' -Name ProxyServer -Value 'socks=127.0.0.1:"@
        + decimal(port as nat) + "'; "@ + "Set-ItemProperty -Path '"@ + internet_settings_path()
        + "' -Name ProxyEnable -Value 1"@
}

/// Renders [`windows_enable_text`].
pub fn windows_enable_script(port: u16) -> (r: String)
    ensures
        r@ == windows_enable_text(port),
{
    let path = "HKCU:\\Software\\Microsoft\\Windows\\CurrentVersion\\Internet Settings";
    let mut s = String::new();
    append_str(&mut s, "Set-ItemProperty -Path '");
    append_str(&mut s, path);
    append_str(&mut s, "' -Name ProxyServer -Value 'socks=127.0.0.1:");
    let p = u64_to_decimal(port as u64);
    append_str(&mut s, p.as_str());
    append_str(&mut s, "'; ");
    append_str(&mut s, "Set-ItemProperty -Path '");
    append_str(&mut s, path);
    append_str(&mut s, "' -Name ProxyEnable -Value 1");
    assert(s@ =~= windows_enable_text(port));
    s
}

/// The PowerShell script that disables the Windows proxy.
pub fn windows_disable_script() -> (r: String)
    ensures
        r@ == "Set-ItemProperty -Path '"@ + internet_settings_path() + "' -Name ProxyEnable -Value 0"@,
{
    let mut s = String::new();
    append_str(&mut s, "Set-ItemProperty -Path '");
    append_str(&mut s, "HKCU:\\Software\\Microsoft\\Windows\\CurrentVersion\\Internet Settings");
    append_str(&mut s, "' -Name ProxyEnable -Value 0");
    s
}

/// The network services named in the output of `networksetup
/// -listallnetworkservices`: each line, trimmed, that is not the note about
/// disabled services (it mentions "An asterisk") and not blank.
pub open spec fn service_names(lines: Seq<Seq<char>>) -> Seq<Seq<char>>
    decreases lines.len(),
{
    if lines.len() == 0 {
        Seq::empty()
    } else {
        let prev = service_names(lines.drop_last());
        let l = lines.last();
        if has_substring(l, "An asterisk"@) || trimmed(l).len() == 0 { prev } else { prev.push(trimmed(l)) }
    }
}

/// Reads the network services from the listing (see [`service_names`]).
pub fn macos_services(listing: &str) -> (r: Vec<String>)
    ensures
        views(r@) == service_names(text_lines(listing@)),
{
    let lines = str_lines(listing);
    let ghost lv = views(lines@);
    let mut out: Vec<String> = Vec::new();
    let mut i: usize = 0;
    while i < lines.len()
        invariant
            i <= lines.len(),
            lv == views(lines@),
            views(out@) == service_names(lv.take(i as int)),
        decreases lines.len() - i,
    {
        assert(lv.take(i + 1).drop_last() =~= lv.take(i as int));
        assert(lv.take(i + 1).last() == lines@[i as int]@);
        let line = lines[i].as_str();
        if !str_contains(line, "An asterisk") {
            let t = trim(line);
            if !t.as_str().is_empty() {
                let ghost before = out@;
                out.push(t);
                assert(views(out@) =~= views(before).push(trimmed(lines@[i as int]@)));
            }
        }
        i = i + 1;
    }
    assert(lv.take(lines.len() as int) =~= lv);
    out
}

/// The commands that point each macOS network service's SOCKS proxy at the
/// local port and turn it on.
pub fn macos_enable_commands(services: &Vec<String>, port: u16) -> (r: Vec<SystemCommand>)
    ensures
        r@.len() == 2 * services@.len(),
        forall|i: int| 0 <= i < services@.len() ==> {
            &&& command_view(#[trigger] r@[2 * i]) == seq![
                "networksetup"@,
                "-setsocksfirewallproxy"@,
                services@[i]@,
                "127.0.0.1"@,
                decimal(port as nat)
            ]
            &&& command_view(r@[2 * i + 1]) == seq![
                "networksetup"@,
                "-setsocksfirewallproxystate"@,
                services@[i]@,
                "on"@
            ]
        },
{
    let port_str = u64_to_decimal(port as u64);
    let mut r: Vec<SystemCommand> = Vec::new();
    let mut i: usize = 0;
    while i < services.len()
        invariant
            i <= services.len(),
            port_str@ == decimal(port as nat),
            r@.len() == 2 * i,
            forall|k: int| 0 <= k < i ==> {
                &&& command_view(#[trigger] r@[2 * k]) == seq![
                    "networksetup"@,
                    "-setsocksfirewallproxy"@,
                    services@[k]@,
                    "127.0.0.1"@,
                    decimal(port as nat)
                ]
                &&& command_view(r@[2 * k + 1]) == seq![
                    "networksetup"@,
                    "-setsocksfirewallproxystate"@,
                    services@[k]@,
                    "on"@
                ]
            },
        decreases services.len() - i,
    {
        let name = services[i].as_str();
        let a = command(vec!["networksetup", "-setsocksfirewallproxy", name, "127.0.0.1", port_str.as_str()]);
        let b = command(vec!["networksetup", "-setsocksfirewallproxystate", name, "on"]);
        proof {
            assert(command_view(a) =~= seq![
                "networksetup"@,
                "-setsocksfirewallproxy"@,
                services@[i as int]@,
                "127.0.0.1"@,
                decimal(port as nat)
            ]);
            assert(command_view(b) =~= seq!["networksetup"@, "-setsocksfirewallproxystate"@, services@[i as int]@, "on"@]);
        }
        let ghost prev = r@;
        r.push(a);
        r.push(b);
        proof {
            assert forall|k: int| 0 <= k < i + 1 implies {
                &&& command_view(#[trigger] r@[2 * k]) == seq![
                    "networksetup"@,
                    "-setsocksfirewallproxy"@,
                    services@[k]@,
                    "127.0.0.1"@,
                    decimal(port as nat)
                ]
                &&& command_view(r@[2 * k + 1]) == seq![
                    "networksetup"@,
                    "-setsocksfirewallproxystate"@,
                    services@[k]@,
                    "on"@
                ]
            } by {
                if k < i {
                    assert(r@[2 * k] == prev[2 * k]);
                    assert(r@[2 * k + 1] == prev[2 * k + 1]);
                }
            }
        }
        i = i + 1;
    }
    r
}

/// The commands that turn each macOS network service's SOCKS proxy off.
pub fn macos_disable_commands(services: &Vec<String>) -> (r: Vec<SystemCommand>)
    ensures
        r@.len() == services@.len(),
        forall|i: int| 0 <= i < services@.len() ==> command_view(#[trigger] r@[i]) == seq![
            "networksetup"@,
            "-setsocksfirewallproxystate"@,
            services@[i]@,
            "off"@
        ],
{
    let mut r: Vec<SystemCommand> = Vec::new();
    let mut i: usize = 0;
    while i < services.len()
        invariant
            i <= services.len(),
            r@.len() == i,
            forall|k: int| 0 <= k < i ==> command_view(#[trigger] r@[k]) == seq![
                "networksetup"@,
                "-setsocksfirewallproxystate"@,
                services@[k]@,
                "off"@
            ],
        decreases services.len() - i,
    {
        let c = command(vec!["networksetup", "-setsocksfirewallproxystate", services[i].as_str(), "off"]);
        assert(command_view(c) =~= seq!["networksetup"@, "-setsocksfirewallproxystate"@, services@[i as int]@, "off"@]);
        r.push(c);
        i = i + 1;
    }
    r
}

/// Enabling the system proxy where the platform has none to set (Android,
/// where the VPN service of the mobile front end takes care of it, and
/// other systems): nothing is done and it succeeds.
pub fn enable_global_proxy(port: u16) -> (r: Result<(), String>)
    ensures
        r is Ok,
{
    Ok(())
}

/// Disabling the system proxy where the platform has none to set: nothing
/// is done and it succeeds.
pub fn disable_global_proxy() -> (r: Result<(), String>)
    ensures
        r is Ok,
{
    Ok(())
}

} // verus!

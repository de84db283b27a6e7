use torwell84::system_proxy::{
    disable_global_proxy, enable_global_proxy, linux_disable_command, linux_enable_commands, macos_disable_commands,
    macos_enable_commands, macos_services, windows_disable_script, windows_enable_script,
};

#[test]
fn test_linux_proxy_command_construction() {
    let _ = enable_global_proxy(9050);
    let _ = disable_global_proxy();
}

#[test]
fn linux_commands_point_gnome_at_the_socks_port() {
    let cmds = linux_enable_commands(9050);
    assert_eq!(cmds.len(), 3);
    assert_eq!(cmds[0].program, "gsettings");
    assert_eq!(cmds[0].args, vec!["set", "org.gnome.system.proxy", "mode", "manual"]);
    assert_eq!(cmds[1].args, vec!["set", "org.gnome.system.proxy.socks", "host", "127.0.0.1"]);
    assert_eq!(cmds[2].args, vec!["set", "org.gnome.system.proxy.socks", "port", "9050"]);
    let off = linux_disable_command();
    assert_eq!(off.program, "gsettings");
    assert_eq!(off.args, vec!["set", "org.gnome.system.proxy", "mode", "none"]);
}

#[test]
fn windows_scripts_set_registry_values() {
    let on = windows_enable_script(9150);
    assert_eq!(
        on,
        "Set-ItemProperty -Path 'HKCU:\\Software\\Microsoft\\Windows\\CurrentVersion\\Internet Settings' -Name ProxyServer -Value 'socks=127.0.0.1:9150'; Set-ItemProperty -Path 'HKCU:\\Software\\Microsoft\\Windows\\CurrentVersion\\Internet Settings' -Name ProxyEnable -Value 1"
    );
    assert!(windows_disable_script().ends_with("-Name ProxyEnable -Value 0"));
}

#[test]
fn macos_service_listing_is_parsed() {
    let listing = "An asterisk (*) denotes that a network service is disabled.\nWi-Fi\r\n  Thunderbolt Bridge  \n\n*USB LAN\n";
    let services = macos_services(listing);
    assert_eq!(services, vec!["Wi-Fi", "Thunderbolt Bridge", "*USB LAN"]);
    let on = macos_enable_commands(&services, 9050);
    assert_eq!(on.len(), 6);
    assert_eq!(on[0].args, vec!["-setsocksfirewallproxy", "Wi-Fi", "127.0.0.1", "9050"]);
    assert_eq!(on[1].args, vec!["-setsocksfirewallproxystate", "Wi-Fi", "on"]);
    let off = macos_disable_commands(&services);
    assert_eq!(off.len(), 3);
    assert_eq!(off[2].program, "networksetup");
    assert_eq!(off[2].args, vec!["-setsocksfirewallproxystate", "*USB LAN", "off"]);
}

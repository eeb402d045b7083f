use nova::arch_integration::{
    interface_names_outcome, speed_text, ArchNetworkManager, InterfaceManager,
};
use nova::container_runtime::CommandOutput;
use nova::NovaError;

const WIRED: &str = "[Match]\nName=enp1s0\n\n[Network]\nDHCP=Yes\nDNS=1.1.1.1 8.8.8.8\nGateway=192.168.1.1\n\n[Address]\nAddress=192.168.1.10/24\n";

#[test]
fn networkd_file_is_read() {
    let m = ArchNetworkManager::new();
    let c = m.parse_systemd_config("/etc/systemd/network/20-wired.network", Some(WIRED)).unwrap();
    assert_eq!(c.name, "20-wired");
    assert_eq!(c.network_file, "/etc/systemd/network/20-wired.network");
    assert!(c.dhcp);
    assert_eq!(c.dns, vec!["1.1.1.1", "8.8.8.8"]);
    assert_eq!(c.gateway.as_deref(), Some("192.168.1.1"));
    assert_eq!(c.static_ip.as_deref(), Some("192.168.1.10/24"));
    assert!(c.netdev_file.is_empty());
}

#[test]
fn networkd_settings_outside_their_section_are_ignored() {
    let m = ArchNetworkManager::new();
    let text = "DHCP=yes\n[Address]\nGateway=10.0.0.1\n[Network]\nDHCP=no\nAddress=1.2.3.4\n";
    let c = m.parse_systemd_config("x.network", Some(text)).unwrap();
    assert!(!c.dhcp);
    assert!(c.gateway.is_none());
    assert!(c.static_ip.is_none());
    assert_eq!(m.parse_systemd_config("x.network", None).unwrap_err(), NovaError::InvalidConfig);
}

#[test]
fn discovered_configs_are_kept_by_name() {
    let mut m = ArchNetworkManager::new();
    let files = vec![
        ("/etc/systemd/network/br0.netdev".to_string(), Some("[NetDev]\nName=br0\n".to_string())),
        ("/etc/systemd/network/readme.txt".to_string(), Some("text".to_string())),
        ("/etc/systemd/network/lan.network".to_string(), None),
        ("/run/systemd/network/br0.network".to_string(), Some("[Network]\nDHCP=true\n".to_string())),
    ];
    assert_eq!(m.discover_systemd_configs(&files), Ok(()));
    let configs = m.get_systemd_configs();
    assert_eq!(configs.len(), 1);
    assert_eq!(configs[0].0, "br0");
    assert_eq!(configs[0].1.network_file, "/run/systemd/network/br0.network");
    assert!(configs[0].1.dhcp);
    assert_eq!(m.find_systemd_config_for_interface("br0").as_deref(), Some("/run/systemd/network/br0.network"));
    assert!(m.find_systemd_config_for_interface("eth9").is_none());
}

#[test]
fn network_manager_profiles() {
    let mut m = ArchNetworkManager::new();
    let out = CommandOutput {
        success: true,
        stdout: "Wired connection 1:uuid-1:802-3-ethernet:enp1s0:yes\nbr0:uuid-2:bridge::no\nbad line\n".to_string(),
        stderr: String::new(),
    };
    assert_eq!(m.discover_nm_profiles(Ok(out)), Ok(()));
    let p = m.get_nm_profiles();
    assert_eq!(p.len(), 2);
    assert_eq!(p[0].name, "Wired connection 1");
    assert_eq!(p[0].interface.as_deref(), Some("enp1s0"));
    assert!(p[0].autoconnect);
    assert!(p[1].interface.is_none());
    assert!(!p[1].autoconnect);
    assert_eq!(m.discover_nm_profiles(Err("no nmcli".to_string())), Err(NovaError::SystemCommandFailed));
}

#[test]
fn interfaces_and_their_managers() {
    let mut m = ArchNetworkManager::new();
    m.detect_network_manager(false, true);
    assert!(m.is_using_network_manager() && !m.is_using_systemd_networkd());
    assert!(!m.add_discovered_interface("lo", None, None, None, None));
    assert!(!m.add_discovered_interface("veth12", None, None, None, None));
    assert!(m.add_discovered_interface("enp1s0", Some("e1000e".to_string()), Some("1000\n"), Some("lo\nenp1s0\n"), None));
    assert!(m.add_discovered_interface("wlan0", None, Some("-1\n"), Some("lo\n"), Some("inet 10.0.0.2/24")));
    assert!(m.add_discovered_interface("eth1", None, None, None, Some("")));
    let found = &m.get_config().detected_interfaces;
    assert_eq!(found.len(), 3);
    assert_eq!(found[0].managed_by, InterfaceManager::NetworkManager);
    assert_eq!(found[0].speed.as_deref(), Some("1000Mbps"));
    assert_eq!(found[1].managed_by, InterfaceManager::Manual);
    assert!(found[1].speed.is_none());
    assert_eq!(found[2].managed_by, InterfaceManager::Unknown);
    assert_eq!(speed_text(" 100 "), Some("100Mbps".to_string()));
}

#[test]
fn bridge_files_and_commands() {
    let m = ArchNetworkManager::new();
    let files = m.systemd_bridge_files("br0", &vec!["eth0".to_string()]);
    assert_eq!(files.len(), 3);
    assert_eq!(files[0].0, "/etc/systemd/network/25-br0.netdev");
    assert_eq!(files[0].1, "[NetDev]\nName=br0\nKind=bridge\n\n[Bridge]\nSTP=yes\n");
    assert_eq!(files[1].1, "[Match]\nName=br0\n\n[Network]\nDHCP=yes\nIPForward=yes\n");
    assert_eq!(files[2].0, "/etc/systemd/network/25-eth0-bind.network");
    assert_eq!(files[2].1, "[Match]\nName=eth0\n\n[Network]\nBridge=br0\n");
    let cmds = m.nm_bridge_commands("br0", &vec!["eth0".to_string()]);
    assert_eq!(cmds.len(), 3);
    assert_eq!(cmds[1], vec!["connection", "add", "type", "bridge-slave", "con-name", "br0-slave-eth0", "ifname", "eth0", "master", "br0"]);
    assert_eq!(cmds[2], vec!["connection", "up", "br0"]);
    assert_eq!(m.kvm_modules_conf(), "kvm\nkvm_intel\nkvm_amd\nvhost_net\nbridge\nbr_netfilter");
}

fn listing(stdout: &str, success: bool) -> Result<CommandOutput, String> {
    Ok(CommandOutput { success, stdout: stdout.to_string(), stderr: String::new() })
}

#[test]
fn interface_names_from_ip_json() {
    let json = r#"[{"ifindex":1,"ifname":"lo"},{"ifindex":2,"ifname":"enp6s0"},{"ifindex":3}]"#;
    assert_eq!(
        interface_names_outcome(listing(json, true)),
        Ok(vec!["lo".to_string(), "enp6s0".to_string()])
    );
    assert_eq!(interface_names_outcome(listing("{\"a\":1}", true)), Ok(vec![]));
    assert_eq!(interface_names_outcome(listing("not json", true)), Err(NovaError::InvalidConfig));
    assert_eq!(interface_names_outcome(listing(json, false)), Err(NovaError::SystemCommandFailed));
    assert_eq!(
        interface_names_outcome(Err("no ip".to_string())),
        Err(NovaError::SystemCommandFailed)
    );
}

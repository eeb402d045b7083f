use nova::container_runtime::CommandOutput;
use nova::libvirt::{
    extract_attribute, ipv4_string, nat_subnet_is_ok, parse_ipv4, Ipv4, LibvirtManager,
};
use nova::NovaError;

const XML: &str = "<network>\n  <name>default</name>\n  <uuid>1b2c-33</uuid>\n  <forward mode=\"nat\"/>\n  <bridge name=\"virbr0\" stp=\"true\" delay=\"0\"/>\n  <ip address=\"192.168.122.1\" netmask=\"255.255.255.0\">\n    <dhcp>\n      <range start=\"192.168.122.2\" end=\"192.168.122.254\"/>\n    </dhcp>\n  </ip>\n</network>\n";

fn ip(a: u8, b: u8, c: u8, d: u8) -> Ipv4 {
    Ipv4 { a, b, c, d }
}

#[test]
fn dotted_addresses() {
    assert_eq!(parse_ipv4("192.168.122.1"), Some(ip(192, 168, 122, 1)));
    assert_eq!(parse_ipv4("0.0.0.0"), Some(ip(0, 0, 0, 0)));
    assert_eq!(parse_ipv4("256.1.1.1"), None);
    assert_eq!(parse_ipv4("01.2.3.4"), None);
    assert_eq!(parse_ipv4("1.2.3"), None);
    assert_eq!(parse_ipv4("1.2.3.4.5"), None);
    assert_eq!(parse_ipv4("+1.2.3.4"), None);
    assert_eq!(ipv4_string(ip(10, 0, 0, 254)), "10.0.0.254");
}

#[test]
fn attributes_between_double_quotes() {
    assert_eq!(extract_attribute("<bridge name=\"virbr0\" stp=\"on\"/>", "name"), Some("virbr0".to_string()));
    assert_eq!(extract_attribute("<bridge name=\"virbr0\" stp=\"on\"/>", "delay"), None);
    assert_eq!(extract_attribute("<bridge name='virbr0'/>", "name"), None);
}

#[test]
fn network_definition_is_read() {
    let m = LibvirtManager::new();
    let n = m.parse_network_xml(XML, "default", true).unwrap();
    assert_eq!(n.uuid.as_deref(), Some("1b2c-33"));
    let f = n.forward.unwrap();
    assert_eq!(f.mode, "nat");
    let b = n.bridge.unwrap();
    assert_eq!((b.name.as_str(), b.stp, b.delay), ("virbr0", Some(true), Some(0)));
    let i = n.ip.unwrap();
    assert_eq!((i.address, i.netmask), (ip(192, 168, 122, 1), ip(255, 255, 255, 0)));
    let d = i.dhcp.unwrap();
    assert_eq!((d.start, d.end), (ip(192, 168, 122, 2), ip(192, 168, 122, 254)));
    assert!(n.active && !n.autostart);
}

#[test]
fn bridge_without_name_gets_default() {
    let m = LibvirtManager::new();
    let n = m.parse_network_xml("<bridge stp=\"maybe\"/>", "lab", false).unwrap();
    let b = n.bridge.unwrap();
    assert_eq!(b.name, "virbr-lab");
    assert_eq!(b.stp, None);
    assert!(n.ip.is_none() && n.forward.is_none() && n.uuid.is_none());
}

#[test]
fn network_info_from_virsh() {
    let m = LibvirtManager::new();
    let ok = CommandOutput { success: true, stdout: XML.to_string(), stderr: String::new() };
    let n = m.get_network_info("default", Ok(ok), Some("Name: default\nActive:         yes\n")).unwrap();
    assert!(n.active);
    let failed = CommandOutput { success: false, stdout: String::new(), stderr: String::new() };
    assert_eq!(
        m.get_network_info("x", Ok(failed), None).unwrap_err(),
        NovaError::NetworkNotFound("x".to_string())
    );
}

#[test]
fn default_nat_network_definition() {
    let m = LibvirtManager::new();
    let n = m.create_default_nat_network("lab", "10.10.0.0");
    let xml = m.generate_network_xml(&n).unwrap();
    assert_eq!(
        xml,
        "<?xml version=\"1.0\" encoding=\"UTF-8\"?>\n<network>\n  <name>lab</name>\n  <forward mode='nat'/>\n  <bridge name='virbr-lab' stp='on' delay='0'/>\n  <ip address='10.10.0.1' netmask='255.255.255.0'>\n    <dhcp>\n      <range start='10.10.0.2' end='10.10.0.254'/>\n    </dhcp>\n  </ip>\n</network>\n"
    );
    assert_eq!(m.network_xml_path(&n), "/tmp/nova-network-lab.xml");
}

#[test]
fn discovery_and_deletion() {
    let mut m = LibvirtManager::new();
    let listing = CommandOutput { success: true, stdout: "default\n  lab  \n\n".to_string(), stderr: String::new() };
    assert_eq!(m.discover_networks(true, Ok(listing)), Ok(vec!["default".to_string(), "lab".to_string()]));
    assert!(m.discover_networks(false, Err("x".to_string())).unwrap().is_empty());
    m.add_discovered_network(m.create_default_nat_network("lab", "10.0.0.0"));
    m.add_discovered_network(m.create_default_nat_network("web", "10.0.1.0"));
    assert_eq!(m.get_network("web").unwrap().name, "web");
    let failed = CommandOutput { success: false, stdout: String::new(), stderr: String::new() };
    assert_eq!(m.delete_network("lab", Ok(failed)), Err(NovaError::SystemCommandFailed));
    assert_eq!(m.list_networks().len(), 2);
    let ok = CommandOutput { success: true, stdout: String::new(), stderr: String::new() };
    assert_eq!(m.delete_network("lab", Ok(ok)), Ok(()));
    assert_eq!(m.list_networks().len(), 1);
    assert!(m.get_network("lab").is_none());
    assert_eq!(m.set_network_autostart_args("web", false), vec!["net-autostart", "--disable", "web"]);
}

#[test]
fn nat_subnet_check() {
    assert!(nat_subnet_is_ok("192.168.100.0"));
    assert!(!nat_subnet_is_ok("192.168.0"));
    assert!(!nat_subnet_is_ok("nodots"));
    assert!(!nat_subnet_is_ok("300.1.1.0"));
}

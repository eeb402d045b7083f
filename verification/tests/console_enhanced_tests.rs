use nova::console::{ConnectionInfo, ConsoleSession, ConsoleType};
use nova::console_enhanced::{
    analyze_vm_capabilities, select_optimal_protocol, spice_session_details, viewer_commands,
    vnc_session_details, ActiveProtocol, ConnectionDetails, PreferredProtocol, VmAnalysis,
};

const DOMINFO: &str = "Id:             3\nName:           win\nCPU(s):         4\nMax memory:     4194304 KiB\nUsed memory:    4194304 KiB\n";
const DUMPXML: &str = "<domain><devices><hostdev mode='subsystem' type='pci'/><graphics type='spice' port='5900'/><shmem name='looking-glass'/></devices></domain>";

fn session(host: &str, port: u16) -> ConsoleSession {
    ConsoleSession {
        vm_name: "vm".to_string(),
        session_id: "s".to_string(),
        console_type: ConsoleType::SPICE,
        connection_info: ConnectionInfo {
            host: host.to_string(),
            port,
            protocol: "spice".to_string(),
            auth_required: false,
            password: None,
            certificate_path: None,
            websocket_url: None,
        },
        created_at: 0,
        last_accessed: 0,
        active: true,
    }
}

#[test]
fn vm_capabilities_from_virsh() {
    let a = analyze_vm_capabilities(Some(DOMINFO), Some(DUMPXML), true);
    assert_eq!(a.cpu_cores, 4);
    assert_eq!(a.memory_mb, 4194304);
    assert!(a.has_gpu && a.has_looking_glass && a.has_spice && !a.has_vnc);
    assert!(a.supports_guest_agent && a.supports_multi_monitor);
}

#[test]
fn vm_capabilities_defaults_and_unreadable_numbers() {
    let a = analyze_vm_capabilities(None, None, false);
    let mut expected = VmAnalysis::default();
    expected.supports_multi_monitor = true;
    assert_eq!(a, expected);
    assert!(a.has_spice && a.has_vnc);
    let b = analyze_vm_capabilities(Some("CPU(s): many\nMax memory: lots here\n"), None, false);
    assert_eq!((b.cpu_cores, b.memory_mb), (1, 1024));
    let c = analyze_vm_capabilities(Some("CPU(s):\n"), Some(""), false);
    assert_eq!(c.cpu_cores, 2);
    assert!(!c.has_spice && !c.supports_multi_monitor);
}

#[test]
fn protocol_choice() {
    let a = analyze_vm_capabilities(Some(DOMINFO), Some(DUMPXML), true);
    assert_eq!(select_optimal_protocol(PreferredProtocol::Auto, &a, true), PreferredProtocol::LookingGlass);
    assert_eq!(select_optimal_protocol(PreferredProtocol::Auto, &a, false), PreferredProtocol::SPICE);
    let mut no_agent = a;
    no_agent.supports_guest_agent = false;
    assert_eq!(select_optimal_protocol(PreferredProtocol::Auto, &no_agent, false), PreferredProtocol::VNC);
    assert_eq!(select_optimal_protocol(PreferredProtocol::VNC, &a, true), PreferredProtocol::VNC);
}

#[test]
fn session_details_per_protocol() {
    let a = analyze_vm_capabilities(None, None, false);
    let (d, f) = spice_session_details(&session("localhost", 5000), &a);
    assert_eq!(d.viewer_command, "remote-viewer spice://localhost:5000");
    assert!(f.usb_redirect && f.audio_enabled && !f.hardware_acceleration);
    let (v, g) = vnc_session_details(&session("10.0.0.2", 5901));
    assert_eq!(v.viewer_command, "vncviewer 10.0.0.2:5901");
    assert!(!g.clipboard_sync);
}

#[test]
fn viewer_programs_in_order() {
    let d = ConnectionDetails {
        host: "localhost".to_string(),
        port: 5900,
        protocol: "vnc".to_string(),
        viewer_command: String::new(),
        shmem_path: None,
    };
    assert_eq!(
        viewer_commands(ActiveProtocol::VNC, &d, "vm"),
        vec![
            ("remote-viewer".to_string(), vec!["vnc://localhost:5900".to_string()]),
            ("vncviewer".to_string(), vec!["localhost:5900".to_string()])
        ]
    );
    assert_eq!(
        viewer_commands(ActiveProtocol::Serial, &d, "vm"),
        vec![("virsh".to_string(), vec!["console".to_string(), "vm".to_string()])]
    );
    assert!(viewer_commands(ActiveProtocol::LookingGlass, &d, "vm").is_empty());
}

use nova::console::{guest_agent_args_exec, ConsoleConfig, ConsoleManager, ConsoleType};
use nova::NovaError;

fn is_password(p: &str) -> bool {
    p.len() == 12 && p.chars().all(|c| c.is_ascii_alphanumeric())
}

fn manager() -> ConsoleManager {
    ConsoleManager::new(ConsoleConfig::default())
}

#[test]
fn ports_come_from_the_configured_ranges() {
    let mut m = manager();
    assert_eq!(m.allocate_port(ConsoleType::VNC), Ok(5900));
    assert_eq!(m.allocate_port(ConsoleType::VNC), Ok(5901));
    assert_eq!(m.allocate_port(ConsoleType::SPICE), Ok(5000));
    assert_eq!(m.allocate_port(ConsoleType::RDP), Ok(3389));
    assert_eq!(m.allocate_port(ConsoleType::RDP), Err(NovaError::SystemCommandFailed));
    assert_eq!(m.allocate_port(ConsoleType::SerialConsole), Err(NovaError::SystemCommandFailed));
    m.release_port(ConsoleType::RDP, 3389);
    assert_eq!(m.allocate_port(ConsoleType::RDP), Ok(3389));
}

#[test]
fn released_port_goes_to_the_back() {
    let mut cfg = ConsoleConfig::default();
    cfg.vnc_port_range = (7000, 7001);
    let mut m = ConsoleManager::new(cfg);
    assert_eq!(m.allocate_port(ConsoleType::VNC), Ok(7000));
    m.release_port(ConsoleType::VNC, 7000);
    assert_eq!(m.allocate_port(ConsoleType::VNC), Ok(7001));
    assert_eq!(m.allocate_port(ConsoleType::VNC), Ok(7000));
    assert_eq!(m.allocate_port(ConsoleType::VNC), Err(NovaError::SystemCommandFailed));
}

#[test]
fn empty_range_gives_no_port() {
    let mut cfg = ConsoleConfig::default();
    cfg.spice_port_range = (10, 5);
    let mut m = ConsoleManager::new(cfg);
    assert_eq!(m.allocate_port(ConsoleType::SPICE), Err(NovaError::SystemCommandFailed));
}

#[test]
fn passwords_are_twelve_letters_or_digits() {
    let m = manager();
    let a = m.generate_password();
    assert!(is_password(&a));
}

#[test]
fn enhanced_vnc_server_command() {
    let mut m = manager();
    let (port, program, args) = m.vnc_server_command("vm1", true).unwrap();
    assert_eq!(port, 5900);
    assert_eq!(program, "x11vnc");
    assert_eq!(&args[..5], &["-create", "-shared", "-forever", "-rfbport", "5900"]);
    assert_eq!(args[5], "-passwd");
    assert!(is_password(&args[6]));
    assert_eq!(
        &args[7..],
        &["-noxdamage", "-noxfixes", "-noxrandr", "-wireframe", "-scrollcopyrect", "-ncache", "10"]
    );
    let (port2, program2, args2) = m.vnc_server_command("vm2", false).unwrap();
    assert_eq!((port2, program2.as_str(), args2.len()), (5901, "qemu-system-x86_64", 0));
}

#[test]
fn vnc_console_session() {
    let mut m = manager();
    assert_eq!(m.create_vnc_console("vm1", 5900, Err(NovaError::SystemCommandFailed)).unwrap_err(), NovaError::SystemCommandFailed);
    let s = m.create_vnc_console("vm1", 5900, Ok(())).unwrap();
    assert_eq!(s.session_id, "vnc-vm1-5900");
    assert_eq!(s.connection_info.host, "localhost");
    assert_eq!(s.connection_info.protocol, "vnc");
    assert!(is_password(s.connection_info.password.as_deref().unwrap()));
    assert_eq!(s.connection_info.websocket_url.as_deref(), Some("ws://localhost:6080/vnc/vnc-vm1-5900"));
    assert!(s.active);
    assert_eq!(m.get_console_session("vnc-vm1-5900").unwrap().vm_name, "vm1");
    assert!(m.get_console_session("nope").is_none());
}

#[test]
fn spice_console_or_fallback() {
    let mut m = manager();
    assert!(m.create_spice_console("vm", false).unwrap().is_none());
    let s = m.create_spice_console("vm", true).unwrap().unwrap();
    assert_eq!(s.session_id, "spice-vm-5000");
    assert_eq!(s.connection_info.port, 5000);
    assert_eq!(
        m.display_resolution_call("spice-vm-5000", 1920, 1080),
        Some(vec![
            "qemu-agent-command".to_string(),
            "vm".to_string(),
            "{\"execute\":\"display-set-resolution width=1920 height=1080\"}".to_string()
        ])
    );
    assert_eq!(
        m.multi_monitor_call("spice-vm-5000", 2),
        Some(guest_agent_args_exec("vm", "display-set-monitors count=2"))
    );
}

#[test]
fn rdp_serial_and_web_consoles() {
    let mut m = manager();
    let rdp = m.create_rdp_console("win", "10.0.0.5").unwrap();
    assert_eq!(rdp.session_id, format!("rdp-win-{}", rdp.created_at));
    assert_eq!((rdp.connection_info.host.as_str(), rdp.connection_info.port), ("10.0.0.5", 3389));
    assert!(rdp.connection_info.auth_required);
    assert!(m.display_resolution_call(&rdp.session_id, 800, 600).is_none());
    let serial = m.create_serial_console("box").unwrap();
    assert_eq!(serial.connection_info.port, 0);
    assert_eq!(serial.connection_info.protocol, "serial");
    let vnc = m.create_vnc_console("box", 5900, Ok(())).unwrap();
    assert_eq!(m.novnc_proxy_args(&vnc), vec!["6080:5900", "localhost:5900"]);
    assert_eq!(m.create_web_console("box", &vnc, Err(NovaError::SystemCommandFailed)).unwrap_err(), NovaError::SystemCommandFailed);
    let web = m.create_web_console("box", &vnc, Ok(())).unwrap();
    assert_eq!(web.connection_info.protocol, "https");
    assert_eq!(web.connection_info.password, vnc.connection_info.password);
    assert_eq!(
        web.connection_info.websocket_url,
        Some(format!("ws://localhost:6080/websockify?token={}", web.session_id))
    );
}

#[test]
fn closing_keeps_the_session_inactive_and_frees_its_port() {
    let mut m = manager();
    let port = m.allocate_port(ConsoleType::VNC).unwrap();
    m.create_vnc_console("vm1", port, Ok(())).unwrap();
    assert_eq!(m.list_active_sessions().len(), 1);
    assert_eq!(m.close_session("vnc-vm1-5900"), Ok(()));
    assert!(m.list_active_sessions().is_empty());
    assert!(!m.get_console_session("vnc-vm1-5900").unwrap().active);
    assert_eq!(m.close_session("unknown"), Ok(()));
    assert_eq!(m.allocate_port(ConsoleType::VNC), Ok(5901));
}

#[test]
fn cleanup_closes_inactive_and_stale_sessions() {
    let mut m = manager();
    let a = m.create_serial_console("a").unwrap();
    let now = a.last_accessed;
    let b = m.create_rdp_console("b", "10.0.0.9").unwrap();
    m.close_session(&b.session_id).unwrap();
    assert_eq!(m.cleanup_sessions_at(now), 1);
    assert!(m.get_console_session(&a.session_id).unwrap().active);
    assert_eq!(m.cleanup_sessions_at(now + 86401), 2);
    assert!(!m.get_console_session(&a.session_id).unwrap().active);
}

use nova::dashboard::{
    compute_action_state, detect_os_variant, font_choice_description, font_choice_label,
    format_elapsed, normalize_font_family, reconcile_attach_selection, sanitize_filename,
    should_display, InstanceSummary,
};
use nova::instance::{Instance, InstanceStatus, InstanceType};

fn instance(name: &str, status: InstanceStatus, network: Option<&str>) -> Instance {
    let mut i = Instance::new(name.to_string(), InstanceType::Vm);
    i.update_status(status);
    i.network = network.map(|n| n.to_string());
    i
}

#[test]
fn summary_counts_by_status() {
    let list = vec![
        instance("a", InstanceStatus::Running, None),
        instance("b", InstanceStatus::Running, None),
        instance("c", InstanceStatus::Stopped, None),
        instance("d", InstanceStatus::Starting, None),
        instance("e", InstanceStatus::Stopping, None),
        instance("f", InstanceStatus::Error, None),
        instance("g", InstanceStatus::Suspended, None),
    ];
    let s = InstanceSummary::from_instances(&list);
    assert_eq!(s.total, 7);
    assert_eq!(s.running, 2);
    assert_eq!(s.stopped, 1);
    assert_eq!(s.pending, 2);
    assert_eq!(s.errors, 1);
    assert_eq!(s.suspended, 1);
    let empty = InstanceSummary::from_instances(&[]);
    assert_eq!(empty.total, 0);
}

#[test]
fn actions_follow_status() {
    assert_eq!(compute_action_state(Some(InstanceStatus::Running)), (false, true, true));
    assert_eq!(compute_action_state(Some(InstanceStatus::Stopped)), (true, false, false));
    assert_eq!(compute_action_state(Some(InstanceStatus::Suspended)), (true, true, true));
    assert_eq!(compute_action_state(Some(InstanceStatus::Error)), (true, false, true));
    assert_eq!(compute_action_state(Some(InstanceStatus::Stopping)), (false, false, false));
    assert_eq!(compute_action_state(None), (false, false, false));
}

#[test]
fn filtering_ignores_case_and_checks_network() {
    let web = instance("WebServer", InstanceStatus::Stopped, Some("Bridge0"));
    assert!(should_display(false, &web, ""));
    assert!(should_display(false, &web, "webs"));
    assert!(should_display(false, &web, "BRIDGE"));
    assert!(!should_display(false, &web, "db"));
    assert!(!should_display(true, &web, ""));
    let db = instance("db", InstanceStatus::Running, None);
    assert!(should_display(true, &db, "DB"));
}

#[test]
fn elapsed_texts() {
    assert_eq!(format_elapsed(0), "just now");
    assert_eq!(format_elapsed(1), "just now");
    assert_eq!(format_elapsed(42), "42s ago");
    assert_eq!(format_elapsed(125), "2m 5s ago");
    assert_eq!(format_elapsed(3600 * 3 + 61), "3h 1m ago");
}

#[test]
fn file_names_are_sanitized() {
    assert_eq!(sanitize_filename("web server/logs"), "web-server-logs");
    assert_eq!(sanitize_filename("--a//b--"), "a-b");
    assert_eq!(sanitize_filename("my_app-1"), "my_app-1");
    assert_eq!(sanitize_filename("***"), "container");
    assert_eq!(sanitize_filename(""), "container");
    assert_eq!(sanitize_filename("é"), "container");
}

#[test]
fn font_choices() {
    assert_eq!(font_choice_label("fira-code-nerd"), "Fira Code Nerd (semi-bold)");
    assert_eq!(font_choice_label("system-default"), "System default");
    assert_eq!(font_choice_label("comic"), "System default");
    assert_eq!(
        font_choice_description("unknown"),
        "Use the platform's proportional UI fonts."
    );
}

#[test]
fn os_variants() {
    assert_eq!(detect_os_variant(Some(("windows", "Windows 11 Pro")), ""), "win11");
    assert_eq!(detect_os_variant(Some(("windows", "Windows 10")), ""), "win10");
    assert_eq!(detect_os_variant(Some(("linux", "Ubuntu Desktop")), ""), "ubuntu24.04");
    assert_eq!(detect_os_variant(Some(("linux", "Nobara")), ""), "fedora40");
    assert_eq!(detect_os_variant(Some(("bsd", "FreeBSD")), "win11.iso"), "linux2022");
    assert_eq!(detect_os_variant(None, "/iso/Win11_English.iso"), "win11");
    assert_eq!(detect_os_variant(None, "/iso/debian-12.iso"), "debian12");
    assert_eq!(detect_os_variant(None, "/iso/archlinux.iso"), "archlinux");
    assert_eq!(detect_os_variant(None, "/iso/other.iso"), "linux2022");
}

#[test]
fn font_family_setting_is_normalized() {
    assert_eq!(normalize_font_family("fira-code-nerd"), ("fira-code-nerd".to_string(), false));
    assert_eq!(normalize_font_family("  System-Default "), ("system-default".to_string(), true));
    assert_eq!(normalize_font_family("   "), ("fira-code-nerd".to_string(), true));
    assert_eq!(normalize_font_family("comic-sans"), ("fira-code-nerd".to_string(), true));
}

#[test]
fn attach_selection_is_reconciled() {
    let av = vec!["enp6s0".to_string(), "enp7s0".to_string()];
    assert_eq!(reconcile_attach_selection("enp7s0", &av), "enp7s0");
    assert_eq!(reconcile_attach_selection("", &av), "enp6s0");
    assert_eq!(reconcile_attach_selection("wlan0", &av), "enp6s0");
    assert_eq!(reconcile_attach_selection("wlan0", &vec![]), "");
}

use nova::gpu_doctor::{CheckStatus, DiagnosticCheck, DiagnosticReport, SystemStatus};
use nova::gpu_passthrough::{GpuManager, GpuSystemConfig, PciHostSnapshot};
use nova::gui_gpu::{format_report_output, GpuManagerGui, GpuManagerWindow};

fn manager() -> GpuManager {
    GpuManager::new(false, GpuSystemConfig::from_host(false, false, ""))
}

#[test]
fn test_gpu_manager_gui_creation() {
    let manager = manager();
    let _gui = GpuManagerGui::new(manager);
}

#[test]
fn report_text_lists_checks_and_sections() {
    let report = DiagnosticReport {
        overall_status: SystemStatus::NeedsConfiguration,
        checks: vec![
            DiagnosticCheck {
                name: "IOMMU".to_string(),
                status: CheckStatus::Pass,
                message: "enabled".to_string(),
                fix_command: None,
            },
            DiagnosticCheck {
                name: "VFIO".to_string(),
                status: CheckStatus::Fail,
                message: "missing".to_string(),
                fix_command: Some("modprobe vfio".to_string()),
            },
        ],
        recommendations: vec!["reboot".to_string()],
        warnings: vec![],
        errors: vec!["VFIO missing".to_string()],
    };
    let text = format_report_output(&report);
    assert_eq!(
        text,
        "Overall Status: NeedsConfiguration\n\n✓ IOMMU: enabled\n✗ VFIO: missing\n    fix: modprobe vfio\n\nErrors:\n  VFIO missing\n\nRecommendations:\n  reboot\n"
    );
}

#[test]
fn window_opens_with_refreshed_panel() {
    let snap = PciHostSnapshot {
        lspci_output: None,
        drivers: vec![],
        iommu_links: vec![],
        iommu_groups: None,
        capability_report: None,
        capability_tool_failed: false,
    };
    let window = GpuManagerWindow::new(manager(), &snap);
    assert!(window.is_open());
}

use nova::error::NovaError;
use nova::gpu_doctor::{
    version_meets_exec, CheckStatus, DiagnosticCheck, DiagnosticReport, GpuDoctor, HostProbe,
    SystemStatus,
};
use nova::gpu_passthrough::{
    detect_gpu_generation, xml_address_is_sliceable, GpuGeneration,
    GpuManager, GpuSystemConfig, PciHostSnapshot,
};

const ADDR: &str = "0000:01:00.0";

fn snapshot() -> PciHostSnapshot {
    PciHostSnapshot {
        lspci_output: Some(
            "0000:00:02.0 Host bridge: Intel Corporation [8086:3e30]\n\
             0000:01:00.0 VGA compatible controller: NVIDIA GeForce RTX 3090 [10de:2204]\n"
                .to_string(),
        ),
        drivers: vec![(ADDR.to_string(), "nvidia".to_string())],
        iommu_links: vec![(ADDR.to_string(), "1".to_string())],
        iommu_groups: Some(vec!["1".to_string(), "7".to_string()]),
        capability_report: None,
        capability_tool_failed: false,
    }
}

fn discovered() -> GpuManager {
    let mut m = GpuManager::new(false, GpuSystemConfig::from_host(true, true, "intel_iommu=on"));
    m.discover(&snapshot()).unwrap();
    m
}

#[test]
fn discovery_reads_gpu_lines_and_groups() {
    let m = discovered();
    let gpus = m.list_gpus();
    assert_eq!(gpus.len(), 1);
    assert_eq!(gpus[0].address, ADDR);
    assert_eq!(gpus[0].vendor_id, "10de");
    assert_eq!(gpus[0].device_id, "2204");
    assert_eq!(gpus[0].device_name, "NVIDIA GeForce RTX 3090");
    assert_eq!(gpus[0].vendor_name, "Unknown");
    assert_eq!(gpus[0].iommu_group, Some(1));
    assert_eq!(gpus[0].driver, Some("nvidia".to_string()));
    let groups = m.list_iommu_groups();
    assert_eq!(groups.len(), 1);
    assert_eq!(groups[0].id, 1);
    assert!(groups[0].isolated);
    assert!(groups[0].viable_for_passthrough);
}

#[test]
fn discovery_without_lspci_fails() {
    let mut m = GpuManager::new(false, GpuSystemConfig::from_host(false, false, ""));
    let mut snap = snapshot();
    snap.lspci_output = None;
    assert_eq!(m.discover(&snap), Err(NovaError::SystemCommandFailed));
    assert!(m.list_gpus().is_empty());
}

#[test]
fn system_config_reads_iommu_mode() {
    let c = GpuSystemConfig::from_host(true, false, "quiet amd_iommu=on");
    assert_eq!(c.iommu_mode, Some("amd".to_string()));
    assert!(c.iommu_enabled);
    assert!(!c.vfio_enabled);
    assert_eq!(c.kernel_modules, vec!["vfio".to_string(), "vfio_pci".to_string()]);
    assert_eq!(c.blacklisted_drivers, vec!["nouveau".to_string()]);
}

#[test]
fn unknown_gpu_is_not_found() {
    let m = discovered();
    assert_eq!(
        m.check_passthrough("0000:09:00.0"),
        Err(NovaError::ConfigError("GPU 0000:09:00.0 not found".to_string()))
    );
}

#[test]
fn reserve_refuse_then_release() {
    let mut m = discovered();
    assert_eq!(m.configure_passthrough(ADDR, "win11", Ok(()), Ok(())), Ok(()));
    assert_eq!(m.reserved_for(ADDR), Some("win11".to_string()));
    assert_eq!(
        m.configure_passthrough(ADDR, "other", Ok(()), Ok(())),
        Err(NovaError::ConfigError(
            "GPU 0000:01:00.0 is already reserved by VM 'win11'".to_string()
        ))
    );
    assert_eq!(m.get_reservations().len(), 1);
    let drivers = vec![(ADDR.to_string(), "nvidia".to_string())];
    assert_eq!(m.release_gpu(ADDR, Ok(()), &drivers), Ok(()));
    assert!(m.get_reservations().is_empty());
    assert_eq!(m.reserved_for(ADDR), None);
}

#[test]
fn failed_bind_reserves_nothing() {
    let mut m = discovered();
    assert_eq!(
        m.configure_passthrough(ADDR, "win11", Ok(()), Err(NovaError::IoError("denied".to_string()))),
        Err(NovaError::SystemCommandFailed)
    );
    assert!(m.get_reservations().is_empty());
    let drivers: Vec<(String, String)> = vec![];
    assert_eq!(
        m.release_gpu(ADDR, Err(NovaError::IoError("denied".to_string())), &drivers),
        Err(NovaError::SystemCommandFailed)
    );
    assert_eq!(
        m.force_unbind_device(ADDR, Err(NovaError::IoError("x".to_string()))),
        Err(NovaError::SystemCommandFailed)
    );
}

#[test]
fn release_of_free_gpu_keeps_reservations() {
    let mut m = discovered();
    let drivers: Vec<(String, String)> = vec![];
    assert_eq!(m.release_gpu("0000:02:00.0", Ok(()), &drivers), Ok(()));
    assert!(m.get_reservations().is_empty());
}

#[test]
fn bind_plan_names_sysfs_writes() {
    let m = discovered();
    let plan = m.vfio_bind_plan(ADDR);
    assert_eq!(plan.unbind_path, "/sys/bus/pci/devices/0000:01:00.0/driver/unbind");
    assert_eq!(plan.unbind_value, ADDR);
    assert_eq!(
        plan.new_id,
        Some(("/sys/bus/pci/drivers/vfio-pci/new_id".to_string(), "10de 2204".to_string()))
    );
    assert_eq!(m.vfio_bind_plan("0000:05:00.0").new_id, None);
}

#[test]
fn generation_from_name() {
    assert_eq!(detect_gpu_generation("NVIDIA GeForce RTX 5090"), Some(GpuGeneration::Blackwell));
    assert_eq!(detect_gpu_generation("GeForce RTX 4090"), Some(GpuGeneration::AdaLovelace));
    assert_eq!(detect_gpu_generation("GeForce GTX 1080 Ti"), Some(GpuGeneration::Pascal));
    assert_eq!(detect_gpu_generation("Radeon RX 7900"), None);
    assert_eq!(GpuGeneration::Blackwell.label(), "Blackwell (RTX 50)");
}

#[test]
fn version_comparison() {
    assert!(version_meets_exec("570.86.10", "570.0"));
    assert!(!version_meets_exec("565.57", "570"));
    assert!(version_meets_exec("6.8.0-arch1", "6.8"));
    assert!(!version_meets_exec("", "1"));
    assert!(version_meets_exec("anything", ""));
}

#[test]
fn version_comparison_is_transitive_on_an_example() {
    assert!(version_meets_exec("3.0", "2.5"));
    assert!(version_meets_exec("2.5", "2.1"));
    assert!(version_meets_exec("3.0", "2.1"));
    assert!(version_meets_exec("2.5", "2.5.0"));
}

fn probe_without_iommu() -> HostProbe {
    HostProbe {
        iommu_group_count: None,
        cpuinfo: "flags: fpu vmx sse".to_string(),
        loaded_modules: vec![],
        nvidia_open_version: None,
        nvidia_smi_version: None,
        kernel_version: None,
        cmdline: String::new(),
        gpus_with_resource: vec![],
    }
}

#[test]
fn diagnosis_without_iommu_is_not_supported() {
    let doctor = GpuDoctor::new(discovered());
    let report = doctor.diagnose(&probe_without_iommu());
    assert_eq!(report.checks.len(), 10);
    assert_eq!(report.overall_status, SystemStatus::NotSupported);
    assert_eq!(report.checks[0].name, "IOMMU");
    assert_eq!(report.checks[0].status, CheckStatus::Fail);
    assert_eq!(report.checks[1].status, CheckStatus::Pass);
    assert!(report
        .errors
        .contains(&"\u{274c} IOMMU: IOMMU not enabled or not detected".to_string()));
    let script = doctor.generate_fix_script(&report);
    assert!(script.starts_with("#!/bin/bash\n"));
    assert!(script.contains(
        "# Fix: IOMMU\nAdd 'intel_iommu=on' or 'amd_iommu=on' to kernel parameters\n\n"
    ));
    assert!(script
        .ends_with("echo 'Configuration complete. Please reboot for changes to take effect.'\n"));
}

#[test]
fn error_messages() {
    assert_eq!(NovaError::SystemCommandFailed.message(), "System command failed");
    assert_eq!(NovaError::VmNotFound("a".to_string()).message(), "VM 'a' not found");
    assert_eq!(
        NovaError::ConfigError("x".to_string()).message(),
        "Configuration error: x"
    );
}

#[test]
fn documented_lspci_line_is_read() {
    let mut m = GpuManager::new(false, GpuSystemConfig::from_host(false, false, ""));
    let mut snap = snapshot();
    snap.lspci_output = Some(
        "0000:01:00.0 VGA compatible controller [0300]: NVIDIA Corporation [10de:2684] (rev a1)\n"
            .to_string(),
    );
    snap.iommu_groups = None;
    assert_eq!(m.discover(&snap), Ok(()));
    let gpus = m.list_gpus();
    assert_eq!(gpus.len(), 1);
    assert_eq!(gpus[0].address, "0000:01:00.0");
    assert_eq!(gpus[0].vendor_id, "10de");
    assert_eq!(gpus[0].device_id, "2684");
    assert_eq!(gpus[0].device_name, "NVIDIA Corporation");
    assert_eq!(gpus[0].iommu_group, None);
    assert!(!gpus[0].in_use);
}

#[test]
fn documented_nvbind_report_is_keyed_by_full_address() {
    let mut m = GpuManager::new(true, GpuSystemConfig::from_host(true, true, ""));
    let mut snap = snapshot();
    snap.capability_report = Some(
        "GPU 0: GeForce RTX 5090\n  PCI Address: 0000:01:00.0\n  Memory: 32768 MB\n".to_string(),
    );
    assert_eq!(m.discover(&snap), Ok(()));
    let c = m.capabilities_for(ADDR).unwrap();
    assert_eq!(c.vram_mb, Some(32768));
    assert_eq!(c.generation, Some(GpuGeneration::Blackwell));
    assert_eq!(c.minimum_driver, Some("560.0".to_string()));
    assert_eq!(c.recommended_kernel, Some("6.9".to_string()));
    assert!(c.sriov_capable && c.vgpu_capable && c.tcc_supported);
}

#[test]
fn xml_address_check() {
    assert!(xml_address_is_sliceable("0000:01:00.0"));
    assert!(!xml_address_is_sliceable("00:01:00.0"));
    assert!(xml_address_is_sliceable("01:00.0"));
}

#[test]
fn printed_report_lists_checks_and_numbered_recommendations() {
    let doctor = GpuDoctor::new(discovered());
    let report = DiagnosticReport {
        overall_status: SystemStatus::NotSupported,
        checks: vec![
            DiagnosticCheck {
                name: "IOMMU".to_string(),
                status: CheckStatus::Pass,
                message: "enabled".to_string(),
                fix_command: None,
            },
            DiagnosticCheck {
                name: "VFIO".to_string(),
                status: CheckStatus::Fail,
                message: "missing".to_string(),
                fix_command: Some("modprobe vfio".to_string()),
            },
        ],
        recommendations: vec!["r1".to_string(), "r2".to_string()],
        warnings: vec![],
        errors: vec!["VFIO missing".to_string()],
    };
    let text = doctor.report_text(&report);
    assert!(text.starts_with("\n\u{2554}"));
    assert!(text.contains("Status: \u{274c} NOT READY - Critical issues detected\n\n"));
    assert!(text.contains("\u{2705} IOMMU: enabled\n\u{274c} VFIO: missing\n   \u{2514}\u{2500} Fix: modprobe vfio\n"));
    assert!(text.contains(" Critical Issues "));
    assert!(text.contains("VFIO missing\n"));
    assert!(!text.contains(" Warnings "));
    assert!(text.contains("1. r1\n2. r2\n"));
    assert!(text.ends_with("Report issues: https://github.com/nova-project/nova/issues\n\n"));
}

#[test]
fn discovery_runs_once() {
    let mut m = GpuManager::new(false, GpuSystemConfig::from_host(true, true, ""));
    assert_eq!(m.ensure_discovered(&snapshot()), Ok(()));
    assert_eq!(m.list_gpus().len(), 1);
    let mut empty = snapshot();
    empty.lspci_output = None;
    assert_eq!(m.ensure_discovered(&empty), Ok(()));
    assert_eq!(m.list_gpus().len(), 1);
    assert_eq!(m.list_iommu_groups().len(), 1);
}

#[test]
fn failed_rediscovery_clears_capabilities() {
    let mut m = GpuManager::new(false, GpuSystemConfig::from_host(true, true, ""));
    let mut snap = snapshot();
    snap.capability_report =
        Some("00000000:01:00.0, NVIDIA GeForce RTX 5090, 32607 MiB, 5, 16, 12.0\n".to_string());
    assert_eq!(m.discover(&snap), Ok(()));
    let caps = m.capabilities_for(ADDR).unwrap();
    assert_eq!(caps.vram_mb, Some(32607));
    assert_eq!(caps.generation, Some(GpuGeneration::Blackwell));
    assert!(m.any_blackwell_gpus());
    snap.lspci_output = None;
    assert_eq!(m.discover(&snap), Err(NovaError::SystemCommandFailed));
    assert!(m.capabilities_for(ADDR).is_none());
    assert!(!m.any_blackwell_gpus());
    assert!(m.is_discovered());
}

fn two_gpu_snapshot(group_names: Vec<&str>) -> PciHostSnapshot {
    PciHostSnapshot {
        lspci_output: Some(
            "0000:01:00.0 VGA compatible controller: NVIDIA GeForce RTX 3090 [10de:2204]\n\
             0000:02:00.0 3D controller: NVIDIA GeForce RTX 4090 [10de:2684]\n"
                .to_string(),
        ),
        drivers: vec![],
        iommu_links: vec![
            ("0000:01:00.0".to_string(), "1".to_string()),
            ("0000:02:00.0".to_string(), "2".to_string()),
        ],
        iommu_groups: Some(group_names.into_iter().map(|s| s.to_string()).collect()),
        capability_report: None,
        capability_tool_failed: false,
    }
}

#[test]
fn group_ids_are_distinct_for_distinct_group_numbers() {
    let mut m = GpuManager::new(false, GpuSystemConfig::from_host(true, true, ""));
    m.discover(&two_gpu_snapshot(vec!["2", "1", "5"])).unwrap();
    let ids: Vec<u32> = m.list_iommu_groups().iter().map(|g| g.id).collect();
    assert_eq!(ids, vec![2, 1]);
}

#[test]
fn group_names_denoting_one_number_repeat_the_group() {
    let mut m = GpuManager::new(false, GpuSystemConfig::from_host(true, true, ""));
    m.discover(&two_gpu_snapshot(vec!["1", "01"])).unwrap();
    let ids: Vec<u32> = m.list_iommu_groups().iter().map(|g| g.id).collect();
    assert_eq!(ids, vec![1, 1]);
}

use nova::config::{
    memory_size_fits, parse_memory_to_bytes, ContainerConfig, DiskFormat, NetworkConfig, NetworkType, NovaConfig,
    StoragePoolConfig, StoragePoolType, VmConfig, VmStorageConfig,
};
use nova::NovaError;

#[test]
fn test_parse_memory() {
    assert_eq!(parse_memory_to_bytes("1Gi").unwrap(), 1024 * 1024 * 1024);
    assert_eq!(parse_memory_to_bytes("512Mi").unwrap(), 512 * 1024 * 1024);
    assert_eq!(parse_memory_to_bytes("2G").unwrap(), 2 * 1000 * 1000 * 1000);
    assert_eq!(parse_memory_to_bytes("1024M").unwrap(), 1024 * 1000 * 1000);
    assert_eq!(parse_memory_to_bytes("1073741824").unwrap(), 1073741824);
}

#[test]
fn vm_storage_defaults() {
    let storage = VmStorageConfig::default();
    let path = storage.resolve_disk_path("demo-vm");
    assert_eq!(path, "/var/lib/nova/disks/demo-vm.qcow2".to_string());
    assert_eq!(storage.format.as_str(), "qcow2");
}

#[test]
fn storage_pool_defaults() {
    let pool = StoragePoolConfig::default();
    assert_eq!(pool.pool_type, StoragePoolType::Directory);
    assert_eq!(pool.directory, "/var/lib/nova/disks");
    assert_eq!(pool.default_format, DiskFormat::Qcow2);
    assert!(pool.labels.is_empty());
}

#[test]
fn parse_memory_rejects_text_that_is_no_size() {
    assert_eq!(parse_memory_to_bytes("lots"), Err(NovaError::InvalidConfig));
    assert_eq!(parse_memory_to_bytes(""), Err(NovaError::InvalidConfig));
    assert_eq!(parse_memory_to_bytes("Gi"), Err(NovaError::InvalidConfig));
}

#[test]
fn parse_memory_trims_whitespace() {
    assert_eq!(parse_memory_to_bytes("  4Gi "), Ok(4 * 1024 * 1024 * 1024));
}

#[test]
fn disk_format_names_and_extensions() {
    assert_eq!(DiskFormat::Qcow2.as_str(), "qcow2");
    assert_eq!(DiskFormat::Raw.as_str(), "raw");
    assert_eq!(DiskFormat::Raw.extension(), "img");
    assert_eq!(DiskFormat::Qcow2.extension(), "qcow2");
}

#[test]
fn disk_path_uses_configured_directory_and_file() {
    let mut storage = VmStorageConfig::default();
    storage.directory = Some("/srv/vms".to_string());
    assert_eq!(storage.resolve_disk_path("db"), "/srv/vms/db.qcow2");
    storage.filename = Some("custom.img".to_string());
    assert_eq!(storage.resolve_disk_path("db"), "/srv/vms/custom.img");
}

#[test]
fn raw_disk_default_file_name_uses_format_name() {
    let mut storage = VmStorageConfig::default();
    storage.format = DiskFormat::Raw;
    assert_eq!(storage.resolve_disk_path("vm1"), "/var/lib/nova/disks/vm1.raw");
}

fn lab_config() -> NovaConfig {
    let mut config = NovaConfig::default();
    config.project = Some("test-lab".to_string());
    let mut vm = VmConfig::default();
    vm.image = Some("/var/lib/nova/images/win11.qcow2".to_string());
    vm.cpu = 8;
    vm.memory = "16Gi".to_string();
    vm.gpu_passthrough = true;
    vm.network = Some("bridge0".to_string());
    config.vm.push(("win11".to_string(), vm));
    let mut api = ContainerConfig::default();
    api.capsule = Some("ubuntu:22.04".to_string());
    api.volumes = vec!["./api:/srv/api".to_string()];
    api.network = Some("nova-net".to_string());
    api.env = vec![("API_KEY".to_string(), "secret".to_string())];
    config.container.push(("api".to_string(), api));
    let mut bridge = NetworkConfig::default();
    bridge.interfaces = vec!["enp6s0".to_string()];
    config.network.push(("bridge0".to_string(), bridge));
    let mut overlay = NetworkConfig::default();
    overlay.network_type = NetworkType::Overlay;
    overlay.driver = Some("quic".to_string());
    overlay.dns = true;
    config.network.push(("nova-net".to_string(), overlay));
    config.storage.push(("default".to_string(), StoragePoolConfig::default()));
    config
}

#[test]
fn config_lookups_by_name() {
    let config = lab_config();
    assert_eq!(config.project, Some("test-lab".to_string()));
    let vm = config.get_vm("win11").unwrap();
    assert_eq!(vm.cpu, 8);
    assert_eq!(vm.memory, "16Gi");
    assert!(vm.gpu_passthrough);
    assert!(config.get_vm("missing").is_none());
    let container = config.get_container("api").unwrap();
    assert_eq!(container.capsule, Some("ubuntu:22.04".to_string()));
    assert_eq!(container.volumes, vec!["./api:/srv/api"]);
    assert_eq!(config.get_network("nova-net").unwrap().network_type, NetworkType::Overlay);
    assert_eq!(config.get_storage_pool("default").unwrap().directory, "/var/lib/nova/disks");
}

#[test]
fn config_lists_names_in_order() {
    let config = lab_config();
    assert_eq!(config.list_vms(), vec!["win11".to_string()]);
    assert_eq!(config.list_containers(), vec!["api".to_string()]);
    assert_eq!(config.list_networks(), vec!["bridge0".to_string(), "nova-net".to_string()]);
    assert_eq!(config.list_storage_pools(), vec!["default".to_string()]);
    let empty = NovaConfig::default();
    assert!(empty.list_vms().is_empty());
    assert!(empty.templates.enable_builtin);
}

#[test]
fn memory_size_overflow_check() {
    assert!(memory_size_fits("16Gi"));
    assert!(!memory_size_fits("99999999999Gi"));
    assert!(memory_size_fits("lots"));
    assert!(memory_size_fits("18446744073709551615"));
}

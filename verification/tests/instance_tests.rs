use nova::instance::{Instance, InstanceStatus, InstanceType};

#[test]
fn new_instance_defaults() {
    let i = Instance::new("vm1".to_string(), InstanceType::Vm);
    assert_eq!(i.status, InstanceStatus::Stopped);
    assert_eq!(i.id.len(), 36);
    assert_eq!((i.cpu_cores, i.memory_mb), (2, 1024));
    assert_eq!(i.created_at, i.last_updated);
    assert!(!i.is_running());
    assert_eq!(i.display_name(), "vm1");
    let j = Instance::new("vm1".to_string(), InstanceType::Vm);
    assert_ne!(i.id, j.id);
}

#[test]
fn updates_change_one_field() {
    let mut i = Instance::new("c".to_string(), InstanceType::Container);
    i.update_status(InstanceStatus::Running);
    assert!(i.is_running());
    i.set_pid(Some(7));
    assert_eq!(i.pid, Some(7));
    i.set_ip_address(Some("10.0.0.3".to_string()));
    assert_eq!(i.ip_address.as_deref(), Some("10.0.0.3"));
    assert_eq!(i.name, "c");
}

//! A virtual machine or container as the manager tracks it.
use vstd::prelude::*;
use crate::ids::{new_uuid_text, now_timestamp, uuid_v4_text};

verus! {

#[derive(Debug, Clone, Copy, PartialEq, Eq, Structural)]
pub enum InstanceType {
    Vm,
    Container,
}

#[derive(Debug, Clone, Copy, PartialEq, Eq, Structural)]
pub enum InstanceStatus {
    Stopped,
    Starting,
    Running,
    Stopping,
    Error,
    Suspended,
}

/// An instance; its id is the text of a random UUID, and the times are Unix
/// times in seconds.
#[derive(Debug, Clone)]
pub struct Instance {
    pub id: String,
    pub name: String,
    pub instance_type: InstanceType,
    pub status: InstanceStatus,
    pub pid: Option<u32>,
    pub created_at: i64,
    pub last_updated: i64,
    pub cpu_cores: u32,
    pub memory_mb: u64,
    pub network: Option<String>,
    pub ip_address: Option<String>,
}

impl Instance {
    /// A stopped instance with a fresh id, two cores and 1024 MB, created
    /// and updated now.
    pub fn new(name: String, instance_type: InstanceType) -> (r: Self)
        ensures
            uuid_v4_text(r.id@),
            r.name == name,
            r.instance_type == instance_type,
            r.status == InstanceStatus::Stopped,
            r.pid is None,
            r.created_at == r.last_updated,
            r.cpu_cores == 2,
            r.memory_mb == 1024,
            r.network is None,
            r.ip_address is None,
    {
        let now = now_timestamp();
        Instance {
            id: new_uuid_text(),
            name,
            instance_type,
            status: InstanceStatus::Stopped,
            pid: None,
            created_at: now,
            last_updated: now,
            cpu_cores: 2,
            memory_mb: 1024,
            network: None,
            ip_address: None,
        }
    }

    /// Sets the status; the update time becomes now.
    pub fn update_status(&mut self, status: InstanceStatus)
        ensures
            *final(self) == (Instance { status, last_updated: final(self).last_updated, ..*old(self) }),
    {
        self.status = status;
        self.last_updated = now_timestamp();
    }

    /// Sets the process id; the update time becomes now.
    pub fn set_pid(&mut self, pid: Option<u32>)
        ensures
            *final(self) == (Instance { pid, last_updated: final(self).last_updated, ..*old(self) }),
    {
        self.pid = pid;
        self.last_updated = now_timestamp();
    }

    /// Sets the IP address; the update time becomes now.
    pub fn set_ip_address(&mut self, ip: Option<String>)
        ensures
            *final(self) == (Instance { ip_address: ip, last_updated: final(self).last_updated, ..*old(self) }),
    {
        self.ip_address = ip;
        self.last_updated = now_timestamp();
    }

    pub fn is_running(&self) -> (r: bool)
        ensures
            r == (self.status == InstanceStatus::Running),
    {
        self.status == InstanceStatus::Running
    }

    pub fn display_name(&self) -> (r: &str)
        ensures
            r@ == self.name@,
    {
        self.name.as_str()
    }
}

} // verus!

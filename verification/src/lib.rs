pub mod text;
pub mod error;
pub mod ids;
pub mod pairs;
pub mod config;
pub mod gpu_passthrough;
pub mod gpu_doctor;
pub mod firewall;
pub mod container_runtime;
pub mod bolt_runtime;
pub mod docker_runtime;
pub mod instance;
pub mod container;
pub mod console;
pub mod console_enhanced;
pub mod arch_integration;
pub mod libvirt;
pub mod gui_gpu;
pub mod dashboard;

pub use error::{NovaError, Result};
pub use instance::{Instance, InstanceStatus, InstanceType};
pub use arch_integration::ArchNetworkManager;
pub use libvirt::{LibvirtManager, LibvirtNetwork};

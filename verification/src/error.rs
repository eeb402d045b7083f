//! The crate's error type.
use vstd::prelude::*;
use crate::text::cat;

verus! {

/// Errors reported by the library.
#[derive(Debug, Clone, PartialEq, Eq)]
pub enum NovaError {
    SystemCommandFailed,
    InvalidConfig,
    ConfigError(String),
    VmNotFound(String),
    ContainerNotFound(String),
    LibvirtError(String),
    NetworkError(String),
    NetworkNotFound(String),
    /// An I/O failure, carried by its message.
    IoError(String),
    SerdeError(String),
    SnapshotNotFound(String),
    SnapshotHasChildren,
}

/// Result of the library's fallible operations.
pub type Result<T> = std::result::Result<T, NovaError>;

/// The text that the error displays.
pub open spec fn error_message(e: NovaError) -> Seq<char> {
    match e {
        NovaError::SystemCommandFailed => "System command failed"@,
        NovaError::InvalidConfig => "Invalid configuration"@,
        NovaError::ConfigError(m) => "Configuration error: "@ + m@,
        NovaError::VmNotFound(n) => "VM '"@ + n@ + "' not found"@,
        NovaError::ContainerNotFound(n) => "Container '"@ + n@ + "' not found"@,
        NovaError::LibvirtError(m) => "Libvirt error: "@ + m@,
        NovaError::NetworkError(m) => "Network error: "@ + m@,
        NovaError::NetworkNotFound(n) => "Network '"@ + n@ + "' not found"@,
        NovaError::IoError(m) => "IO error: "@ + m@,
        NovaError::SerdeError(m) => "Configuration parse error: "@ + m@,
        NovaError::SnapshotNotFound(n) => "Snapshot '"@ + n@ + "' not found"@,
        NovaError::SnapshotHasChildren => "Snapshot has children and cannot be deleted without --children flag"@,
    }
}

impl NovaError {
    /// The human-readable text of the error.
    pub fn message(&self) -> (r: String)
        ensures
            r@ == error_message(*self),
    {
        match self {
            NovaError::SystemCommandFailed => "System command failed".to_owned(),
            NovaError::InvalidConfig => "Invalid configuration".to_owned(),
            NovaError::ConfigError(m) => cat("Configuration error: ", m.as_str()),
            NovaError::VmNotFound(n) => cat(cat("VM '", n.as_str()).as_str(), "' not found"),
            NovaError::ContainerNotFound(n) => cat(
                cat("Container '", n.as_str()).as_str(),
                "' not found",
            ),
            NovaError::LibvirtError(m) => cat("Libvirt error: ", m.as_str()),
            NovaError::NetworkError(m) => cat("Network error: ", m.as_str()),
            NovaError::NetworkNotFound(n) => cat(
                cat("Network '", n.as_str()).as_str(),
                "' not found",
            ),
            NovaError::IoError(m) => cat("IO error: ", m.as_str()),
            NovaError::SerdeError(m) => cat("Configuration parse error: ", m.as_str()),
            NovaError::SnapshotNotFound(n) => cat(
                cat("Snapshot '", n.as_str()).as_str(),
                "' not found",
            ),
            NovaError::SnapshotHasChildren => "Snapshot has children and cannot be deleted without --children flag".to_owned(),
        }
    }
}

} // verus!

//! Declarative configuration model: VMs, containers, networks and storage pools.
use vstd::prelude::*;
use crate::error::{NovaError, Result};
use crate::gpu_passthrough::GpuPassthroughConfig;
use crate::pairs::{first_key, keys_distinct, keys_of, lemma_lookup, pmap, value_of};
use crate::text::{
    cat, chars_of, ends_with, has_at_exec, owned, parse_uint, parse_uint_exec, push_char,
    str_ends_with, string_of, trim, trim_str,
};

verus! {

/// Known ISO images and the directories scanned for more.
#[derive(Debug, Clone, Default)]
pub struct IsoConfig {
    /// Directories to scan for ISO files
    pub paths: Vec<String>,
    /// Known ISOs with friendly names, by key
    pub known: Vec<(String, IsoEntry)>,
}

#[derive(Debug, Clone)]
pub struct IsoEntry {
    pub path: String,
    pub name: String,
    pub os_type: String,
    pub version: Option<String>,
}

#[derive(Debug, Clone)]
pub struct TemplatesConfig {
    /// Enable built-in VM templates
    pub enable_builtin: bool,
    /// Custom template definitions, by key
    pub custom: Vec<(String, VmTemplateConfig)>,
}

impl Default for TemplatesConfig {
    fn default() -> (r: Self)
        ensures
            r.enable_builtin,
            r.custom@.len() == 0,
    {
        TemplatesConfig { enable_builtin: default_true(), custom: Vec::new() }
    }
}

fn default_true() -> (r: bool)
    ensures
        r,
{
    true
}

#[derive(Debug, Clone)]
pub struct VmTemplateConfig {
    pub name: String,
    pub description: String,
    pub os_type: String,
    pub cpu: u32,
    pub memory: String,
    pub disk_size: String,
    pub gpu_passthrough: bool,
    pub uefi: bool,
    pub secure_boot: bool,
    pub tpm: bool,
    /// Pattern that matches ISO file names
    pub iso_pattern: Option<String>,
    pub network: Option<String>,
    pub tags: Vec<String>,
}

#[derive(Debug, Clone)]
pub struct VmConfig {
    pub image: Option<String>,
    pub cpu: u32,
    pub memory: String,
    pub gpu_passthrough: bool,
    pub gpu: Option<GpuPassthroughConfig>,
    pub network: Option<String>,
    pub autostart: bool,
    pub storage: VmStorageConfig,
    pub firmware: VmFirmwareConfig,
    pub tpm: VmTpmConfig,
    pub compliance_profile: Option<VmComplianceProfile>,
}

#[derive(Debug, Clone)]
pub struct StoragePoolConfig {
    pub pool_type: StoragePoolType,
    pub directory: String,
    pub description: Option<String>,
    pub capacity: Option<String>,
    pub default_format: DiskFormat,
    pub auto_create: bool,
    pub labels: Vec<String>,
}

#[derive(Debug, Clone, Copy, PartialEq, Eq)]
pub enum StoragePoolType {
    Directory,
    Btrfs,
    Nfs,
}

impl StoragePoolType {
    pub open spec fn spec_name(self) -> Seq<char> {
        match self {
            StoragePoolType::Directory => "directory"@,
            StoragePoolType::Btrfs => "btrfs"@,
            StoragePoolType::Nfs => "nfs"@,
        }
    }

    pub fn as_str(&self) -> (r: &'static str)
        ensures
            r@ == self.spec_name(),
    {
        match self {
            StoragePoolType::Directory => "directory",
            StoragePoolType::Btrfs => "btrfs",
            StoragePoolType::Nfs => "nfs",
        }
    }
}

#[derive(Debug, Clone)]
pub struct VmStorageConfig {
    /// Directory containing the VM disk image. Defaults to `/var/lib/nova/disks`.
    pub directory: Option<String>,
    /// Disk filename; defaults to `<vm_name>.<format>`.
    pub filename: Option<String>,
    pub format: DiskFormat,
    pub size: String,
    pub create_if_missing: bool,
}

#[derive(Debug, Clone, Copy, PartialEq, Eq)]
pub enum VmBootType {
    Legacy,
    Uefi,
}

impl Default for VmBootType {
    fn default() -> (r: Self)
        ensures
            r == VmBootType::Legacy,
    {
        VmBootType::Legacy
    }
}

#[derive(Debug, Clone)]
pub struct VmFirmwareConfig {
    pub boot_type: VmBootType,
    pub secure_boot: bool,
    pub ovmf_code: Option<String>,
    pub ovmf_vars: Option<String>,
}

impl Default for VmFirmwareConfig {
    fn default() -> (r: Self)
        ensures
            r.boot_type == VmBootType::Legacy,
            !r.secure_boot,
            r.ovmf_code is None,
            r.ovmf_vars is None,
    {
        VmFirmwareConfig {
            boot_type: default_vm_boot_type(),
            secure_boot: false,
            ovmf_code: None,
            ovmf_vars: None,
        }
    }
}

#[derive(Debug, Clone, Copy, PartialEq, Eq)]
pub enum VmTpmVersion {
    V1_2,
    V2_0,
}

impl Default for VmTpmVersion {
    fn default() -> (r: Self)
        ensures
            r == VmTpmVersion::V2_0,
    {
        VmTpmVersion::V2_0
    }
}

#[derive(Debug, Clone)]
pub struct VmTpmConfig {
    pub enabled: bool,
    pub version: VmTpmVersion,
}

impl Default for VmTpmConfig {
    fn default() -> (r: Self)
        ensures
            !r.enabled,
            r.version == VmTpmVersion::V2_0,
    {
        VmTpmConfig { enabled: default_tpm_enabled(), version: default_tpm_version() }
    }
}

#[derive(Debug, Clone, Copy, PartialEq, Eq)]
pub enum VmComplianceProfile {
    Windows11,
}

#[derive(Debug, Clone, Copy, PartialEq, Eq)]
pub enum DiskFormat {
    Qcow2,
    Raw,
}

#[derive(Debug, Clone)]
pub struct ContainerConfig {
    pub capsule: Option<String>,
    pub volumes: Vec<String>,
    pub network: Option<String>,
    /// Environment variables, as (name, value) pairs
    pub env: Vec<(String, String)>,
    pub autostart: bool,
    /// "bolt", "docker", "podman", or none to auto-detect
    pub runtime: Option<String>,
    pub bolt: BoltConfig,
}

#[derive(Debug, Clone)]
pub struct BoltConfig {
    /// "strict", "standard", "loose"
    pub isolation: String,
    pub gpu_access: bool,
    pub gpu_devices: Vec<String>,
    pub memory_limit: Option<String>,
    pub cpu_limit: Option<String>,
    /// "default", "strict", "production"
    pub security_profile: String,
    /// "bridge", "quic", "host"
    pub network_mode: String,
    pub read_only: bool,
    pub no_new_privileges: bool,
    pub quic_streams: Option<u32>,
}

#[derive(Debug, Clone)]
pub struct NetworkConfig {
    pub network_type: NetworkType,
    pub interfaces: Vec<String>,
    pub driver: Option<String>,
    pub dns: bool,
    pub subnet: Option<String>,
    pub gateway: Option<String>,
}

#[derive(Debug, Clone, Copy, PartialEq, Eq)]
pub enum NetworkType {
    Bridge,
    Overlay,
    Host,
    /// No networking ("none" in configuration files)
    NoNetwork,
}

impl Default for VmConfig {
    fn default() -> (r: Self)
        ensures
            r.image is None,
            r.cpu == 2,
            r.memory@ == "1Gi"@,
            !r.gpu_passthrough,
            r.gpu is None,
            r.network is None,
            !r.autostart,
            r.storage.directory is None,
            r.storage.filename is None,
            r.storage.format == DiskFormat::Qcow2,
            r.storage.size@ == "20Gi"@,
            r.storage.create_if_missing,
            r.firmware.boot_type == VmBootType::Legacy,
            !r.firmware.secure_boot,
            !r.tpm.enabled,
            r.tpm.version == VmTpmVersion::V2_0,
            r.compliance_profile is None,
    {
        VmConfig {
            image: None,
            cpu: default_cpu(),
            memory: default_memory(),
            gpu_passthrough: false,
            gpu: None,
            network: None,
            autostart: false,
            storage: VmStorageConfig::default(),
            firmware: VmFirmwareConfig::default(),
            tpm: VmTpmConfig::default(),
            compliance_profile: None,
        }
    }
}

impl Default for StoragePoolConfig {
    fn default() -> (r: Self)
        ensures
            r.pool_type == StoragePoolType::Directory,
            r.directory@ == "/var/lib/nova/disks"@,
            r.description is None,
            r.capacity is None,
            r.default_format == DiskFormat::Qcow2,
            r.auto_create,
            r.labels@.len() == 0,
    {
        StoragePoolConfig {
            pool_type: default_storage_pool_type(),
            directory: "/var/lib/nova/disks".to_owned(),
            description: None,
            capacity: None,
            default_format: default_disk_format(),
            auto_create: default_create_if_missing(),
            labels: Vec::new(),
        }
    }
}

impl Default for VmStorageConfig {
    fn default() -> (r: Self)
        ensures
            r.directory is None,
            r.filename is None,
            r.format == DiskFormat::Qcow2,
            r.size@ == "20Gi"@,
            r.create_if_missing,
    {
        VmStorageConfig {
            directory: None,
            filename: None,
            format: default_disk_format(),
            size: default_disk_size(),
            create_if_missing: default_create_if_missing(),
        }
    }
}

impl Default for DiskFormat {
    fn default() -> (r: Self)
        ensures
            r == DiskFormat::Qcow2,
    {
        DiskFormat::Qcow2
    }
}

impl Default for ContainerConfig {
    fn default() -> (r: Self)
        ensures
            r.capsule is None,
            r.volumes@.len() == 0,
            r.network is None,
            r.env@.len() == 0,
            !r.autostart,
            r.runtime is None,
            r.bolt.isolation@ == "standard"@,
            !r.bolt.gpu_access,
            r.bolt.gpu_devices@.len() == 0,
            r.bolt.security_profile@ == "default"@,
            r.bolt.network_mode@ == "bridge"@,
    {
        ContainerConfig {
            capsule: None,
            volumes: Vec::new(),
            network: None,
            env: Vec::new(),
            autostart: false,
            runtime: None,
            bolt: BoltConfig::default(),
        }
    }
}

impl Default for BoltConfig {
    fn default() -> (r: Self)
        ensures
            r.isolation@ == "standard"@,
            !r.gpu_access,
            r.gpu_devices@.len() == 0,
            r.memory_limit is None,
            r.cpu_limit is None,
            r.security_profile@ == "default"@,
            r.network_mode@ == "bridge"@,
            !r.read_only,
            !r.no_new_privileges,
            r.quic_streams is None,
    {
        BoltConfig {
            isolation: "standard".to_owned(),
            gpu_access: false,
            gpu_devices: Vec::new(),
            memory_limit: None,
            cpu_limit: None,
            security_profile: "default".to_owned(),
            network_mode: "bridge".to_owned(),
            read_only: false,
            no_new_privileges: false,
            quic_streams: None,
        }
    }
}

impl Default for NetworkConfig {
    fn default() -> (r: Self)
        ensures
            r.network_type == NetworkType::Bridge,
            r.interfaces@.len() == 0,
            r.driver is None,
            !r.dns,
            r.subnet is None,
            r.gateway is None,
    {
        NetworkConfig {
            network_type: NetworkType::Bridge,
            interfaces: Vec::new(),
            driver: None,
            dns: false,
            subnet: None,
            gateway: None,
        }
    }
}

fn default_cpu() -> (r: u32)
    ensures
        r == 2,
{
    2
}

fn default_memory() -> (r: String)
    ensures
        r@ == "1Gi"@,
{
    "1Gi".to_owned()
}

fn default_disk_format() -> (r: DiskFormat)
    ensures
        r == DiskFormat::Qcow2,
{
    DiskFormat::Qcow2
}

fn default_disk_size() -> (r: String)
    ensures
        r@ == "20Gi"@,
{
    "20Gi".to_owned()
}

fn default_create_if_missing() -> (r: bool)
    ensures
        r,
{
    true
}

fn default_vm_boot_type() -> (r: VmBootType)
    ensures
        r == VmBootType::Legacy,
{
    VmBootType::Legacy
}

fn default_tpm_enabled() -> (r: bool)
    ensures
        !r,
{
    false
}

fn default_tpm_version() -> (r: VmTpmVersion)
    ensures
        r == VmTpmVersion::V2_0,
{
    VmTpmVersion::V2_0
}

/// The whole configuration: named VMs, containers, networks and storage
/// pools, the ISO locations and the templates. Each named table is a list of
/// (name, definition) pairs; a lookup finds the first entry of a name.
#[derive(Debug, Clone)]
pub struct NovaConfig {
    pub project: Option<String>,
    pub vm: Vec<(String, VmConfig)>,
    pub container: Vec<(String, ContainerConfig)>,
    pub network: Vec<(String, NetworkConfig)>,
    pub storage: Vec<(String, StoragePoolConfig)>,
    pub iso: IsoConfig,
    pub templates: TemplatesConfig,
}

impl Default for NovaConfig {
    fn default() -> (r: Self)
        ensures
            r.project is None,
            r.vm@.len() == 0,
            r.container@.len() == 0,
            r.network@.len() == 0,
            r.storage@.len() == 0,
            r.iso.paths@.len() == 0,
            r.iso.known@.len() == 0,
            r.templates.enable_builtin,
            r.templates.custom@.len() == 0,
            r.names_unique(),
    {
        NovaConfig {
            project: None,
            vm: Vec::new(),
            container: Vec::new(),
            network: Vec::new(),
            storage: Vec::new(),
            iso: IsoConfig { paths: Vec::new(), known: Vec::new() },
            templates: TemplatesConfig::default(),
        }
    }
}

/// Over the entries of a table with distinct names: the table as a map from
/// name to definition, and what a lookup of `name` gives.
pub open spec fn looked_up<V>(table: Seq<(String, V)>, name: Seq<char>, r: Option<&V>) -> bool {
    match r {
        Some(v) => pmap(table).dom().contains(name) && *v == pmap(table)[name],
        None => !pmap(table).dom().contains(name),
    }
}

impl NovaConfig {
    /// No table names two entries alike (as in the configuration file, where
    /// each name is one key of its table).
    pub open spec fn names_unique(self) -> bool {
        &&& keys_distinct(self.vm@)
        &&& keys_distinct(self.container@)
        &&& keys_distinct(self.network@)
        &&& keys_distinct(self.storage@)
    }

    /// The VM named `name`.
    pub fn get_vm(&self, name: &str) -> (r: Option<&VmConfig>)
        ensures
            match first_key(self.vm@, name@) {
                Some(i) => r == Some(&self.vm@[i].1),
                None => r is None,
            },
            self.names_unique() ==> looked_up(self.vm@, name@, r),
    {
        proof {
            if self.names_unique() {
                lemma_lookup(self.vm@, name@);
            }
        }
        value_of(&self.vm, name)
    }

    /// The container named `name`.
    pub fn get_container(&self, name: &str) -> (r: Option<&ContainerConfig>)
        ensures
            match first_key(self.container@, name@) {
                Some(i) => r == Some(&self.container@[i].1),
                None => r is None,
            },
            self.names_unique() ==> looked_up(self.container@, name@, r),
    {
        proof {
            if self.names_unique() {
                lemma_lookup(self.container@, name@);
            }
        }
        value_of(&self.container, name)
    }

    /// The network named `name`.
    pub fn get_network(&self, name: &str) -> (r: Option<&NetworkConfig>)
        ensures
            match first_key(self.network@, name@) {
                Some(i) => r == Some(&self.network@[i].1),
                None => r is None,
            },
            self.names_unique() ==> looked_up(self.network@, name@, r),
    {
        proof {
            if self.names_unique() {
                lemma_lookup(self.network@, name@);
            }
        }
        value_of(&self.network, name)
    }

    /// The storage pool named `name`.
    pub fn get_storage_pool(&self, name: &str) -> (r: Option<&StoragePoolConfig>)
        ensures
            match first_key(self.storage@, name@) {
                Some(i) => r == Some(&self.storage@[i].1),
                None => r is None,
            },
            self.names_unique() ==> looked_up(self.storage@, name@, r),
    {
        proof {
            if self.names_unique() {
                lemma_lookup(self.storage@, name@);
            }
        }
        value_of(&self.storage, name)
    }

    /// The names of the VMs.
    pub fn list_vms(&self) -> (r: Vec<String>)
        ensures
            r@.len() == self.vm@.len(),
            forall|i: int| 0 <= i < self.vm@.len() ==> #[trigger] r@[i]@ == self.vm@[i].0@,
    {
        keys_of(&self.vm)
    }

    /// The names of the containers.
    pub fn list_containers(&self) -> (r: Vec<String>)
        ensures
            r@.len() == self.container@.len(),
            forall|i: int|
                0 <= i < self.container@.len() ==> #[trigger] r@[i]@ == self.container@[i].0@,
    {
        keys_of(&self.container)
    }

    /// The names of the networks.
    pub fn list_networks(&self) -> (r: Vec<String>)
        ensures
            r@.len() == self.network@.len(),
            forall|i: int|
                0 <= i < self.network@.len() ==> #[trigger] r@[i]@ == self.network@[i].0@,
    {
        keys_of(&self.network)
    }

    /// The names of the storage pools.
    pub fn list_storage_pools(&self) -> (r: Vec<String>)
        ensures
            r@.len() == self.storage@.len(),
            forall|i: int|
                0 <= i < self.storage@.len() ==> #[trigger] r@[i]@ == self.storage@[i].0@,
    {
        keys_of(&self.storage)
    }
}

/// The default UI font family.
pub fn default_ui_font_family() -> (r: String)
    ensures
        r@ == "fira-code-nerd"@,
{
    "fira-code-nerd".to_owned()
}

fn default_storage_pool_type() -> (r: StoragePoolType)
    ensures
        r == StoragePoolType::Directory,
{
    StoragePoolType::Directory
}

/// `PathBuf::join` on the text of two paths: an absolute `file` replaces
/// `dir`; otherwise a `'/'` separates them unless `dir` is empty or already
/// ends with one.
pub open spec fn path_join(dir: Seq<char>, file: Seq<char>) -> Seq<char> {
    if file.len() > 0 && file[0] == '/' {
        file
    } else if dir.len() == 0 || dir.last() == '/' {
        dir + file
    } else {
        dir + seq!['/'] + file
    }
}

/// `PathBuf::join` on path text.
pub fn path_join_exec(dir: &str, file: &str) -> (r: String)
    ensures
        r@ == path_join(dir@, file@),
{
    let d = chars_of(dir);
    let f = chars_of(file);
    if f.len() > 0 && f[0] == '/' {
        return owned(file);
    }
    if d.len() == 0 || d[d.len() - 1] == '/' {
        cat(dir, file)
    } else {
        let mut r = owned(dir);
        push_char(&mut r, '/');
        r.append(file);
        r
    }
}

impl VmStorageConfig {
    /// The disk path of VM `vm_name`, as text.
    pub open spec fn spec_disk_path(self, vm_name: Seq<char>) -> Seq<char> {
        let dir = match self.directory {
            Some(d) => d@,
            None => "/var/lib/nova/disks"@,
        };
        let file = match self.filename {
            Some(f) => f@,
            None => vm_name + "."@ + self.format.spec_name(),
        };
        path_join(dir, file)
    }

    /// The path of the VM's disk image: `directory` (or `/var/lib/nova/disks`)
    /// joined with `filename` (or `<vm_name>.<format>`, the format's name).
    pub fn resolve_disk_path(&self, vm_name: &str) -> (r: String)
        ensures
            r@ == self.spec_disk_path(vm_name@),
    {
        let directory = match &self.directory {
            Some(d) => d.clone(),
            None => "/var/lib/nova/disks".to_owned(),
        };
        let filename = match &self.filename {
            Some(f) => f.clone(),
            None => cat(cat(vm_name, ".").as_str(), self.format.as_str()),
        };
        path_join_exec(directory.as_str(), filename.as_str())
    }
}

impl DiskFormat {
    pub open spec fn spec_name(self) -> Seq<char> {
        match self {
            DiskFormat::Qcow2 => "qcow2"@,
            DiskFormat::Raw => "raw"@,
        }
    }

    pub open spec fn spec_extension(self) -> Seq<char> {
        match self {
            DiskFormat::Qcow2 => "qcow2"@,
            DiskFormat::Raw => "img"@,
        }
    }

    pub fn as_str(&self) -> (r: &'static str)
        ensures
            r@ == self.spec_name(),
    {
        match self {
            DiskFormat::Qcow2 => "qcow2",
            DiskFormat::Raw => "raw",
        }
    }

    pub fn extension(&self) -> (r: &'static str)
        ensures
            r@ == self.spec_extension(),
    {
        match self {
            DiskFormat::Qcow2 => "qcow2",
            DiskFormat::Raw => "img",
        }
    }
}

// ---------------------------------------------------------------------------
// Memory sizes
// ---------------------------------------------------------------------------

/// `str::trim_end_matches` with a non-empty pattern: every trailing copy of `p` removed.
pub open spec fn trim_end_matches(s: Seq<char>, p: Seq<char>) -> Seq<char>
    decreases s.len(),
{
    if p.len() > 0 && ends_with(s, p) {
        trim_end_matches(s.take(s.len() - p.len()), p)
    } else {
        s
    }
}

/// The number text and the unit multiplier of a trimmed memory size.
pub open spec fn memory_parts(t: Seq<char>) -> (Seq<char>, nat) {
    if ends_with(t, seq!['G', 'i']) {
        (trim_end_matches(t, seq!['G', 'i']), 1073741824)
    } else if ends_with(t, seq!['M', 'i']) {
        (trim_end_matches(t, seq!['M', 'i']), 1048576)
    } else if ends_with(t, seq!['G']) {
        (trim_end_matches(t, seq!['G']), 1000000000)
    } else if ends_with(t, seq!['M']) {
        (trim_end_matches(t, seq!['M']), 1000000)
    } else {
        (t, 1)
    }
}

/// The number of bytes that a memory size such as "1Gi", "512Mi", "2G",
/// "1024M" or "1073741824" denotes, or `None` where the text is not one.
pub open spec fn memory_bytes(s: Seq<char>) -> Option<nat> {
    let t = trim(s);
    if t.len() == 0 {
        None
    } else {
        let (n, m) = memory_parts(t);
        match parse_uint(n, u64::MAX as nat) {
            Some(v) => Some(v * m),
            None => None,
        }
    }
}

/// The size fits in 64 bits (the multiplication does not overflow).
pub open spec fn memory_in_range(s: Seq<char>) -> bool {
    match memory_bytes(s) {
        Some(b) => b <= u64::MAX,
        None => true,
    }
}

fn trim_end_matches_exec(s: &str, p: &str) -> (r: String)
    requires
        p@.len() > 0,
    ensures
        r@ == trim_end_matches(s@, p@),
{
    let v = chars_of(s);
    let pv = chars_of(p);
    let mut end = v.len();
    assert(v@.take(end as int) =~= v@);
    loop
        invariant
            end <= v.len(),
            pv@ == p@,
            pv@.len() > 0,
            trim_end_matches(s@, p@) == trim_end_matches(v@.take(end as int), p@),
            v@ == s@,
        decreases end,
    {
        let ghost cur = v@.take(end as int);
        if pv.len() <= end && has_at_exec(&v, &pv, end - pv.len()) {
            assert(cur.skip(cur.len() - p@.len()) =~= v@.subrange(
                end - pv.len(),
                end - pv.len() + pv.len(),
            ));
            assert(cur.take(cur.len() - p@.len()) =~= v@.take(end - pv.len()));
            end = end - pv.len();
        } else {
            proof {
                if ends_with(cur, p@) {
                    assert(cur.skip(cur.len() - p@.len()) =~= v@.subrange(
                        end - pv.len(),
                        end - pv.len() + pv.len(),
                    ));
                }
            }
            let r = string_of(&v, 0, end);
            assert(r@ =~= cur);
            return r;
        }
    }
}

/// The number text and unit multiplier of a trimmed memory size.
fn memory_split(t: &str) -> (r: (String, u64))
    ensures
        (r.0@, r.1 as nat) == memory_parts(t@),
        1 <= r.1 <= 1073741824,
{
    proof {
        reveal_strlit("Gi");
        reveal_strlit("Mi");
        reveal_strlit("G");
        reveal_strlit("M");
        assert("Gi"@ =~= seq!['G', 'i']);
        assert("Mi"@ =~= seq!['M', 'i']);
        assert("G"@ =~= seq!['G']);
        assert("M"@ =~= seq!['M']);
    }
    if str_ends_with(t, "Gi") {
        (trim_end_matches_exec(t, "Gi"), 1073741824)
    } else if str_ends_with(t, "Mi") {
        (trim_end_matches_exec(t, "Mi"), 1048576)
    } else if str_ends_with(t, "G") {
        (trim_end_matches_exec(t, "G"), 1000000000)
    } else if str_ends_with(t, "M") {
        (trim_end_matches_exec(t, "M"), 1000000)
    } else {
        (owned(t), 1)
    }
}

/// Whether the size a memory text denotes fits in 64 bits (text that is no
/// size at all fits: parsing it fails without overflow).
pub fn memory_size_fits(memory_str: &str) -> (r: bool)
    ensures
        r == memory_in_range(memory_str@),
{
    let t = trim_str(memory_str);
    if t.unicode_len() == 0 {
        return true;
    }
    let (number_part, multiplier) = memory_split(t.as_str());
    match parse_uint_exec(number_part.as_str(), u64::MAX) {
        Some(n) => n.checked_mul(multiplier).is_some(),
        None => true,
    }
}

/// Bytes denoted by a memory size: decimal digits followed by "Gi" (2^30),
/// "Mi" (2^20), "G" (10^9), "M" (10^6) or no suffix (bytes), around
/// optional whitespace. Text that is not such a size gives `InvalidConfig`.
pub fn parse_memory_to_bytes(memory_str: &str) -> (r: Result<u64>)
    requires
        memory_in_range(memory_str@),
    ensures
        memory_bytes(memory_str@) is Some <==> r is Ok,
        r matches Ok(b) ==> memory_bytes(memory_str@) == Some(b as nat),
        r matches Err(e) ==> e == NovaError::InvalidConfig,
{
    let t = trim_str(memory_str);
    if t.unicode_len() == 0 {
        return Err(NovaError::InvalidConfig);
    }
    let (number_part, multiplier) = memory_split(t.as_str());
    match parse_uint_exec(number_part.as_str(), u64::MAX) {
        Some(n) => {
            assert(n * multiplier <= u64::MAX);
            Ok(n * multiplier)
        },
        None => Err(NovaError::InvalidConfig),
    }
}

} // verus!

//! GPU discovery model, IOMMU grouping, reservations and VFIO passthrough arguments.
use vstd::prelude::*;
use crate::text::{
    all_digits, byte_prefix, byte_prefix_exec, cat, chars_of, contains, eq_ignore_ascii_case,
    eq_ignore_ascii_case_exec, find, find_exec, find_from, find_from_exec, has_byte_prefix, is_digit, lemma_find_from,
    lemma_rfind_bound, lemma_split_count, lines, lines_exec, lowercase_of, owned, parse_uint,
    parse_uint_exec, remove_all, remove_all_exec, rfind_char, rfind_char_exec, split_char,
    split_exec, starts_with, str_contains, str_eq, str_starts_with, string_of, to_lowercase, trim,
    trim_str, words, words_exec,
};
use crate::error::NovaError;
use crate::pairs::{
    put,
    find_key, first_key, keys_distinct, lemma_lookup, lemma_pmap_at, lemma_pmap_dom,
    lemma_push_new, lemma_remove_at, pmap,
};

verus! {

/// GPU Passthrough configuration
#[derive(Debug, Clone)]
pub struct GpuPassthroughConfig {
    pub device_address: String,
    pub mode: PassthroughMode,
    /// Path of a ROM file to expose to the guest
    pub romfile: Option<String>,
    pub multifunction: bool,
    /// GPU audio device address
    pub audio_device: Option<String>,
    /// USB controller address (for Looking Glass)
    pub usb_controller: Option<String>,
    /// Primary VGA device
    pub x_vga: bool,
    pub display: DisplayMode,
}

#[derive(Debug, Clone, Copy, PartialEq, Eq)]
pub enum PassthroughMode {
    /// Full device passthrough
    Full,
    /// SR-IOV virtual function
    SrIov,
    /// NVIDIA vGPU
    Vgpu,
    /// Managed by Nova
    ManagedVfio,
}

#[derive(Debug, Clone, Copy, PartialEq, Eq)]
pub enum DisplayMode {
    /// No display ("None" in configuration files)
    Headless,
    Spice,
    LookingGlass,
    VirtioGpu,
}

} // verus!

verus! {

/// A copy of an optional string.
pub fn clone_opt(o: &Option<String>) -> (r: Option<String>)
    ensures
        r == *o,
{
    match o {
        Some(s) => Some(s.clone()),
        None => None,
    }
}

/// A copy of a list of strings.
pub fn clone_strings(v: &Vec<String>) -> (r: Vec<String>)
    ensures
        r@ == v@,
{
    let mut r: Vec<String> = Vec::new();
    let mut i: usize = 0;
    while i < v.len()
        invariant
            i <= v.len(),
            r@ == v@.take(i as int),
        decreases v.len() - i,
    {
        r.push(v[i].clone());
        assert(v@.take(i + 1) =~= v@.take(i as int).push(v@[i as int]));
        i += 1;
    }
    assert(v@.take(v.len() as int) =~= v@);
    r
}

impl GpuPassthroughConfig {
    /// The `-device` value for the primary device.
    pub open spec fn spec_device_arg(self) -> Seq<char> {
        "vfio-pci,host="@ + self.device_address@ + (if self.multifunction {
            ",multifunction=on"@
        } else {
            Seq::<char>::empty()
        }) + (if self.x_vga {
            ",x-vga=on"@
        } else {
            Seq::<char>::empty()
        }) + match self.mode {
            PassthroughMode::SrIov => ",disable-err=on"@,
            PassthroughMode::Vgpu => ",enable-migration=on"@,
            _ => Seq::<char>::empty(),
        }
    }

    /// QEMU arguments for the primary device, then the audio device, then the
    /// USB controller; an empty address contributes nothing.
    pub open spec fn spec_qemu_args(self) -> Seq<Seq<char>> {
        (if self.device_address@.len() > 0 {
            seq!["-device"@, self.spec_device_arg()]
        } else {
            Seq::<Seq<char>>::empty()
        }) + extra_device_args(self.audio_device) + extra_device_args(self.usb_controller)
    }

    /// Generate vfio device arguments for QEMU
    pub fn qemu_args(&self) -> (r: Vec<String>)
        ensures
            crate::text::views(r@) == self.spec_qemu_args(),
    {
        let mut args: Vec<String> = Vec::new();
        if self.device_address.unicode_len() > 0 {
            let mut device = crate::text::cat("vfio-pci,host=", self.device_address.as_str());
            if self.multifunction {
                device.append(",multifunction=on");
            }
            if self.x_vga {
                device.append(",x-vga=on");
            }
            match self.mode {
                PassthroughMode::SrIov => device.append(",disable-err=on"),
                PassthroughMode::Vgpu => device.append(",enable-migration=on"),
                PassthroughMode::ManagedVfio | PassthroughMode::Full => {},
            }
            args.push("-device".to_owned());
            args.push(device);
        }
        let ghost a0 = crate::text::views(args@);
        push_extra_device(&mut args, &self.audio_device);
        let ghost a1 = crate::text::views(args@);
        push_extra_device(&mut args, &self.usb_controller);
        assert(crate::text::views(args@) =~= self.spec_qemu_args());
        args
    }
}

/// `-device vfio-pci,host=<addr>` for a present, non-empty address.
pub open spec fn extra_device_args(a: Option<String>) -> Seq<Seq<char>> {
    match a {
        Some(x) => if x@.len() > 0 {
            seq!["-device"@, "vfio-pci,host="@ + x@]
        } else {
            Seq::<Seq<char>>::empty()
        },
        None => Seq::<Seq<char>>::empty(),
    }
}

fn push_extra_device(args: &mut Vec<String>, a: &Option<String>)
    ensures
        crate::text::views(final(args)@) == crate::text::views(old(args)@) + extra_device_args(
            *a,
        ),
{
    let ghost a0 = crate::text::views(args@);
    if let Some(x) = a {
        if x.unicode_len() > 0 {
            args.push("-device".to_owned());
            args.push(crate::text::cat("vfio-pci,host=", x.as_str()));
        }
    }
    assert(crate::text::views(args@) =~= a0 + extra_device_args(*a));
}

impl Default for GpuPassthroughConfig {
    fn default() -> (r: Self)
        ensures
            r.device_address@.len() == 0,
            r.mode == PassthroughMode::Full,
            r.romfile is None,
            r.multifunction,
            r.audio_device is None,
            r.usb_controller is None,
            r.x_vga,
            r.display == DisplayMode::Headless,
    {
        GpuPassthroughConfig {
            device_address: String::new(),
            mode: PassthroughMode::Full,
            romfile: None,
            multifunction: true,
            audio_device: None,
            usb_controller: None,
            x_vga: true,
            display: DisplayMode::Headless,
        }
    }
}

} // verus!

verus! {

/// IOMMU Group information
#[derive(Debug, Clone)]
pub struct IommuGroup {
    pub id: u32,
    pub devices: Vec<PciDevice>,
    pub isolated: bool,
    pub viable_for_passthrough: bool,
}

/// PCI Device representation
#[derive(Debug, Clone)]
pub struct PciDevice {
    /// e.g. "0000:01:00.0"
    pub address: String,
    /// e.g. "10de" (NVIDIA)
    pub vendor_id: String,
    /// e.g. "2684"
    pub device_id: String,
    pub vendor_name: String,
    pub device_name: String,
    pub iommu_group: Option<u32>,
    /// vfio-pci, nvidia, nouveau, ...
    pub driver: Option<String>,
    pub in_use: bool,
}

impl PciDevice {
    /// A field-by-field copy.
    pub fn duplicate(&self) -> (r: PciDevice)
        ensures
            r == *self,
    {
        PciDevice {
            address: self.address.clone(),
            vendor_id: self.vendor_id.clone(),
            device_id: self.device_id.clone(),
            vendor_name: self.vendor_name.clone(),
            device_name: self.device_name.clone(),
            iommu_group: self.iommu_group,
            driver: clone_opt(&self.driver),
            in_use: self.in_use,
        }
    }
}

/// Snapshot of a GPU's current binding state
#[derive(Debug, Clone)]
pub struct DeviceBindingInfo {
    pub driver: Option<String>,
    pub in_use: bool,
    pub reserved_for: Option<String>,
}

/// GPU capabilities and features
#[derive(Debug, Clone)]
pub struct GpuCapabilities {
    /// CUDA compute capability
    pub compute_capability: Option<String>,
    pub vram_mb: Option<u64>,
    pub pcie_generation: Option<u8>,
    pub pcie_lanes: Option<u8>,
    pub sriov_capable: bool,
    pub vgpu_capable: bool,
    /// Known NVIDIA reset bug
    pub reset_bug: bool,
    pub generation: Option<GpuGeneration>,
    pub minimum_driver: Option<String>,
    pub recommended_kernel: Option<String>,
    pub tcc_supported: bool,
}

/// The capabilities nothing has been learnt about yet.
pub open spec fn empty_caps() -> CapsView {
    CapsView {
        compute_capability: None,
        vram_mb: None,
        pcie_generation: None,
        pcie_lanes: None,
        sriov_capable: false,
        vgpu_capable: false,
        reset_bug: false,
        generation: None,
        minimum_driver: None,
        recommended_kernel: None,
        tcc_supported: false,
    }
}

impl Default for GpuCapabilities {
    fn default() -> (r: Self)
        ensures
            r@ == empty_caps(),
    {
        GpuCapabilities {
            compute_capability: None,
            vram_mb: None,
            pcie_generation: None,
            pcie_lanes: None,
            sriov_capable: false,
            vgpu_capable: false,
            reset_bug: false,
            generation: None,
            minimum_driver: None,
            recommended_kernel: None,
            tcc_supported: false,
        }
    }
}

impl GpuCapabilities {
    /// A field-by-field copy.
    pub fn duplicate(&self) -> (r: GpuCapabilities)
        ensures
            r == *self,
    {
        GpuCapabilities {
            compute_capability: clone_opt(&self.compute_capability),
            vram_mb: self.vram_mb,
            pcie_generation: self.pcie_generation,
            pcie_lanes: self.pcie_lanes,
            sriov_capable: self.sriov_capable,
            vgpu_capable: self.vgpu_capable,
            reset_bug: self.reset_bug,
            generation: self.generation,
            minimum_driver: clone_opt(&self.minimum_driver),
            recommended_kernel: clone_opt(&self.recommended_kernel),
            tcc_supported: self.tcc_supported,
        }
    }
}

#[derive(Debug, Clone, Copy, PartialEq, Eq, Structural)]
pub enum GpuGeneration {
    Pascal,
    Turing,
    Ampere,
    AdaLovelace,
    Blackwell,
    Unknown,
}

impl GpuGeneration {
    pub open spec fn spec_label(self) -> Seq<char> {
        match self {
            GpuGeneration::Pascal => "Pascal (RTX 10)"@,
            GpuGeneration::Turing => "Turing (RTX 20)"@,
            GpuGeneration::Ampere => "Ampere (RTX 30)"@,
            GpuGeneration::AdaLovelace => "Ada Lovelace (RTX 40)"@,
            GpuGeneration::Blackwell => "Blackwell (RTX 50)"@,
            GpuGeneration::Unknown => "Unknown"@,
        }
    }

    /// The text the generation displays as.
    pub fn label(&self) -> (r: String)
        ensures
            r@ == self.spec_label(),
    {
        match self {
            GpuGeneration::Pascal => "Pascal (RTX 10)".to_owned(),
            GpuGeneration::Turing => "Turing (RTX 20)".to_owned(),
            GpuGeneration::Ampere => "Ampere (RTX 30)".to_owned(),
            GpuGeneration::AdaLovelace => "Ada Lovelace (RTX 40)".to_owned(),
            GpuGeneration::Blackwell => "Blackwell (RTX 50)".to_owned(),
            GpuGeneration::Unknown => "Unknown".to_owned(),
        }
    }
}

/// The generation that a lower-cased GPU name shows.
pub open spec fn generation_of_lower(l: Seq<char>) -> Option<GpuGeneration> {
    if contains(l, "rtx 50"@) || (contains(l, " 50"@) && contains(l, "rtx"@)) || contains(
        l,
        "blackwell"@,
    ) || contains(l, "gb202"@) {
        Some(GpuGeneration::Blackwell)
    } else if contains(l, "rtx 40"@) || contains(l, "4090"@) || contains(l, "4080"@) || contains(
        l,
        "ada"@,
    ) {
        Some(GpuGeneration::AdaLovelace)
    } else if contains(l, "rtx 30"@) || contains(l, "3090"@) || contains(l, "3080"@) || contains(
        l,
        "ampere"@,
    ) {
        Some(GpuGeneration::Ampere)
    } else if contains(l, "rtx 20"@) || contains(l, "2080"@) || contains(l, "2070"@) || contains(
        l,
        "turing"@,
    ) {
        Some(GpuGeneration::Turing)
    } else if contains(l, "gtx 10"@) || contains(l, "1080"@) || contains(l, "pascal"@) {
        Some(GpuGeneration::Pascal)
    } else {
        None
    }
}

/// The generation that a GPU name shows (matched on its lower-cased form).
pub open spec fn generation_of_name(name: Seq<char>) -> Option<GpuGeneration> {
    generation_of_lower(lowercase_of(name))
}

/// The generation that an already lower-cased GPU name shows.
pub fn generation_from_lowercase(lower: &str) -> (r: Option<GpuGeneration>)
    ensures
        r == generation_of_lower(lower@),
{
    if str_contains(lower, "rtx 50") || (str_contains(lower, " 50") && str_contains(lower, "rtx"))
        || str_contains(lower, "blackwell") || str_contains(lower, "gb202") {
        Some(GpuGeneration::Blackwell)
    } else if str_contains(lower, "rtx 40") || str_contains(lower, "4090") || str_contains(
        lower,
        "4080",
    ) || str_contains(lower, "ada") {
        Some(GpuGeneration::AdaLovelace)
    } else if str_contains(lower, "rtx 30") || str_contains(lower, "3090") || str_contains(
        lower,
        "3080",
    ) || str_contains(lower, "ampere") {
        Some(GpuGeneration::Ampere)
    } else if str_contains(lower, "rtx 20") || str_contains(lower, "2080") || str_contains(
        lower,
        "2070",
    ) || str_contains(lower, "turing") {
        Some(GpuGeneration::Turing)
    } else if str_contains(lower, "gtx 10") || str_contains(lower, "1080") || str_contains(
        lower,
        "pascal",
    ) {
        Some(GpuGeneration::Pascal)
    } else {
        None
    }
}

/// The GPU generation a device name shows, if any.
pub fn detect_gpu_generation(name: &str) -> (r: Option<GpuGeneration>)
    ensures
        r == generation_of_name(name@),
{
    let lower = to_lowercase(name);
    generation_from_lowercase(lower.as_str())
}

/// The last twelve characters of a trimmed bus id (nvidia-smi prints eight
/// domain digits; lspci four).
pub open spec fn normalized_pci_address(bus_id: Seq<char>) -> Seq<char> {
    let t = trim(bus_id);
    if t.len() > 12 {
        t.skip(t.len() - 12)
    } else {
        t
    }
}

/// The trimmed value, or nothing when it is empty or "N/A" in any ASCII case.
pub open spec fn non_empty_value(v: Seq<char>) -> Option<Seq<char>> {
    let t = trim(v);
    if t.len() == 0 || eq_ignore_ascii_case(t, "n/a"@) {
        None
    } else {
        Some(t)
    }
}

/// What a capabilities record says, with text as character sequences.
pub struct CapsView {
    pub compute_capability: Option<Seq<char>>,
    pub vram_mb: Option<u64>,
    pub pcie_generation: Option<u8>,
    pub pcie_lanes: Option<u8>,
    pub sriov_capable: bool,
    pub vgpu_capable: bool,
    pub reset_bug: bool,
    pub generation: Option<GpuGeneration>,
    pub minimum_driver: Option<Seq<char>>,
    pub recommended_kernel: Option<Seq<char>>,
    pub tcc_supported: bool,
}

/// The view of an optional string.
pub open spec fn opt_view(s: Option<String>) -> Option<Seq<char>> {
    match s {
        Some(x) => Some(x@),
        None => None,
    }
}

impl View for GpuCapabilities {
    type V = CapsView;

    open spec fn view(&self) -> CapsView {
        CapsView {
            compute_capability: opt_view(self.compute_capability),
            vram_mb: self.vram_mb,
            pcie_generation: self.pcie_generation,
            pcie_lanes: self.pcie_lanes,
            sriov_capable: self.sriov_capable,
            vgpu_capable: self.vgpu_capable,
            reset_bug: self.reset_bug,
            generation: self.generation,
            minimum_driver: opt_view(self.minimum_driver),
            recommended_kernel: opt_view(self.recommended_kernel),
            tcc_supported: self.tcc_supported,
        }
    }
}

/// `c` with the requirements of an RTX 50-series GPU recorded: driver 560.0,
/// kernel 6.9, vGPU, SR-IOV and TCC.
pub open spec fn with_blackwell(c: CapsView) -> CapsView {
    CapsView {
        minimum_driver: Some("560.0"@),
        recommended_kernel: Some("6.9"@),
        vgpu_capable: true,
        sriov_capable: true,
        tcc_supported: true,
        ..c
    }
}

fn apply_blackwell_requirements(caps: &mut GpuCapabilities)
    ensures
        final(caps)@ == with_blackwell(old(caps)@),
{
    caps.minimum_driver = Some("560.0".to_owned());
    caps.recommended_kernel = Some("6.9".to_owned());
    caps.vgpu_capable = true;
    caps.sriov_capable = true;
    caps.tcc_supported = true;
}

fn parse_non_empty(value: &str) -> (r: Option<String>)
    ensures
        opt_view(r) == non_empty_value(value@),
{
    let trimmed = trim_str(value);
    if trimmed.unicode_len() == 0 || eq_ignore_ascii_case_exec(trimmed.as_str(), "n/a") {
        None
    } else {
        Some(trimmed)
    }
}

fn normalize_pci_address(bus_id: &str) -> (r: String)
    ensures
        r@ == normalized_pci_address(bus_id@),
{
    let t = trim_str(bus_id);
    let v = chars_of(t.as_str());
    if v.len() > 12 {
        let r = string_of(&v, v.len() - 12, v.len());
        assert(r@ =~= t@.skip(t@.len() - 12));
        r
    } else {
        t
    }
}

} // verus!

verus! {

/// GPU Manager - holds the discovered GPUs, IOMMU groups, capabilities and
/// the reservations of GPUs for VMs.
pub struct GpuManager {
    gpus: Vec<PciDevice>,
    iommu_groups: Vec<IommuGroup>,
    /// device address -> VM name
    reservations: Vec<(String, String)>,
    /// device address -> capabilities
    gpu_capabilities: Vec<(String, GpuCapabilities)>,
    /// nvbind integration enabled
    nvbind_available: bool,
    /// System configuration
    config: GpuSystemConfig,
    discovered: bool,
}

#[derive(Debug, Clone)]
pub struct GpuSystemConfig {
    pub vfio_enabled: bool,
    pub iommu_enabled: bool,
    /// "intel" or "amd"
    pub iommu_mode: Option<String>,
    pub kernel_modules: Vec<String>,
    pub blacklisted_drivers: Vec<String>,
}

#[derive(Debug)]
pub struct GpuSystemStatus {
    pub iommu_enabled: bool,
    pub vfio_available: bool,
    pub gpus_detected: bool,
    pub nvbind_available: bool,
    pub kernel_modules_loaded: bool,
    pub issues: Vec<String>,
}

impl GpuSystemConfig {
    /// The IOMMU mode that the kernel command line enables.
    pub open spec fn spec_iommu_mode(cmdline: Seq<char>) -> Option<Seq<char>> {
        if contains(cmdline, "intel_iommu=on"@) {
            Some("intel"@)
        } else if contains(cmdline, "amd_iommu=on"@) {
            Some("amd"@)
        } else {
            None
        }
    }

    /// The system configuration, from whether `/sys/kernel/iommu_groups` and
    /// `/sys/module/vfio` exist and from the kernel command line.
    pub fn from_host(iommu_groups_present: bool, vfio_module_present: bool, cmdline: &str) -> (r:
        Self)
        ensures
            r.iommu_enabled == iommu_groups_present,
            r.vfio_enabled == vfio_module_present,
            match Self::spec_iommu_mode(cmdline@) {
                Some(m) => r.iommu_mode matches Some(x) && x@ == m,
                None => r.iommu_mode is None,
            },
            crate::text::views(r.kernel_modules@) == seq!["vfio"@, "vfio_pci"@],
            crate::text::views(r.blacklisted_drivers@) == seq!["nouveau"@],
    {
        let iommu_mode = if str_contains(cmdline, "intel_iommu=on") {
            Some("intel".to_owned())
        } else if str_contains(cmdline, "amd_iommu=on") {
            Some("amd".to_owned())
        } else {
            None
        };
        let mut kernel_modules: Vec<String> = Vec::new();
        kernel_modules.push("vfio".to_owned());
        kernel_modules.push("vfio_pci".to_owned());
        let mut blacklisted: Vec<String> = Vec::new();
        blacklisted.push("nouveau".to_owned());
        assert(crate::text::views(kernel_modules@) =~= seq!["vfio"@, "vfio_pci"@]);
        assert(crate::text::views(blacklisted@) =~= seq!["nouveau"@]);
        GpuSystemConfig {
            vfio_enabled: vfio_module_present,
            iommu_enabled: iommu_groups_present,
            iommu_mode,
            kernel_modules,
            blacklisted_drivers: blacklisted,
        }
    }
}

/// The position of the first GPU at address `a`.
pub open spec fn first_gpu(g: Seq<PciDevice>, a: Seq<char>) -> Option<int>
    decreases g.len(),
{
    if g.len() == 0 {
        None
    } else {
        match first_gpu(g.drop_last(), a) {
            Some(i) => Some(i),
            None => if g.last().address@ == a {
                Some(g.len() - 1)
            } else {
                None
            },
        }
    }
}

pub proof fn lemma_first_gpu(g: Seq<PciDevice>, a: Seq<char>)
    ensures
        match first_gpu(g, a) {
            Some(i) => 0 <= i < g.len() && g[i].address@ == a && forall|j: int|
                0 <= j < i ==> #[trigger] g[j].address@ != a,
            None => forall|j: int| 0 <= j < g.len() ==> #[trigger] g[j].address@ != a,
        },
    decreases g.len(),
{
    if g.len() > 0 {
        lemma_first_gpu(g.drop_last(), a);
        let p = g.drop_last();
        match first_gpu(p, a) {
            Some(i) => {
                assert forall|j: int| 0 <= j < i implies #[trigger] g[j].address@ != a by {
                    assert(g[j] == p[j]);
                }
            },
            None => {
                assert forall|j: int| 0 <= j < g.len() - 1 implies #[trigger] g[j].address@
                    != a by {
                    assert(g[j] == p[j]);
                }
            },
        }
    }
}

fn find_gpu(g: &Vec<PciDevice>, a: &str) -> (r: Option<usize>)
    ensures
        r matches Some(i) ==> first_gpu(g@, a@) == Some(i as int) && i < g.len() && g@[i as int].address@
            == a@,
        r is None ==> first_gpu(g@, a@) is None,
{
    let mut i: usize = 0;
    while i < g.len()
        invariant
            i <= g.len(),
            forall|j: int| 0 <= j < i ==> #[trigger] g@[j].address@ != a@,
        decreases g.len() - i,
    {
        if str_eq(g[i].address.as_str(), a) {
            proof {
                lemma_first_gpu(g@, a@);
                if let Some(f) = first_gpu(g@, a@) {
                    if f > i {
                        assert(g@[i as int].address@ == a@);
                    }
                } else {
                    assert(g@[i as int].address@ == a@);
                }
            }
            return Some(i);
        }
        i += 1;
    }
    proof {
        lemma_first_gpu(g@, a@);
        if let Some(f) = first_gpu(g@, a@) {
            assert(g@[f].address@ != a@);
        }
    }
    None
}

/// The driver that a host snapshot lists for an address (first entry wins).
pub open spec fn driver_in(drivers: Seq<(String, String)>, a: Seq<char>) -> Option<String> {
    match first_key(drivers, a) {
        Some(i) => Some(drivers[i].1),
        None => None,
    }
}

fn driver_lookup(drivers: &Vec<(String, String)>, a: &str) -> (r: Option<String>)
    ensures
        r == driver_in(drivers@, a@),
{
    match find_key(drivers, a) {
        Some(i) => Some(drivers[i].1.clone()),
        None => None,
    }
}

/// The GPU after its binding state is read again from a driver snapshot:
/// it is in use when bound to any driver other than vfio-pci.
pub open spec fn refreshed(d: PciDevice, drivers: Seq<(String, String)>) -> PciDevice {
    let drv = driver_in(drivers, d.address@);
    PciDevice {
        driver: drv,
        in_use: drv matches Some(x) && x@ != "vfio-pci"@,
        ..d
    }
}

/// The vfio-pci binding that the host is asked to perform for one device.
#[derive(Debug, Clone)]
pub struct VfioBindPlan {
    /// The sysfs file through which the current driver is released
    pub unbind_path: String,
    /// What is written there: the device address
    pub unbind_value: String,
    /// vfio-pci's `new_id` file and the "vendor device" text written there,
    /// or nothing when the GPU is not among the discovered ones
    pub new_id: Option<(String, String)>,
}

impl GpuManager {
    #[verifier::type_invariant]
    closed spec fn inv(self) -> bool {
        &&& keys_distinct(self.reservations@)
        &&& keys_distinct(self.gpu_capabilities@)
    }

    /// The discovered GPUs.
    pub closed spec fn gpus_view(self) -> Seq<PciDevice> {
        self.gpus@
    }

    /// The IOMMU groups that hold discovered GPUs.
    pub closed spec fn groups_view(self) -> Seq<IommuGroup> {
        self.iommu_groups@
    }

    /// Reservations: device address -> VM name.
    pub closed spec fn reservations_view(self) -> Map<Seq<char>, String> {
        pmap(self.reservations@)
    }

    /// Capabilities by device address.
    pub closed spec fn caps_view(self) -> Map<Seq<char>, GpuCapabilities> {
        pmap(self.gpu_capabilities@)
    }

    /// Whether discovery has completed.
    pub closed spec fn discovered_view(self) -> bool {
        self.discovered
    }

    /// Whether the nvbind runtime is available.
    pub closed spec fn nvbind_view(self) -> bool {
        self.nvbind_available
    }

    /// The host's passthrough configuration.
    pub closed spec fn config_view(self) -> GpuSystemConfig {
        self.config
    }

    /// Whether the nvbind runtime is available.
    pub fn nvbind_available(&self) -> (r: bool)
        ensures
            r == self.nvbind_view(),
    {
        self.nvbind_available
    }

    /// Whether discovery has completed.
    pub fn is_discovered(&self) -> (r: bool)
        ensures
            r == self.discovered_view(),
    {
        self.discovered
    }

    /// The host's passthrough configuration.
    pub fn config(&self) -> (r: &GpuSystemConfig)
        ensures
            *r == self.config_view(),
    {
        &self.config
    }

    /// A manager that has discovered nothing yet.
    pub fn new(nvbind_available: bool, config: GpuSystemConfig) -> (r: Self)
        ensures
            r.gpus_view().len() == 0,
            r.groups_view().len() == 0,
            r.reservations_view() == Map::<Seq<char>, String>::empty(),
            r.caps_view() == Map::<Seq<char>, GpuCapabilities>::empty(),
            r.nvbind_view() == nvbind_available,
            r.config_view() == config,
            !r.discovered_view(),
    {
        let r = GpuManager {
            gpus: Vec::new(),
            iommu_groups: Vec::new(),
            reservations: Vec::new(),
            gpu_capabilities: Vec::new(),
            nvbind_available,
            config,
            discovered: false,
        };
        assert(pmap(r.reservations@) =~= Map::<Seq<char>, String>::empty());
        assert(pmap(r.gpu_capabilities@) =~= Map::<Seq<char>, GpuCapabilities>::empty());
        r
    }

    /// All discovered GPUs.
    pub fn list_gpus(&self) -> (r: &[PciDevice])
        ensures
            r@ == self.gpus_view(),
    {
        self.gpus.as_slice()
    }

    /// All IOMMU groups that hold discovered GPUs.
    pub fn list_iommu_groups(&self) -> (r: &[IommuGroup])
        ensures
            r@ == self.groups_view(),
    {
        self.iommu_groups.as_slice()
    }

    /// The reservations, as (device address, VM name) pairs with distinct addresses.
    pub fn get_reservations(&self) -> (r: &Vec<(String, String)>)
        ensures
            pmap(r@) == self.reservations_view(),
            keys_distinct(r@),
    {
        proof {
            use_type_invariant(self);
        }
        &self.reservations
    }

    /// The VM a device is reserved for.
    pub fn reserved_for(&self, address: &str) -> (r: Option<String>)
        ensures
            match r {
                Some(v) => self.reservations_view().dom().contains(address@)
                    && self.reservations_view()[address@] == v,
                None => !self.reservations_view().dom().contains(address@),
            },
    {
        proof {
            use_type_invariant(self);
            lemma_lookup(self.reservations@, address@);
        }
        match find_key(&self.reservations, address) {
            Some(i) => Some(self.reservations[i].1.clone()),
            None => None,
        }
    }

    /// Discovered capabilities for a specific GPU, if any.
    pub fn capabilities_for(&self, device_address: &str) -> (r: Option<&GpuCapabilities>)
        ensures
            match r {
                Some(c) => self.caps_view().dom().contains(device_address@)
                    && self.caps_view()[device_address@] == *c,
                None => !self.caps_view().dom().contains(device_address@),
            },
    {
        proof {
            use_type_invariant(self);
            lemma_lookup(self.gpu_capabilities@, device_address@);
        }
        match find_key(&self.gpu_capabilities, device_address) {
            Some(i) => Some(&self.gpu_capabilities[i].1),
            None => None,
        }
    }

    /// Whether any GPU's capabilities record the RTX 50-series generation.
    pub fn any_blackwell_gpus(&self) -> (r: bool)
        ensures
            r == exists|k: Seq<char>|
                #![trigger self.caps_view()[k]]
                self.caps_view().dom().contains(k) && self.caps_view()[k].generation == Some(
                    GpuGeneration::Blackwell,
                ),
    {
        proof {
            use_type_invariant(self);
        }
        let mut i: usize = 0;
        while i < self.gpu_capabilities.len()
            invariant
                i <= self.gpu_capabilities.len(),
                keys_distinct(self.gpu_capabilities@),
                forall|j: int|
                    0 <= j < i ==> #[trigger] self.gpu_capabilities@[j].1.generation != Some(
                        GpuGeneration::Blackwell,
                    ),
            decreases self.gpu_capabilities.len() - i,
        {
            let is_blackwell = match self.gpu_capabilities[i].1.generation {
                Some(GpuGeneration::Blackwell) => true,
                _ => false,
            };
            if is_blackwell {
                proof {
                    lemma_pmap_at(self.gpu_capabilities@, i as int);
                    let k = self.gpu_capabilities@[i as int].0@;
                    assert(self.caps_view()[k].generation == Some(GpuGeneration::Blackwell));
                }
                return true;
            }
            i += 1;
        }
        proof {
            assert forall|k: Seq<char>| #[trigger]
                self.caps_view().dom().contains(k) implies self.caps_view()[k].generation != Some(
                GpuGeneration::Blackwell,
            ) by {
                lemma_pmap_dom(self.gpu_capabilities@, k);
                let j = choose|j: int|
                    0 <= j < self.gpu_capabilities@.len() && #[trigger] self.gpu_capabilities@[j].0@
                        == k;
                lemma_pmap_at(self.gpu_capabilities@, j);
            }
        }
        false
    }

    /// The current binding snapshot of the first GPU at `address`.
    pub fn binding_info(&self, address: &str) -> (r: Option<DeviceBindingInfo>)
        ensures
            match first_gpu(self.gpus_view(), address@) {
                Some(i) => r matches Some(b) && b.driver == self.gpus_view()[i].driver && b.in_use
                    == self.gpus_view()[i].in_use && match b.reserved_for {
                    Some(v) => self.reservations_view().dom().contains(address@)
                        && self.reservations_view()[address@] == v,
                    None => !self.reservations_view().dom().contains(address@),
                },
                None => r is None,
            },
    {
        match find_gpu(&self.gpus, address) {
            Some(i) => Some(
                DeviceBindingInfo {
                    driver: clone_opt(&self.gpus[i].driver),
                    in_use: self.gpus[i].in_use,
                    reserved_for: self.reserved_for(address),
                },
            ),
            None => None,
        }
    }

    /// Re-reads the driver binding of every GPU from a snapshot of
    /// (device address, driver name) pairs.
    pub fn refresh_device_status(&mut self, drivers: &Vec<(String, String)>)
        ensures
            final(self).gpus_view() == old(self).gpus_view().map_values(
                |d: PciDevice| refreshed(d, drivers@),
            ),
            final(self).groups_view() == old(self).groups_view(),
            final(self).reservations_view() == old(self).reservations_view(),
            final(self).caps_view() == old(self).caps_view(),
            final(self).nvbind_view() == old(self).nvbind_view(),
            final(self).config_view() == old(self).config_view(),
            final(self).discovered_view() == old(self).discovered_view(),
    {
        proof {
            use_type_invariant(&*self);
        }
        let mut gpus = Vec::new();
        std::mem::swap(&mut gpus, &mut self.gpus);
        let ghost g0 = gpus@;
        let mut out: Vec<PciDevice> = Vec::new();
        let mut i: usize = 0;
        while i < gpus.len()
            invariant
                gpus@ == g0,
                i <= gpus.len(),
                out@ == g0.take(i as int).map_values(|d: PciDevice| refreshed(d, drivers@)),
            decreases gpus.len() - i,
        {
            let mut d = gpus[i].duplicate();
            let drv = driver_lookup(drivers, d.address.as_str());
            let in_use = match &drv {
                Some(x) => !str_eq(x.as_str(), "vfio-pci"),
                None => false,
            };
            d.driver = drv;
            d.in_use = in_use;
            out.push(d);
            assert(g0.take(i + 1).map_values(|d: PciDevice| refreshed(d, drivers@)) =~= g0.take(
                i as int,
            ).map_values(|d: PciDevice| refreshed(d, drivers@)).push(refreshed(g0[i as int], drivers@)));
            i += 1;
        }
        assert(g0.take(g0.len() as int) =~= g0);
        self.gpus = out;
    }
}


/// "GPU <addr> not found".
pub open spec fn gpu_not_found_msg(a: Seq<char>) -> Seq<char> {
    "GPU "@ + a + " not found"@
}

/// "GPU <addr> is already reserved by VM '<vm>'".
pub open spec fn gpu_reserved_msg(a: Seq<char>, vm: Seq<char>) -> Seq<char> {
    "GPU "@ + a + " is already reserved by VM '"@ + vm + "'"@
}

/// `r` is a configuration error with text `m`.
pub open spec fn is_config_error(r: Result<(), NovaError>, m: Seq<char>) -> bool {
    r matches Err(NovaError::ConfigError(x)) && x@ == m
}

fn not_found_error(a: &str) -> (e: NovaError)
    ensures
        e matches NovaError::ConfigError(x) && x@ == gpu_not_found_msg(a@),
{
    NovaError::ConfigError(cat(cat("GPU ", a).as_str(), " not found"))
}

/// A host step as the manager reports it: a failed step (a sysfs write
/// that could not be made) is `SystemCommandFailed`.
pub open spec fn host_step(outcome: Result<(), NovaError>) -> Result<(), NovaError> {
    match outcome {
        Ok(_) => Ok(()),
        Err(_) => Err(NovaError::SystemCommandFailed),
    }
}

fn host_step_exec(outcome: Result<(), NovaError>) -> (r: Result<(), NovaError>)
    ensures
        r == host_step(outcome),
{
    match outcome {
        Ok(_) => Ok(()),
        Err(_) => Err(NovaError::SystemCommandFailed),
    }
}

impl GpuManager {
    /// Whether a passthrough of `address` may go ahead: the GPU must be known
    /// and not reserved.
    pub fn check_passthrough(&self, device_address: &str) -> (r: Result<(), NovaError>)
        ensures
            first_gpu(self.gpus_view(), device_address@) is None ==> is_config_error(
                r,
                gpu_not_found_msg(device_address@),
            ),
            first_gpu(self.gpus_view(), device_address@) is Some && self.reservations_view().dom().contains(
                device_address@,
            ) ==> is_config_error(
                r,
                gpu_reserved_msg(device_address@, self.reservations_view()[device_address@]@),
            ),
            first_gpu(self.gpus_view(), device_address@) is Some
                && !self.reservations_view().dom().contains(device_address@) ==> r is Ok,
    {
        if find_gpu(&self.gpus, device_address).is_none() {
            return Err(not_found_error(device_address));
        }
        match self.reserved_for(device_address) {
            Some(vm) => {
                let m = cat(
                    cat(cat("GPU ", device_address).as_str(), " is already reserved by VM '").as_str(),
                    vm.as_str(),
                );
                Err(NovaError::ConfigError(cat(m.as_str(), "'")))
            },
            None => Ok(()),
        }
    }

    /// The sysfs writes that bind `device_address` to vfio-pci.
    pub fn vfio_bind_plan(&self, device_address: &str) -> (r: VfioBindPlan)
        ensures
            r.unbind_path@ == "/sys/bus/pci/devices/"@ + device_address@ + "/driver/unbind"@,
            r.unbind_value@ == device_address@,
            match first_gpu(self.gpus_view(), device_address@) {
                Some(i) => r.new_id matches Some(p) && p.0@ == "/sys/bus/pci/drivers/vfio-pci/new_id"@
                    && p.1@ == self.gpus_view()[i].vendor_id@ + " "@
                    + self.gpus_view()[i].device_id@,
                None => r.new_id is None,
            },
    {
        let unbind_path = cat(
            cat("/sys/bus/pci/devices/", device_address).as_str(),
            "/driver/unbind",
        );
        let new_id = match find_gpu(&self.gpus, device_address) {
            Some(i) => Some(
                (
                    "/sys/bus/pci/drivers/vfio-pci/new_id".to_owned(),
                    cat(cat(self.gpus[i].vendor_id.as_str(), " ").as_str(), self.gpus[i].device_id.as_str()),
                ),
            ),
            None => None,
        };
        VfioBindPlan { unbind_path, unbind_value: owned(device_address), new_id }
    }

    /// Records that `device_address` is passed through to `vm_name`, given the
    /// outcomes of releasing its driver and binding it to vfio-pci. The checks
    /// of `check_passthrough` come first; a failed host step is a failed
    /// system command.
    /// Only on success is the reservation added.
    pub fn configure_passthrough(
        &mut self,
        device_address: &str,
        vm_name: &str,
        unbind: Result<(), NovaError>,
        bind: Result<(), NovaError>,
    ) -> (r: Result<(), NovaError>)
        ensures
            first_gpu(old(self).gpus_view(), device_address@) is None ==> is_config_error(
                r,
                gpu_not_found_msg(device_address@),
            ),
            first_gpu(old(self).gpus_view(), device_address@) is Some
                && old(self).reservations_view().dom().contains(device_address@)
                ==> is_config_error(
                r,
                gpu_reserved_msg(
                    device_address@,
                    old(self).reservations_view()[device_address@]@,
                ),
            ),
            first_gpu(old(self).gpus_view(), device_address@) is Some
                && !old(self).reservations_view().dom().contains(device_address@) ==> match (
                unbind,
                bind,
            ) {
                (Err(_), _) => r == Err::<(), NovaError>(NovaError::SystemCommandFailed),
                (Ok(_), Err(_)) => r == Err::<(), NovaError>(NovaError::SystemCommandFailed),
                (Ok(_), Ok(_)) => r is Ok,
            },
            r is Ok ==> final(self).reservations_view().dom().contains(device_address@)
                && final(self).reservations_view()[device_address@]@ == vm_name@
                && final(self).reservations_view().remove(device_address@)
                == old(self).reservations_view(),
            r is Err ==> final(self).reservations_view() == old(self).reservations_view(),
            final(self).gpus_view() == old(self).gpus_view(),
            final(self).groups_view() == old(self).groups_view(),
            final(self).caps_view() == old(self).caps_view(),
            final(self).nvbind_view() == old(self).nvbind_view(),
            final(self).config_view() == old(self).config_view(),
            final(self).discovered_view() == old(self).discovered_view(),
    {
        proof {
            use_type_invariant(&*self);
        }
        self.check_passthrough(device_address)?;
        host_step_exec(unbind)?;
        host_step_exec(bind)?;
        let entry = (owned(device_address), owned(vm_name));
        proof {
            lemma_push_new(self.reservations@, entry);
        }
        let mut res = Vec::new();
        std::mem::swap(&mut res, &mut self.reservations);
        res.push(entry);
        self.reservations = res;
        assert(pmap(self.reservations@).remove(device_address@) =~= pmap(
            old(self).reservations@,
        ));
        Ok(())
    }

    /// Binds `device_address` to vfio-pci without reserving it: the outcome
    /// of releasing its driver, the GPU lookup, then the outcome of the bind,
    /// decide (a failed host step is a failed system command); on success
    /// the binding state is re-read from `drivers`.
    pub fn bind_device_to_vfio(
        &mut self,
        device_address: &str,
        unbind: Result<(), NovaError>,
        bind: Result<(), NovaError>,
        drivers: &Vec<(String, String)>,
    ) -> (r: Result<(), NovaError>)
        ensures
            unbind is Err ==> r == Err::<(), NovaError>(NovaError::SystemCommandFailed),
            unbind is Ok && first_gpu(old(self).gpus_view(), device_address@) is None
                ==> is_config_error(r, gpu_not_found_msg(device_address@)),
            unbind is Ok && first_gpu(old(self).gpus_view(), device_address@) is Some ==> r
                == host_step(bind),
            r is Ok ==> final(self).gpus_view() == old(self).gpus_view().map_values(
                |d: PciDevice| refreshed(d, drivers@),
            ),
            r is Err ==> final(self).gpus_view() == old(self).gpus_view(),
            final(self).reservations_view() == old(self).reservations_view(),
            final(self).groups_view() == old(self).groups_view(),
            final(self).caps_view() == old(self).caps_view(),
    {
        host_step_exec(unbind)?;
        if find_gpu(&self.gpus, device_address).is_none() {
            return Err(not_found_error(device_address));
        }
        host_step_exec(bind)?;
        self.refresh_device_status(drivers);
        Ok(())
    }

    /// Releases a GPU from passthrough, given the outcome of releasing it
    /// from vfio-pci (a failed release is a failed system command): on
    /// success its reservation is dropped and the binding state is re-read
    /// from `drivers`.
    pub fn release_gpu(
        &mut self,
        device_address: &str,
        unbind: Result<(), NovaError>,
        drivers: &Vec<(String, String)>,
    ) -> (r: Result<(), NovaError>)
        ensures
            r == host_step(unbind),
            r is Ok ==> final(self).reservations_view() == old(self).reservations_view().remove(
                device_address@,
            ),
            r is Ok ==> final(self).gpus_view() == old(self).gpus_view().map_values(
                |d: PciDevice| refreshed(d, drivers@),
            ),
            r is Err ==> final(self).reservations_view() == old(self).reservations_view(),
            r is Err ==> final(self).gpus_view() == old(self).gpus_view(),
            final(self).groups_view() == old(self).groups_view(),
            final(self).caps_view() == old(self).caps_view(),
    {
        host_step_exec(unbind)?;
        self.remove_reservation(device_address);
        self.refresh_device_status(drivers);
        Ok(())
    }

    /// Releases a device from whatever driver holds it, without binding it to
    /// vfio-pci: the result is the outcome of that release (writing the
    /// address to the device's `driver/unbind` file, see `vfio_bind_plan`),
    /// a failed one being a failed system command.
    pub fn force_unbind_device(&self, device_address: &str, unbind: Result<(), NovaError>) -> (r: Result<
        (),
        NovaError,
    >)
        ensures
            r == host_step(unbind),
    {
        host_step_exec(unbind)
    }

    /// Returns a GPU to the host drivers, given the outcomes of releasing it
    /// and of asking the kernel to probe drivers for it (a failed step is a
    /// failed system command): on success its reservation is dropped and the
    /// binding state is re-read from `drivers`.
    pub fn reattach_device_driver(
        &mut self,
        device_address: &str,
        unbind: Result<(), NovaError>,
        probe: Result<(), NovaError>,
        drivers: &Vec<(String, String)>,
    ) -> (r: Result<(), NovaError>)
        ensures
            unbind is Err ==> r == Err::<(), NovaError>(NovaError::SystemCommandFailed),
            unbind is Ok ==> r == host_step(probe),
            r is Ok ==> final(self).reservations_view() == old(self).reservations_view().remove(
                device_address@,
            ),
            r is Ok ==> final(self).gpus_view() == old(self).gpus_view().map_values(
                |d: PciDevice| refreshed(d, drivers@),
            ),
            r is Err ==> final(self).reservations_view() == old(self).reservations_view(),
            r is Err ==> final(self).gpus_view() == old(self).gpus_view(),
    {
        host_step_exec(unbind)?;
        host_step_exec(probe)?;
        self.remove_reservation(device_address);
        self.refresh_device_status(drivers);
        Ok(())
    }

    fn remove_reservation(&mut self, device_address: &str)
        ensures
            final(self).reservations_view() == old(self).reservations_view().remove(
                device_address@,
            ),
            final(self).gpus_view() == old(self).gpus_view(),
            final(self).groups_view() == old(self).groups_view(),
            final(self).caps_view() == old(self).caps_view(),
            final(self).nvbind_view() == old(self).nvbind_view(),
            final(self).config_view() == old(self).config_view(),
            final(self).discovered_view() == old(self).discovered_view(),
    {
        proof {
            use_type_invariant(&*self);
            lemma_lookup(self.reservations@, device_address@);
        }
        match find_key(&self.reservations, device_address) {
            Some(i) => {
                proof {
                    lemma_remove_at(self.reservations@, i as int);
                }
                let mut res = Vec::new();
                std::mem::swap(&mut res, &mut self.reservations);
                res.remove(i);
                self.reservations = res;
            },
            None => {
                assert(pmap(self.reservations@).remove(device_address@) =~= pmap(
                    self.reservations@,
                ));
            },
        }
    }
}

/// Reserving a free GPU and then releasing it (by `release_gpu` or
/// `reattach_device_driver`) leaves the reservations as they were before.
pub proof fn law_release_undoes_reservation(
    before: Map<Seq<char>, String>,
    reserved: Map<Seq<char>, String>,
    after: Map<Seq<char>, String>,
    address: Seq<char>,
)
    requires
        !before.dom().contains(address),
        reserved.dom().contains(address),
        reserved.remove(address) == before,
        after == reserved.remove(address),
    ensures
        after == before,
{
}

/// Once a GPU is reserved for a VM, asking to reserve it again is refused
/// with an error naming that VM, and the reservations stay as they are.
pub proof fn law_reserved_gpu_is_refused(
    reserved: Map<Seq<char>, String>,
    address: Seq<char>,
    vm: Seq<char>,
    r: Result<(), NovaError>,
)
    requires
        reserved.dom().contains(address),
        reserved[address]@ == vm,
        is_config_error(r, gpu_reserved_msg(address, reserved[address]@)),
    ensures
        is_config_error(r, gpu_reserved_msg(address, vm)),
        r is Err,
{
}

/// Releasing a GPU that holds no reservation leaves the reservations as
/// they are.
pub proof fn law_release_of_free_gpu_keeps_reservations(
    before: Map<Seq<char>, String>,
    after: Map<Seq<char>, String>,
    address: Seq<char>,
)
    requires
        !before.dom().contains(address),
        after == before.remove(address),
    ensures
        after == before,
{
    assert(before.remove(address) =~= before);
}


/// The VFIO kernel modules passthrough needs.
pub open spec fn vfio_modules() -> Seq<Seq<char>> {
    seq!["vfio"@, "vfio_pci"@, "vfio_iommu_type1"@]
}

/// The VFIO modules, in order, that are not among the loaded ones.
pub open spec fn missing_modules(loaded: Seq<Seq<char>>) -> Seq<Seq<char>> {
    vfio_modules().filter(|m: Seq<char>| !loaded.contains(m))
}

/// The number of viable IOMMU groups.
pub open spec fn viable_count(g: Seq<IommuGroup>) -> nat {
    g.filter(|x: IommuGroup| x.viable_for_passthrough).len()
}

/// The issues `check_system_requirements` reports, in order.
pub open spec fn issues_of(
    config: GpuSystemConfig,
    gpus: Seq<PciDevice>,
    groups: Seq<IommuGroup>,
    any_blackwell: bool,
) -> Seq<Seq<char>> {
    (if !config.iommu_enabled {
        seq!["IOMMU not enabled in kernel parameters"@]
    } else {
        Seq::empty()
    }) + (if !config.vfio_enabled {
        seq!["VFIO module not loaded"@]
    } else {
        Seq::empty()
    }) + (if gpus.len() == 0 {
        seq!["No GPUs detected on the system"@]
    } else {
        Seq::empty()
    }) + (if viable_count(groups) == 0 {
        seq!["No viable IOMMU groups for GPU passthrough"@]
    } else {
        Seq::empty()
    }) + (if any_blackwell {
        seq![blackwell_notice()]
    } else {
        Seq::empty()
    })
}

pub open spec fn blackwell_notice() -> Seq<char> {
    "RTX 50-series detected \u{2014} ensure NVIDIA driver 560+, Linux kernel 6.9+, and TCC mode for low-latency consoles (Looking Glass)."@
}

/// Whether a text occurs among the strings.
pub fn contains_text(v: &Vec<String>, t: &str) -> (r: bool)
    ensures
        r == crate::text::views(v@).contains(t@),
{
    let mut i: usize = 0;
    while i < v.len()
        invariant
            i <= v.len(),
            forall|j: int| 0 <= j < i ==> v@[j]@ != t@,
        decreases v.len() - i,
    {
        if str_eq(v[i].as_str(), t) {
            assert(crate::text::views(v@)[i as int] == t@);
            return true;
        }
        i += 1;
    }
    proof {
        if crate::text::views(v@).contains(t@) {
            let j = choose|j: int| 0 <= j < v@.len() && crate::text::views(v@)[j] == t@;
            assert(v@[j]@ == t@);
        }
    }
    false
}

pub fn count_viable_groups(g: &[IommuGroup]) -> (r: usize)
    ensures
        r == viable_count(g@),
{
    let mut n: usize = 0;
    let mut i: usize = 0;
    while i < g.len()
        invariant
            i <= g.len(),
            n == viable_count(g@.take(i as int)),
            n <= i,
        decreases g.len() - i,
    {
        proof {
            reveal_with_fuel(Seq::<_>::filter, 1);
            assert(g@.take(i + 1).drop_last() =~= g@.take(i as int));
        }
        if g[i].viable_for_passthrough {
            n += 1;
        }
        i += 1;
    }
    assert(g@.take(g@.len() as int) =~= g@);
    n
}

/// The VFIO kernel modules, in the order they are loaded.
pub fn vfio_module_names() -> (r: Vec<String>)
    ensures
        crate::text::views(r@) == vfio_modules(),
{
    let r: Vec<String> = vec!["vfio".to_owned(), "vfio_pci".to_owned(), "vfio_iommu_type1".to_owned()];
    assert(crate::text::views(r@) =~= vfio_modules());
    r
}

impl GpuManager {
    /// The VFIO modules that are not loaded, given the names under `/sys/module`.
    pub fn missing_vfio_modules(&self, loaded: &Vec<String>) -> (r: Vec<String>)
        ensures
            crate::text::views(r@) == missing_modules(crate::text::views(loaded@)),
    {
        let ghost l = crate::text::views(loaded@);
        let mut r: Vec<String> = Vec::new();
        if !contains_text(loaded, "vfio") {
            r.push("vfio".to_owned());
        }
        if !contains_text(loaded, "vfio_pci") {
            r.push("vfio_pci".to_owned());
        }
        if !contains_text(loaded, "vfio_iommu_type1") {
            r.push("vfio_iommu_type1".to_owned());
        }
        proof {
            reveal_with_fuel(Seq::<_>::filter, 4);
            let p = |m: Seq<char>| !l.contains(m);
            assert(vfio_modules().drop_last().drop_last().drop_last() =~= Seq::<Seq<char>>::empty());
            assert(vfio_modules().drop_last().drop_last() =~= seq!["vfio"@]);
            assert(vfio_modules().drop_last() =~= seq!["vfio"@, "vfio_pci"@]);
            assert(crate::text::views(r@) =~= missing_modules(l));
        }
        r
    }

    /// Whether every VFIO module is loaded.
    pub fn vfio_modules_ready(&self, loaded: &Vec<String>) -> (r: bool)
        ensures
            r == (missing_modules(crate::text::views(loaded@)).len() == 0),
    {
        self.missing_vfio_modules(loaded).len() == 0
    }

    fn identify_issues(&self) -> (r: Vec<String>)
        ensures
            crate::text::views(r@) == issues_of(
                self.config_view(),
                self.gpus_view(),
                self.groups_view(),
                exists|k: Seq<char>|
                    #![trigger self.caps_view()[k]]
                    self.caps_view().dom().contains(k) && self.caps_view()[k].generation == Some(
                        GpuGeneration::Blackwell,
                    ),
            ),
    {
        let mut issues: Vec<String> = Vec::new();
        if !self.config.iommu_enabled {
            issues.push("IOMMU not enabled in kernel parameters".to_owned());
        }
        if !self.config.vfio_enabled {
            issues.push("VFIO module not loaded".to_owned());
        }
        if self.gpus.len() == 0 {
            issues.push("No GPUs detected on the system".to_owned());
        }
        if count_viable_groups(self.iommu_groups.as_slice()) == 0 {
            issues.push("No viable IOMMU groups for GPU passthrough".to_owned());
        }
        if self.any_blackwell_gpus() {
            issues.push(
                "RTX 50-series detected \u{2014} ensure NVIDIA driver 560+, Linux kernel 6.9+, and TCC mode for low-latency consoles (Looking Glass).".to_owned(),
            );
        }
        assert(crate::text::views(issues@) =~= issues_of(
            self.config_view(),
            self.gpus_view(),
            self.groups_view(),
            exists|k: Seq<char>|
                #![trigger self.caps_view()[k]]
                self.caps_view().dom().contains(k) && self.caps_view()[k].generation == Some(
                    GpuGeneration::Blackwell,
                ),
        ));
        issues
    }

    /// Readiness of the host for GPU passthrough, given the names under
    /// `/sys/module`.
    pub fn check_system_requirements(&self, loaded_modules: &Vec<String>) -> (r: GpuSystemStatus)
        ensures
            r.iommu_enabled == self.config_view().iommu_enabled,
            r.vfio_available == self.config_view().vfio_enabled,
            r.gpus_detected == (self.gpus_view().len() > 0),
            r.nvbind_available == self.nvbind_view(),
            r.kernel_modules_loaded == (missing_modules(crate::text::views(loaded_modules@)).len()
                == 0),
            crate::text::views(r.issues@) == issues_of(
                self.config_view(),
                self.gpus_view(),
                self.groups_view(),
                exists|k: Seq<char>|
                    #![trigger self.caps_view()[k]]
                    self.caps_view().dom().contains(k) && self.caps_view()[k].generation == Some(
                        GpuGeneration::Blackwell,
                    ),
            ),
    {
        GpuSystemStatus {
            iommu_enabled: self.config.iommu_enabled,
            vfio_available: self.config.vfio_enabled,
            gpus_detected: self.gpus.len() > 0,
            nvbind_available: self.nvbind_available,
            kernel_modules_loaded: self.vfio_modules_ready(loaded_modules),
            issues: self.identify_issues(),
        }
    }
}

/// The address cannot be sliced for its domain: it has three ':'-separated
/// parts, but the first has no prefix of exactly four bytes.
pub open spec fn xml_address_panics(a: Seq<char>) -> bool {
    let parts = split_char(a, ':');
    parts.len() == 3 && !has_byte_prefix(parts[0], 4)
}

/// Whether a device address can go into a libvirt definition without the
/// domain slice failing (see `xml_address_panics`).
pub fn xml_address_is_sliceable(address: &str) -> (r: bool)
    ensures
        r == !xml_address_panics(address@),
{
    let parts = split_exec(address, ':');
    if parts.len() != 3 {
        return true;
    }
    assert(parts@[0]@ == split_char(address@, ':')[0]);
    byte_prefix_exec(parts[0].as_str(), 4).is_some()
}

/// The `<address .../>` line for the parts of a PCI address.
pub open spec fn xml_address_line(parts: Seq<Seq<char>>) -> Seq<char> {
    let sf = split_char(parts[2], '.');
    let function = if sf.len() > 1 {
        sf[1]
    } else {
        "0"@
    };
    "        <address domain='0x"@ + byte_prefix(parts[0], 4) + "' bus='0x"@ + parts[1]
        + "' slot='0x"@ + sf[0] + "' function='0x"@ + function + "'/>\n"@
}

/// The hostdev XML for a passthrough configuration whose address has three parts.
pub open spec fn libvirt_xml(c: GpuPassthroughConfig) -> Seq<char> {
    let parts = split_char(c.device_address@, ':');
    "    <hostdev mode='subsystem' type='pci' managed='yes'>\n"@ + "      <source>\n"@
        + xml_address_line(parts) + "      </source>\n"@ + match c.romfile {
        Some(f) => "      <rom file='"@ + f@ + "'/>\n"@,
        None => Seq::empty(),
    } + "    </hostdev>\n"@ + match c.audio_device {
        Some(_) => "    <hostdev mode='subsystem' type='pci' managed='yes'>\n"@
            + "      <source>\n"@
            + "        <address domain='0x0000' bus='0x01' slot='0x00' function='0x1'/>\n"@
            + "      </source>\n"@ + "    </hostdev>\n"@,
        None => Seq::empty(),
    }
}

/// For an address `D:B:S.F` the hostdev XML holds the address element of that
/// device: domain `0x` and the first four bytes of `D`, then bus `0x` and `B`,
/// then slot `0x` and `S` (the part before the first '.'), then the function.
pub proof fn law_xml_address_fields(c: GpuPassthroughConfig)
    requires
        split_char(c.device_address@, ':').len() == 3,
    ensures
        ({
            let parts = split_char(c.device_address@, ':');
            contains(
                libvirt_xml(c),
                "        <address domain='0x"@ + byte_prefix(parts[0], 4) + "' bus='0x"@ + parts[1]
                    + "' slot='0x"@ + split_char(parts[2], '.')[0] + "' function='0x"@,
            )
        }),
{
    let parts = split_char(c.device_address@, ':');
    let sf = split_char(parts[2], '.');
    let function = if sf.len() > 1 {
        sf[1]
    } else {
        "0"@
    };
    let t = "        <address domain='0x"@ + byte_prefix(parts[0], 4) + "' bus='0x"@ + parts[1]
        + "' slot='0x"@ + sf[0] + "' function='0x"@;
    let a = "    <hostdev mode='subsystem' type='pci' managed='yes'>\n"@ + "      <source>\n"@;
    let rom = match c.romfile {
        Some(f) => "      <rom file='"@ + f@ + "'/>\n"@,
        None => Seq::empty(),
    };
    let audio = match c.audio_device {
        Some(_) => "    <hostdev mode='subsystem' type='pci' managed='yes'>\n"@
            + "      <source>\n"@
            + "        <address domain='0x0000' bus='0x01' slot='0x00' function='0x1'/>\n"@
            + "      </source>\n"@ + "    </hostdev>\n"@,
        None => Seq::empty(),
    };
    let b = function + "'/>\n"@ + "      </source>\n"@ + rom + "    </hostdev>\n"@ + audio;
    let xml = libvirt_xml(c);
    assert(xml =~= a + t + b);
    assert(xml.subrange(a.len() as int, (a.len() + t.len()) as int) =~= t);
    assert(crate::text::has_at(xml, t, a.len() as int));
    lemma_find_from(xml, t, 0);
}

impl GpuManager {
    /// Libvirt `<hostdev>` XML for a passthrough configuration. An address
    /// that is not three ':'-separated parts gives a configuration error.
    pub fn generate_libvirt_xml(&self, config: &GpuPassthroughConfig) -> (r: Result<
        String,
        NovaError,
    >)
        requires
            !xml_address_panics(config.device_address@),
        ensures
            split_char(config.device_address@, ':').len() != 3 ==> (r matches Err(
                NovaError::ConfigError(m),
            ) && m@ == "Invalid PCI address format"@),
            split_char(config.device_address@, ':').len() == 3 ==> (r matches Ok(x) && x@
                == libvirt_xml(*config)),
    {
        let ghost a = config.device_address@;
        let mut xml = "    <hostdev mode='subsystem' type='pci' managed='yes'>\n".to_owned();
        xml.append("      <source>\n");
        let parts = split_exec(config.device_address.as_str(), ':');
        if parts.len() != 3 {
            return Err(NovaError::ConfigError("Invalid PCI address format".to_owned()));
        }
        assert(parts@[0]@ == split_char(a, ':')[0]);
        let domain = match byte_prefix_exec(parts[0].as_str(), 4) {
            Some(d) => d,
            None => {
                assert(false);
                String::new()
            },
        };
        let slot_func = split_exec(parts[2].as_str(), '.');
        let function = if slot_func.len() > 1 {
            slot_func[1].clone()
        } else {
            "0".to_owned()
        };
        let mut line = cat("        <address domain='0x", domain.as_str());
        line.append("' bus='0x");
        line.append(parts[1].as_str());
        line.append("' slot='0x");
        line.append(slot_func[0].as_str());
        line.append("' function='0x");
        line.append(function.as_str());
        line.append("'/>\n");
        assert(line@ =~= xml_address_line(split_char(a, ':')));
        xml.append(line.as_str());
        xml.append("      </source>\n");
        let ghost before_rom = xml@;
        if let Some(romfile) = &config.romfile {
            xml.append("      <rom file='");
            xml.append(romfile.as_str());
            xml.append("'/>\n");
        }
        xml.append("    </hostdev>\n");
        if config.audio_device.is_some() {
            xml.append("    <hostdev mode='subsystem' type='pci' managed='yes'>\n");
            xml.append("      <source>\n");
            xml.append("        <address domain='0x0000' bus='0x01' slot='0x00' function='0x1'/>\n");
            xml.append("      </source>\n");
            xml.append("    </hostdev>\n");
        }
        assert(xml@ =~= libvirt_xml(*config));
        Ok(xml)
    }
}

/// The contents of the last bracketed group among the first `n` pieces of
/// a line split at `[` (the piece before the first `[` is no group) whose
/// text, up to its `]`, holds a `:`.
pub open spec fn last_colon_group(pieces: Seq<Seq<char>>, n: int) -> Option<Seq<char>>
    decreases n,
{
    if n <= 1 || n > pieces.len() {
        None
    } else {
        let g = split_char(pieces[n - 1], ']')[0];
        if contains(g, ":"@) {
            Some(g)
        } else {
            last_colon_group(pieces, n - 1)
        }
    }
}

/// Vendor and device ids from the `[vvvv:dddd]` group of an lspci line: the
/// last bracketed group that holds a `:` (so a class code such as `[0300]`
/// before it is passed over), when it holds exactly two `:`-separated parts.
pub open spec fn lspci_ids(line: Seq<char>) -> Option<(Seq<char>, Seq<char>)> {
    let pieces = split_char(line, '[');
    match last_colon_group(pieces, pieces.len() as int) {
        Some(g) => {
            let ids = split_char(g, ':');
            if ids.len() != 2 {
                None
            } else {
                Some((ids[0], ids[1]))
            }
        },
        None => None,
    }
}

/// Where the device description starts: after the first ": ".
pub open spec fn lspci_desc_start(line: Seq<char>) -> nat {
    find(line, ": "@).unwrap() + 2
}

/// Where the device description ends: at the first " [" after its start,
/// or the end of the line.
pub open spec fn lspci_desc_end(line: Seq<char>) -> nat {
    match find_from(line, " ["@, lspci_desc_start(line)) {
        Some(e) => e,
        None => line.len(),
    }
}

/// The line has an address, ids and a ": " before the description.
pub open spec fn lspci_line_parses(line: Seq<char>) -> bool {
    words(line).len() > 0 && lspci_ids(line) is Some && find(line, ": "@) is Some
}

/// The description part of a parsing lspci line.
pub open spec fn lspci_desc(line: Seq<char>) -> Seq<char> {
    line.subrange(lspci_desc_start(line) as int, lspci_desc_end(line) as int)
}

/// `d` is the device that a parsing lspci line describes, with its driver
/// taken from the snapshot.
pub open spec fn lspci_device(
    line: Seq<char>,
    drivers: Seq<(String, String)>,
    group: Option<u32>,
    d: PciDevice,
) -> bool {
    let desc = lspci_desc(line);
    &&& d.address@ == words(line)[0]
    &&& d.vendor_id@ == lspci_ids(line).unwrap().0
    &&& d.device_id@ == lspci_ids(line).unwrap().1
    &&& d.vendor_name@ == match rfind_char(desc, '[') {
        Some(pos) => trim(desc.take(pos as int)),
        None => "Unknown"@,
    }
    &&& d.device_name@ == desc
    &&& d.iommu_group == group
    &&& d.driver == driver_in(drivers, words(line)[0])
    &&& !d.in_use
}

fn last_colon_group_exec(pieces: &Vec<String>) -> (r: Option<String>)
    ensures
        opt_view(r) == last_colon_group(crate::text::views(pieces@), pieces.len() as int),
{
    let ghost pv = crate::text::views(pieces@);
    let mut n = pieces.len();
    while n > 1
        invariant
            pv == crate::text::views(pieces@),
            n <= pieces.len(),
            last_colon_group(pv, pieces.len() as int) == last_colon_group(pv, n as int),
        decreases n,
    {
        let closing = split_exec(pieces[n - 1].as_str(), ']');
        assert(closing@[0]@ == split_char(pv[n - 1], ']')[0]);
        if str_contains(closing[0].as_str(), ":") {
            return Some(closing[0].clone());
        }
        n -= 1;
    }
    None
}

fn parse_lspci_line(line: &str, drivers: &Vec<(String, String)>) -> (r: Option<PciDevice>)
    ensures
        lspci_line_parses(line@) <==> r is Some,
        r matches Some(d) ==> lspci_device(line@, drivers@, None, d),
{
    let parts = words_exec(line);
    if parts.len() == 0 {
        return None;
    }
    let address = parts[0].clone();
    let pieces = split_exec(line, '[');
    let group = match last_colon_group_exec(&pieces) {
        Some(g) => g,
        None => {
            return None;
        },
    };
    let ids = split_exec(group.as_str(), ':');
    if ids.len() != 2 {
        return None;
    }
    let vendor_id = ids[0].clone();
    let device_id = ids[1].clone();
    let v = chars_of(line);
    let colon = chars_of(": ");
    let open = chars_of(" [");
    proof {
        lemma_find_from(v@, colon@, 0);
        reveal_strlit(": ");
        reveal_strlit(" [");
        assert(colon@.len() == 2);
        assert(open@.len() == 2);
    }
    let total = v.len();
    let desc_start = match find_exec(&v, &colon) {
        Some(k) => {
            assert(crate::text::has_at(v@, colon@, k as int));
            assert(k + 2 <= total);
            k + 2
        },
        None => {
            return None;
        },
    };
    proof {
        lemma_find_from(v@, open@, desc_start as nat);
    }
    let desc_end = match find_from_exec(&v, &open, desc_start) {
        Some(e) => {
            assert(crate::text::has_at(v@, open@, e as int));
            e
        },
        None => v.len(),
    };
    let description = string_of(&v, desc_start, desc_end);
    let dv = chars_of(description.as_str());
    let vendor_name = match rfind_char_exec(&dv, '[') {
        Some(pos) => {
            proof {
                lemma_rfind_bound(dv@, '[');
            }
            let head = string_of(&dv, 0, pos);
            assert(head@ =~= dv@.take(pos as int));
            trim_str(head.as_str())
        },
        None => "Unknown".to_owned(),
    };
    let driver = driver_lookup(drivers, address.as_str());
    Some(
        PciDevice {
            address,
            vendor_id,
            device_id,
            vendor_name,
            device_name: description,
            iommu_group: None,
            driver,
            in_use: false,
        },
    )
}

/// The line names a display adapter.
pub open spec fn is_gpu_line(l: Seq<char>) -> bool {
    contains(l, "VGA compatible controller"@) || contains(l, "3D controller"@) || contains(
        l,
        "Display controller"@,
    )
}

/// `g` lists, in order, the devices of the display-adapter lines among `ls`
/// that parse.
pub open spec fn gpus_from_lines(
    ls: Seq<Seq<char>>,
    drivers: Seq<(String, String)>,
    links: Option<Seq<(String, String)>>,
    g: Seq<PciDevice>,
) -> bool
    decreases ls.len(),
{
    if ls.len() == 0 {
        g.len() == 0
    } else {
        let l = ls.last();
        if is_gpu_line(l) && lspci_line_parses(l) {
            g.len() > 0 && lspci_device(l, drivers, group_for(links, words(l)[0]), g.last())
                && gpus_from_lines(ls.drop_last(), drivers, links, g.drop_last())
        } else {
            gpus_from_lines(ls.drop_last(), drivers, links, g)
        }
    }
}

/// The IOMMU group of a device: the number its group link is named by, when
/// IOMMU groups exist and the link's name is one.
pub open spec fn group_for(links: Option<Seq<(String, String)>>, a: Seq<char>) -> Option<u32> {
    match links {
        Some(l) => match driver_in(l, a) {
            Some(n) => match parse_uint(n@, u32::MAX as nat) {
                Some(g) => Some(g as u32),
                None => None,
            },
            None => None,
        },
        None => None,
    }
}

fn gpus_from_lspci(out: &str, drivers: &Vec<(String, String)>) -> (g: Vec<PciDevice>)
    ensures
        gpus_from_lines(lines(out@), drivers@, None, g@),
{
    let ls = lines_exec(out);
    let ghost lv = lines(out@);
    let mut g: Vec<PciDevice> = Vec::new();
    let mut i: usize = 0;
    while i < ls.len()
        invariant
            crate::text::views(ls@) == lv,
            lv == lines(out@),
            i <= ls.len(),
            gpus_from_lines(lv.take(i as int), drivers@, None, g@),
        decreases ls.len() - i,
    {
        let line = &ls[i];
        assert(line@ == lv[i as int]);
        assert(lv.take(i + 1).drop_last() =~= lv.take(i as int));
        assert(lv.take(i + 1).last() == lv[i as int]);
        let is_gpu = str_contains(line.as_str(), "VGA compatible controller") || str_contains(
            line.as_str(),
            "3D controller",
        ) || str_contains(line.as_str(), "Display controller");
        if is_gpu {
            match parse_lspci_line(line.as_str(), drivers) {
                Some(d) => {
                    let ghost g0 = g@;
                    g.push(d);
                    assert(g@.drop_last() =~= g0);
                },
                None => {},
            }
        }
        i += 1;
    }
    assert(lv.take(ls.len() as int) =~= lv);
    g
}

/// Capabilities known per normalized device address.
pub type CapsMap = Map<Seq<char>, CapsView>;

/// What is known of a device (nothing when it has no entry yet).
pub open spec fn caps_at(m: CapsMap, k: Seq<char>) -> CapsView {
    if m.dom().contains(k) {
        m[k]
    } else {
        empty_caps()
    }
}

/// The stored records agree with the described map.
pub open spec fn caps_match(m: Map<Seq<char>, GpuCapabilities>, v: CapsMap) -> bool {
    &&& m.dom() == v.dom()
    &&& forall|k: Seq<char>| #[trigger] m.dom().contains(k) ==> m[k]@ == v[k]
}

/// An 8-bit number as `str::parse::<u8>` reads it.
pub open spec fn parse_u8(s: Seq<char>) -> Option<u8> {
    match parse_uint(s, 255) {
        Some(v) => Some(v as u8),
        None => None,
    }
}

/// The first word made only of decimal digits.
pub open spec fn first_digit_word(ws: Seq<Seq<char>>) -> Option<Seq<char>>
    decreases ws.len(),
{
    if ws.len() == 0 {
        None
    } else if all_digits(ws[0]) {
        Some(ws[0])
    } else {
        first_digit_word(ws.drop_first())
    }
}

/// The state of reading nvbind's text report.
pub struct NvState {
    pub caps: CapsMap,
    pub name: Option<Seq<char>>,
    pub addr: Option<Seq<char>>,
    pub mem: Option<u64>,
}

/// Records a finished nvbind entry that has both a name and an address.
pub open spec fn nv_flush(m: CapsMap, name: Option<Seq<char>>, addr: Option<Seq<char>>, mem: Option<
    u64,
>) -> CapsMap {
    match (name, addr) {
        (Some(n), Some(a)) => {
            let k = normalized_pci_address(a);
            let c0 = caps_at(m, k);
            let c1 = match mem {
                Some(x) => CapsView { vram_mb: Some(x), ..c0 },
                None => c0,
            };
            let c2 = match generation_of_name(n) {
                Some(g) => CapsView { generation: Some(g), ..c1 },
                None => c1,
            };
            let c3 = if c2.generation == Some(GpuGeneration::Blackwell) {
                with_blackwell(c2)
            } else {
                c2
            };
            m.insert(k, c3)
        },
        _ => m,
    }
}

/// One line of nvbind's report ("GPU 0: <name>", "PCI Address: <addr>",
/// the address being everything after the label's colon, trimmed,
/// "Memory: <n> MB", or a blank line that ends an entry).
pub open spec fn nv_step(st: NvState, line: Seq<char>) -> NvState {
    let t = trim(line);
    if t.len() == 0 {
        NvState { caps: nv_flush(st.caps, st.name, st.addr, st.mem), name: None, addr: None, mem: None }
    } else if starts_with(t, "GPU "@) {
        match find(t, seq![':']) {
            Some(c) => NvState { name: Some(trim(t.skip(c + 1int))), ..st },
            None => st,
        }
    } else if starts_with(t, "PCI Address:"@) {
        NvState { addr: Some(trim(t.skip(12))), ..st }
    } else if starts_with(t, "Memory:"@) && contains(t, "MB"@) {
        match first_digit_word(words(t)) {
            Some(w) => match parse_uint(w, u64::MAX as nat) {
                Some(v) => NvState { mem: Some(v as u64), ..st },
                None => st,
            },
            None => st,
        }
    } else {
        st
    }
}

pub open spec fn nv_fold(ls: Seq<Seq<char>>, m0: CapsMap) -> NvState
    decreases ls.len(),
{
    if ls.len() == 0 {
        NvState { caps: m0, name: None, addr: None, mem: None }
    } else {
        nv_step(nv_fold(ls.drop_last(), m0), ls.last())
    }
}

/// Capabilities after reading nvbind's report.
pub open spec fn nvbind_caps(out: Seq<char>, m0: CapsMap) -> CapsMap {
    let st = nv_fold(lines(out), m0);
    nv_flush(st.caps, st.name, st.addr, st.mem)
}

/// One CSV line of `nvidia-smi --query-gpu=pci.bus_id,name,memory.total,
/// pcie.link.gen.current,pcie.link.width.current,compute_cap`.
pub open spec fn smi_line(m: CapsMap, line: Seq<char>) -> CapsMap {
    let parts = split_char(line, ',').map_values(|p: Seq<char>| trim(p));
    if parts.len() < 6 {
        m
    } else {
        let k = normalized_pci_address(parts[0]);
        let c0 = caps_at(m, k);
        let mem = remove_all(remove_all(parts[2], " MiB"@), " MB"@);
        let c1 = CapsView { compute_capability: non_empty_value(parts[5]), ..c0 };
        let c2 = match parse_uint(mem, u64::MAX as nat) {
            Some(v) => CapsView { vram_mb: Some(v as u64), ..c1 },
            None => c1,
        };
        let c3 = CapsView {
            pcie_generation: parse_u8(parts[3]),
            pcie_lanes: parse_u8(parts[4]),
            ..c2
        };
        let c4 = match generation_of_name(parts[1]) {
            Some(g) => CapsView { generation: Some(g), ..c3 },
            None => c3,
        };
        let c5 = CapsView {
            tcc_supported: c4.generation == Some(GpuGeneration::AdaLovelace) || c4.generation
                == Some(GpuGeneration::Blackwell),
            ..c4
        };
        let c6 = if c5.generation == Some(GpuGeneration::Blackwell) {
            with_blackwell(c5)
        } else if c5.generation == Some(GpuGeneration::AdaLovelace)
            && c5.minimum_driver is None {
            CapsView { minimum_driver: Some("545.0"@), ..c5 }
        } else {
            c5
        };
        m.insert(k, c6)
    }
}

pub open spec fn smi_fold(ls: Seq<Seq<char>>, m0: CapsMap) -> CapsMap
    decreases ls.len(),
{
    if ls.len() == 0 {
        m0
    } else {
        smi_line(smi_fold(ls.drop_last(), m0), ls.last())
    }
}

/// Capabilities after reading nvidia-smi's CSV report.
pub open spec fn smi_caps(out: Seq<char>, m0: CapsMap) -> CapsMap {
    smi_fold(lines(out), m0)
}

fn caps_get(caps: &Vec<(String, GpuCapabilities)>, key: &str, Ghost(m): Ghost<CapsMap>) -> (r:
    GpuCapabilities)
    requires
        keys_distinct(caps@),
        caps_match(pmap(caps@), m),
    ensures
        r@ == caps_at(m, key@),
{
    proof {
        lemma_lookup(caps@, key@);
    }
    match find_key(caps, key) {
        Some(i) => caps[i].1.duplicate(),
        None => GpuCapabilities::default(),
    }
}

fn caps_set(
    caps: &mut Vec<(String, GpuCapabilities)>,
    key: String,
    c: GpuCapabilities,
    Ghost(m): Ghost<CapsMap>,
)
    requires
        keys_distinct(old(caps)@),
        caps_match(pmap(old(caps)@), m),
    ensures
        keys_distinct(final(caps)@),
        caps_match(pmap(final(caps)@), m.insert(key@, c@)),
{
    let ghost k = key@;
    let ghost cv = c@;
    put(caps, key, c);
    assert(pmap(caps@).dom() =~= m.insert(k, cv).dom());
}

fn first_digit_word_exec(ws: &Vec<String>) -> (r: Option<usize>)
    ensures
        match first_digit_word(crate::text::views(ws@)) {
            Some(w) => r matches Some(i) && i < ws.len() && ws@[i as int]@ == w,
            None => r is None,
        },
{
    let ghost vs = crate::text::views(ws@);
    let mut i: usize = 0;
    assert(vs.skip(0) =~= vs);
    while i < ws.len()
        invariant
            vs == crate::text::views(ws@),
            i <= ws.len(),
            first_digit_word(vs) == first_digit_word(vs.skip(i as int)),
        decreases ws.len() - i,
    {
        let cs = chars_of(ws[i].as_str());
        let mut all = true;
        let mut j: usize = 0;
        while j < cs.len()
            invariant
                j <= cs.len(),
                all == forall|x: int| 0 <= x < j ==> is_digit(#[trigger] cs@[x]),
            decreases cs.len() - j,
        {
            if !('0' <= cs[j] && cs[j] <= '9') {
                all = false;
            }
            j += 1;
        }
        assert(vs.skip(i as int)[0] == cs@);
        if all {
            return Some(i);
        }
        assert(vs.skip(i as int).drop_first() =~= vs.skip(i + 1));
        i += 1;
    }
    None
}

/// Reads nvbind's report into the capabilities.
fn parse_nvbind_info(
    caps: &mut Vec<(String, GpuCapabilities)>,
    info: &str,
    Ghost(m0): Ghost<CapsMap>,
)
    requires
        keys_distinct(old(caps)@),
        caps_match(pmap(old(caps)@), m0),
    ensures
        keys_distinct(final(caps)@),
        caps_match(pmap(final(caps)@), nvbind_caps(info@, m0)),
{
    let ls = lines_exec(info);
    let ghost lv = lines(info@);
    let mut name: Option<String> = None;
    let mut addr: Option<String> = None;
    let mut mem: Option<u64> = None;
    let ghost mut m = m0;
    let mut i: usize = 0;
    while i < ls.len()
        invariant
            crate::text::views(ls@) == lv,
            i <= ls.len(),
            keys_distinct(caps@),
            caps_match(pmap(caps@), m),
            nv_fold(lv.take(i as int), m0) == (NvState {
                caps: m,
                name: opt_view(name),
                addr: opt_view(addr),
                mem,
            }),
        decreases ls.len() - i,
    {
        assert(lv.take(i + 1).drop_last() =~= lv.take(i as int));
        assert(ls@[i as int]@ == lv[i as int]);
        let t = trim_str(ls[i].as_str());
        if t.unicode_len() == 0 {
            let ghost m1 = nv_flush(m, opt_view(name), opt_view(addr), mem);
            nv_flush_exec(caps, &name, &addr, mem, Ghost(m));
            proof {
                m = m1;
            }
            name = None;
            addr = None;
            mem = None;
        } else if str_starts_with(t.as_str(), "GPU ") {
            let tv = chars_of(t.as_str());
            let colon = chars_of(":");
            proof {
                reveal_strlit(":");
                assert(colon@ =~= seq![':']);
                lemma_find_from(tv@, colon@, 0);
            }
            match find_exec(&tv, &colon) {
                Some(c) => {
                    let rest = string_of(&tv, c + 1, tv.len());
                    assert(rest@ =~= t@.skip(c + 1));
                    name = Some(trim_str(rest.as_str()));
                },
                None => {},
            }
        } else if str_starts_with(t.as_str(), "PCI Address:") {
            let tv = chars_of(t.as_str());
            proof {
                reveal_strlit("PCI Address:");
            }
            let rest = string_of(&tv, 12, tv.len());
            assert(rest@ =~= t@.skip(12));
            addr = Some(trim_str(rest.as_str()));
        } else if str_starts_with(t.as_str(), "Memory:") && str_contains(t.as_str(), "MB") {
            let ws = words_exec(t.as_str());
            match first_digit_word_exec(&ws) {
                Some(w) => match parse_uint_exec(ws[w].as_str(), u64::MAX) {
                    Some(v) => {
                        mem = Some(v);
                    },
                    None => {},
                },
                None => {},
            }
        }
        i += 1;
    }
    assert(lv.take(ls.len() as int) =~= lv);
    nv_flush_exec(caps, &name, &addr, mem, Ghost(m));
}

fn nv_flush_exec(
    caps: &mut Vec<(String, GpuCapabilities)>,
    name: &Option<String>,
    addr: &Option<String>,
    mem: Option<u64>,
    Ghost(m): Ghost<CapsMap>,
)
    requires
        keys_distinct(old(caps)@),
        caps_match(pmap(old(caps)@), m),
    ensures
        keys_distinct(final(caps)@),
        caps_match(pmap(final(caps)@), nv_flush(m, opt_view(*name), opt_view(*addr), mem)),
{
    match (name, addr) {
        (Some(n), Some(a)) => {
            let key = normalize_pci_address(a.as_str());
            let mut c = caps_get(caps, key.as_str(), Ghost(m));
            if let Some(x) = mem {
                c.vram_mb = Some(x);
            }
            if let Some(g) = detect_gpu_generation(n.as_str()) {
                c.generation = Some(g);
            }
            let is_bw = match c.generation {
                Some(GpuGeneration::Blackwell) => true,
                _ => false,
            };
            if is_bw {
                apply_blackwell_requirements(&mut c);
            }
            caps_set(caps, key, c, Ghost(m));
        },
        _ => {},
    }
}

/// Reads nvidia-smi's CSV report into the capabilities.
fn parse_nvidia_smi(
    caps: &mut Vec<(String, GpuCapabilities)>,
    info: &str,
    Ghost(m0): Ghost<CapsMap>,
)
    requires
        keys_distinct(old(caps)@),
        caps_match(pmap(old(caps)@), m0),
    ensures
        keys_distinct(final(caps)@),
        caps_match(pmap(final(caps)@), smi_caps(info@, m0)),
{
    let ls = lines_exec(info);
    let ghost lv = lines(info@);
    let ghost mut m = m0;
    let mut i: usize = 0;
    while i < ls.len()
        invariant
            crate::text::views(ls@) == lv,
            i <= ls.len(),
            keys_distinct(caps@),
            caps_match(pmap(caps@), m),
            m == smi_fold(lv.take(i as int), m0),
        decreases ls.len() - i,
    {
        assert(lv.take(i + 1).drop_last() =~= lv.take(i as int));
        assert(ls@[i as int]@ == lv[i as int]);
        let ghost m1 = smi_line(m, lv[i as int]);
        smi_line_exec(caps, ls[i].as_str(), Ghost(m));
        proof {
            m = m1;
        }
        i += 1;
    }
    assert(lv.take(ls.len() as int) =~= lv);
}

fn smi_line_exec(caps: &mut Vec<(String, GpuCapabilities)>, line: &str, Ghost(m): Ghost<CapsMap>)
    requires
        keys_distinct(old(caps)@),
        caps_match(pmap(old(caps)@), m),
    ensures
        keys_distinct(final(caps)@),
        caps_match(pmap(final(caps)@), smi_line(m, line@)),
{
    let raw = split_exec(line, ',');
    let mut parts: Vec<String> = Vec::new();
    let mut i: usize = 0;
    while i < raw.len()
        invariant
            i <= raw.len(),
            crate::text::views(parts@) == crate::text::views(raw@).take(i as int).map_values(
                |p: Seq<char>| trim(p),
            ),
        decreases raw.len() - i,
    {
        let ghost before = crate::text::views(parts@);
        parts.push(trim_str(raw[i].as_str()));
        assert(crate::text::views(parts@) =~= before.push(trim(raw@[i as int]@)));
        assert(crate::text::views(raw@).take(i + 1).map_values(|p: Seq<char>| trim(p))
            =~= crate::text::views(raw@).take(i as int).map_values(|p: Seq<char>| trim(p)).push(
            trim(raw@[i as int]@),
        ));
        i += 1;
    }
    let ghost pv = split_char(line@, ',').map_values(|p: Seq<char>| trim(p));
    assert(crate::text::views(raw@).take(raw.len() as int) =~= crate::text::views(raw@));
    assert(crate::text::views(parts@) == pv);
    if parts.len() < 6 {
        return;
    }
    assert(parts@[0]@ == pv[0] && parts@[1]@ == pv[1] && parts@[2]@ == pv[2]);
    assert(parts@[3]@ == pv[3] && parts@[4]@ == pv[4] && parts@[5]@ == pv[5]);
    let key = normalize_pci_address(parts[0].as_str());
    let mut c = caps_get(caps, key.as_str(), Ghost(m));
    proof {
        reveal_strlit(" MiB");
        reveal_strlit(" MB");
    }
    let mem_a = remove_all_exec(parts[2].as_str(), " MiB");
    let mem_str = remove_all_exec(mem_a.as_str(), " MB");
    c.compute_capability = parse_non_empty(parts[5].as_str());
    if let Some(v) = parse_uint_exec(mem_str.as_str(), u64::MAX) {
        c.vram_mb = Some(v);
    }
    c.pcie_generation = match parse_uint_exec(parts[3].as_str(), 255) {
        Some(v) => Some(v as u8),
        None => None,
    };
    c.pcie_lanes = match parse_uint_exec(parts[4].as_str(), 255) {
        Some(v) => Some(v as u8),
        None => None,
    };
    if let Some(g) = detect_gpu_generation(parts[1].as_str()) {
        c.generation = Some(g);
    }
    let (is_ada, is_bw) = match c.generation {
        Some(GpuGeneration::AdaLovelace) => (true, false),
        Some(GpuGeneration::Blackwell) => (false, true),
        _ => (false, false),
    };
    c.tcc_supported = is_ada || is_bw;
    if is_bw {
        apply_blackwell_requirements(&mut c);
    } else if is_ada {
        if c.minimum_driver.is_none() {
            c.minimum_driver = Some("545.0".to_owned());
        }
    }
    caps_set(caps, key, c, Ghost(m));
}

/// The device with its IOMMU group read from the group links.
pub open spec fn with_group(d: PciDevice, links: Seq<(String, String)>) -> PciDevice {
    PciDevice { iommu_group: group_for(Some(links), d.address@), ..d }
}

pub proof fn lemma_with_groups(
    ls: Seq<Seq<char>>,
    drivers: Seq<(String, String)>,
    links: Seq<(String, String)>,
    g: Seq<PciDevice>,
)
    requires
        gpus_from_lines(ls, drivers, None, g),
    ensures
        gpus_from_lines(ls, drivers, Some(links), g.map_values(|d: PciDevice| with_group(d, links))),
    decreases ls.len(),
{
    let f = |d: PciDevice| with_group(d, links);
    if ls.len() > 0 {
        let l = ls.last();
        if is_gpu_line(l) && lspci_line_parses(l) {
            lemma_with_groups(ls.drop_last(), drivers, links, g.drop_last());
            assert(g.map_values(f).drop_last() =~= g.drop_last().map_values(f));
        } else {
            lemma_with_groups(ls.drop_last(), drivers, links, g);
        }
    }
}

/// The discovered GPUs that belong to group `id`.
pub open spec fn members(gpus: Seq<PciDevice>, id: u32) -> Seq<PciDevice> {
    gpus.filter(|d: PciDevice| d.iommu_group == Some(id))
}

/// The device is a GPU or belongs to one (its name shows a GPU vendor or audio).
pub open spec fn gpu_like(d: PciDevice) -> bool {
    contains(d.device_name@, "NVIDIA"@) || contains(d.device_name@, "AMD"@) || contains(
        d.device_name@,
        "Intel"@,
    ) || contains(d.device_name@, "Audio"@)
}

/// `g` is the group `id` made of the discovered GPUs in it.
pub open spec fn group_ok(id: u32, gpus: Seq<PciDevice>, g: IommuGroup) -> bool {
    let m = members(gpus, id);
    &&& g.id == id
    &&& g.devices@ == m
    &&& g.isolated == (m.len() == 1)
    &&& g.viable_for_passthrough == (g.isolated || forall|i: int|
        0 <= i < m.len() ==> gpu_like(#[trigger] m[i]))
}

/// `groups` lists, in directory order, the groups named by a number that
/// hold at least one discovered GPU.
pub open spec fn groups_from_names(
    names: Seq<Seq<char>>,
    gpus: Seq<PciDevice>,
    groups: Seq<IommuGroup>,
) -> bool
    decreases names.len(),
{
    if names.len() == 0 {
        groups.len() == 0
    } else {
        match parse_uint(names.last(), u32::MAX as nat) {
            Some(id) => if members(gpus, id as u32).len() > 0 {
                groups.len() > 0 && group_ok(id as u32, gpus, groups.last()) && groups_from_names(
                    names.drop_last(),
                    gpus,
                    groups.drop_last(),
                )
            } else {
                groups_from_names(names.drop_last(), gpus, groups)
            },
            None => groups_from_names(names.drop_last(), gpus, groups),
        }
    }
}

/// The entry number of an IOMMU group directory name, when it is one.
pub open spec fn group_number(name: Seq<char>) -> Option<nat> {
    parse_uint(name, u32::MAX as nat)
}

/// No two directory names denote the same group number.
pub open spec fn distinct_group_numbers(names: Seq<Seq<char>>) -> bool {
    forall|i: int, j: int|
        0 <= i < j < names.len() && #[trigger] group_number(names[i]) is Some ==> group_number(
            names[i],
        ) != #[trigger] group_number(names[j])
}

proof fn lemma_group_ids_named(names: Seq<Seq<char>>, gpus: Seq<PciDevice>, groups: Seq<IommuGroup>)
    requires
        groups_from_names(names, gpus, groups),
    ensures
        forall|j: int|
            0 <= j < groups.len() ==> exists|k: int|
                0 <= k < names.len() && #[trigger] group_number(names[k]) == Some(
                    (#[trigger] groups[j]).id as nat,
                ),
    decreases names.len(),
{
    if names.len() > 0 {
        let ns = names.drop_last();
        match parse_uint(names.last(), u32::MAX as nat) {
            Some(id) => if members(gpus, id as u32).len() > 0 {
                lemma_group_ids_named(ns, gpus, groups.drop_last());
                assert forall|j: int| 0 <= j < groups.len() implies exists|k: int|
                    0 <= k < names.len() && #[trigger] group_number(names[k]) == Some(
                        (#[trigger] groups[j]).id as nat,
                    ) by {
                    if j == groups.len() - 1 {
                        assert(group_number(names[names.len() - 1]) == Some(groups[j].id as nat));
                    } else {
                        assert(groups[j] == groups.drop_last()[j]);
                        let k = choose|k: int|
                            0 <= k < ns.len() && #[trigger] group_number(ns[k]) == Some(
                                (#[trigger] groups.drop_last()[j]).id as nat,
                            );
                        assert(ns[k] == names[k]);
                    }
                }
            } else {
                lemma_group_ids_named(ns, gpus, groups);
                assert forall|j: int| 0 <= j < groups.len() implies exists|k: int|
                    0 <= k < names.len() && #[trigger] group_number(names[k]) == Some(
                        (#[trigger] groups[j]).id as nat,
                    ) by {
                    let k = choose|k: int|
                        0 <= k < ns.len() && #[trigger] group_number(ns[k]) == Some(
                            (#[trigger] groups[j]).id as nat,
                        );
                    assert(ns[k] == names[k]);
                }
            },
            None => {
                lemma_group_ids_named(ns, gpus, groups);
                assert forall|j: int| 0 <= j < groups.len() implies exists|k: int|
                    0 <= k < names.len() && #[trigger] group_number(names[k]) == Some(
                        (#[trigger] groups[j]).id as nat,
                    ) by {
                    let k = choose|k: int|
                        0 <= k < ns.len() && #[trigger] group_number(ns[k]) == Some(
                            (#[trigger] groups[j]).id as nat,
                        );
                    assert(ns[k] == names[k]);
                }
            },
        }
    }
}

/// The IOMMU groups that discovery lists have distinct ids, as long as no
/// two entries of `/sys/kernel/iommu_groups` name the same number (such as
/// `1` and `01`, which both give group 1).
pub proof fn law_group_ids_distinct(names: Seq<Seq<char>>, gpus: Seq<PciDevice>, groups: Seq<IommuGroup>)
    requires
        groups_from_names(names, gpus, groups),
        distinct_group_numbers(names),
    ensures
        forall|i: int, j: int| 0 <= i < j < groups.len() ==> #[trigger] groups[i].id != #[trigger] groups[j].id,
    decreases names.len(),
{
    if names.len() > 0 {
        let ns = names.drop_last();
        assert(distinct_group_numbers(ns)) by {
            assert forall|i: int, j: int|
                0 <= i < j < ns.len() && #[trigger] group_number(ns[i]) is Some implies group_number(
                    ns[i],
                ) != #[trigger] group_number(ns[j]) by {
                assert(ns[i] == names[i] && ns[j] == names[j]);
            }
        }
        match parse_uint(names.last(), u32::MAX as nat) {
            Some(id) => if members(gpus, id as u32).len() > 0 {
                let g0 = groups.drop_last();
                law_group_ids_distinct(ns, gpus, g0);
                lemma_group_ids_named(ns, gpus, g0);
                assert forall|i: int, j: int| 0 <= i < j < groups.len() implies #[trigger] groups[i].id
                    != #[trigger] groups[j].id by {
                    assert(groups[i] == g0[i]);
                    if j == groups.len() - 1 {
                        let k = choose|k: int|
                            0 <= k < ns.len() && #[trigger] group_number(ns[k]) == Some(
                                (#[trigger] g0[i]).id as nat,
                            );
                        assert(ns[k] == names[k]);
                        assert(group_number(names[k]) is Some);
                        assert(group_number(names[k]) != group_number(names[names.len() - 1]));
                    } else {
                        assert(groups[j] == g0[j]);
                    }
                }
            } else {
                law_group_ids_distinct(ns, gpus, groups);
            },
            None => {
                law_group_ids_distinct(ns, gpus, groups);
            },
        }
    }
}

fn assign_groups(gpus: &mut Vec<PciDevice>, links: &Vec<(String, String)>)
    ensures
        final(gpus)@ == old(gpus)@.map_values(|d: PciDevice| with_group(d, links@)),
{
    let ghost g0 = gpus@;
    let mut out: Vec<PciDevice> = Vec::new();
    let mut i: usize = 0;
    while i < gpus.len()
        invariant
            gpus@ == g0,
            i <= gpus.len(),
            out@ == g0.take(i as int).map_values(|d: PciDevice| with_group(d, links@)),
        decreases gpus.len() - i,
    {
        let mut d = gpus[i].duplicate();
        let group = match driver_lookup(links, d.address.as_str()) {
            Some(n) => match parse_uint_exec(n.as_str(), 4294967295) {
                Some(v) => Some(v as u32),
                None => None,
            },
            None => None,
        };
        d.iommu_group = group;
        out.push(d);
        assert(g0.take(i + 1).map_values(|d: PciDevice| with_group(d, links@)) =~= g0.take(
            i as int,
        ).map_values(|d: PciDevice| with_group(d, links@)).push(with_group(g0[i as int], links@)));
        i += 1;
    }
    assert(g0.take(g0.len() as int) =~= g0);
    *gpus = out;
}

fn group_members(gpus: &Vec<PciDevice>, id: u32) -> (r: Vec<PciDevice>)
    ensures
        r@ == members(gpus@, id),
{
    let mut r: Vec<PciDevice> = Vec::new();
    let mut i: usize = 0;
    while i < gpus.len()
        invariant
            i <= gpus.len(),
            r@ == members(gpus@.take(i as int), id),
        decreases gpus.len() - i,
    {
        proof {
            reveal_with_fuel(Seq::<_>::filter, 1);
            assert(gpus@.take(i + 1).drop_last() =~= gpus@.take(i as int));
        }
        let in_group = match gpus[i].iommu_group {
            Some(g) => g == id,
            None => false,
        };
        if in_group {
            r.push(gpus[i].duplicate());
        }
        i += 1;
    }
    assert(gpus@.take(gpus.len() as int) =~= gpus@);
    r
}

fn is_group_viable(devices: &Vec<PciDevice>) -> (r: bool)
    ensures
        r == forall|i: int| 0 <= i < devices@.len() ==> gpu_like(#[trigger] devices@[i]),
{
    let mut i: usize = 0;
    while i < devices.len()
        invariant
            i <= devices.len(),
            forall|j: int| 0 <= j < i ==> gpu_like(#[trigger] devices@[j]),
        decreases devices.len() - i,
    {
        let n = devices[i].device_name.as_str();
        if !(str_contains(n, "NVIDIA") || str_contains(n, "AMD") || str_contains(n, "Intel")
            || str_contains(n, "Audio")) {
            return false;
        }
        i += 1;
    }
    true
}

fn build_groups(names: &Vec<String>, gpus: &Vec<PciDevice>) -> (r: Vec<IommuGroup>)
    ensures
        groups_from_names(crate::text::views(names@), gpus@, r@),
{
    let ghost nv = crate::text::views(names@);
    let mut r: Vec<IommuGroup> = Vec::new();
    let mut i: usize = 0;
    while i < names.len()
        invariant
            nv == crate::text::views(names@),
            i <= names.len(),
            groups_from_names(nv.take(i as int), gpus@, r@),
        decreases names.len() - i,
    {
        assert(nv.take(i + 1).drop_last() =~= nv.take(i as int));
        assert(nv.take(i + 1).last() == names@[i as int]@);
        match parse_uint_exec(names[i].as_str(), 4294967295) {
            Some(v) => {
                let id = v as u32;
                let devices = group_members(gpus, id);
                if devices.len() > 0 {
                    let isolated = devices.len() == 1;
                    let viable = isolated || is_group_viable(&devices);
                    let ghost r0 = r@;
                    r.push(IommuGroup { id, devices, isolated, viable_for_passthrough: viable });
                    assert(r@.drop_last() =~= r0);
                }
            },
            None => {},
        }
        i += 1;
    }
    assert(nv.take(names.len() as int) =~= nv);
    r
}

/// What discovery reads from the host.
#[derive(Debug, Clone)]
pub struct PciHostSnapshot {
    /// Output of `lspci -nn -D`; none when the command could not run or failed
    pub lspci_output: Option<String>,
    /// (device address, driver name) of PCI devices bound to a driver
    pub drivers: Vec<(String, String)>,
    /// (device address, name of its `iommu_group` link)
    pub iommu_links: Vec<(String, String)>,
    /// Entry names of `/sys/kernel/iommu_groups`; none when it does not exist
    pub iommu_groups: Option<Vec<String>>,
    /// The capability report: `nvbind info` when nvbind is available,
    /// otherwise nvidia-smi's CSV; none when the tool gave no report
    pub capability_report: Option<String>,
    /// nvbind is available but `nvbind info` could not be run
    pub capability_tool_failed: bool,
}

/// The capabilities that the report yields, starting from none.
pub open spec fn discovered_caps(nvbind: bool, report: Option<String>) -> CapsMap {
    match report {
        Some(o) => if nvbind {
            nvbind_caps(o@, Map::empty())
        } else {
            smi_caps(o@, Map::empty())
        },
        None => Map::empty(),
    }
}

/// Discovery from `snap` succeeds: lspci gave a report, and the capability
/// tool ran where nvbind is used.
pub open spec fn discovery_succeeds(old: GpuManager, snap: PciHostSnapshot) -> bool {
    snap.lspci_output is Some && !(old.nvbind_view() && snap.capability_tool_failed)
}

/// `new` is what discovering from `snap` makes of `old`: the GPUs of the
/// display-adapter lines of the lspci report, with their drivers and IOMMU
/// groups; the IOMMU groups that hold them; the capabilities the report of
/// the capability tool gives (none without an lspci report or when the tool
/// could not run); marked discovered on success; reservations, the nvbind
/// flag and the configuration kept.
pub open spec fn discovered_from(old: GpuManager, new: GpuManager, snap: PciHostSnapshot) -> bool {
    &&& snap.lspci_output is None ==> new.gpus_view().len() == 0 && new.groups_view().len() == 0
        && new.caps_view() == Map::<Seq<char>, GpuCapabilities>::empty()
    &&& snap.lspci_output matches Some(o) ==> gpus_from_lines(
        lines(o@),
        snap.drivers@,
        match snap.iommu_groups {
            Some(_) => Some(snap.iommu_links@),
            None => None,
        },
        new.gpus_view(),
    )
    &&& snap.lspci_output is Some ==> match snap.iommu_groups {
        Some(names) => groups_from_names(
            crate::text::views(names@),
            new.gpus_view(),
            new.groups_view(),
        ),
        None => new.groups_view().len() == 0,
    }
    &&& snap.lspci_output is Some && old.nvbind_view() && snap.capability_tool_failed
        ==> new.caps_view() == Map::<Seq<char>, GpuCapabilities>::empty()
    &&& discovery_succeeds(old, snap) ==> caps_match(
        new.caps_view(),
        discovered_caps(old.nvbind_view(), snap.capability_report),
    )
    &&& discovery_succeeds(old, snap) ==> new.discovered_view()
    &&& !discovery_succeeds(old, snap) ==> new.discovered_view() == old.discovered_view()
    &&& new.reservations_view() == old.reservations_view()
    &&& new.nvbind_view() == old.nvbind_view()
    &&& new.config_view() == old.config_view()
}

impl GpuManager {
    /// Discovers the GPUs, their IOMMU groups and capabilities from a host
    /// snapshot, replacing what was known. A missing lspci report, or an
    /// nvbind that could not be run, is `SystemCommandFailed`.
    pub fn discover(&mut self, snap: &PciHostSnapshot) -> (r: Result<(), NovaError>)
        ensures
            snap.lspci_output is None ==> r == Err::<(), NovaError>(
                NovaError::SystemCommandFailed,
            ) && final(self).gpus_view().len() == 0 && final(self).groups_view().len() == 0
                && final(self).caps_view() == Map::<Seq<char>, GpuCapabilities>::empty(),
            r is Ok <==> discovery_succeeds(*old(self), *snap),
            (snap.lspci_output is Some && (snap.iommu_groups matches Some(names)
                && distinct_group_numbers(crate::text::views(names@)))) ==> forall|i: int, j: int|
                0 <= i < j < final(self).groups_view().len() ==> #[trigger] final(self).groups_view()[i].id
                    != #[trigger] final(self).groups_view()[j].id,
            discovered_from(*old(self), *final(self), *snap),
            snap.lspci_output matches Some(o) ==> gpus_from_lines(
                lines(o@),
                snap.drivers@,
                match snap.iommu_groups {
                    Some(_) => Some(snap.iommu_links@),
                    None => None,
                },
                final(self).gpus_view(),
            ),
            snap.lspci_output is Some ==> match snap.iommu_groups {
                Some(names) => groups_from_names(
                    crate::text::views(names@),
                    final(self).gpus_view(),
                    final(self).groups_view(),
                ),
                None => final(self).groups_view().len() == 0,
            },
            snap.lspci_output is Some && old(self).nvbind_view() && snap.capability_tool_failed
                ==> r == Err::<(), NovaError>(NovaError::SystemCommandFailed)
                && final(self).caps_view() == Map::<Seq<char>, GpuCapabilities>::empty(),
            snap.lspci_output is Some && !(old(self).nvbind_view() && snap.capability_tool_failed)
                ==> r is Ok && caps_match(
                final(self).caps_view(),
                discovered_caps(old(self).nvbind_view(), snap.capability_report),
            ),
            r is Ok ==> final(self).discovered_view(),
            r is Err ==> final(self).discovered_view() == old(self).discovered_view(),
            final(self).reservations_view() == old(self).reservations_view(),
            final(self).nvbind_view() == old(self).nvbind_view(),
            final(self).config_view() == old(self).config_view(),
    {
        proof {
            use_type_invariant(&*self);
        }
        self.gpus = Vec::new();
        self.iommu_groups = Vec::new();
        let mut caps: Vec<(String, GpuCapabilities)> = Vec::new();
        std::mem::swap(&mut caps, &mut self.gpu_capabilities);
        caps = Vec::new();
        assert(pmap(caps@) =~= Map::<Seq<char>, GpuCapabilities>::empty());
        self.gpu_capabilities = caps;
        let out = match &snap.lspci_output {
            Some(o) => o,
            None => {
                return Err(NovaError::SystemCommandFailed);
            },
        };
        let mut gpus = gpus_from_lspci(out.as_str(), &snap.drivers);
        let mut groups: Vec<IommuGroup> = Vec::new();
        if let Some(names) = &snap.iommu_groups {
            proof {
                lemma_with_groups(lines(out@), snap.drivers@, snap.iommu_links@, gpus@);
            }
            assign_groups(&mut gpus, &snap.iommu_links);
            groups = build_groups(names, &gpus);
            proof {
                if distinct_group_numbers(crate::text::views(names@)) {
                    law_group_ids_distinct(crate::text::views(names@), gpus@, groups@);
                }
            }
        }
        self.gpus = gpus;
        self.iommu_groups = groups;
        let mut caps: Vec<(String, GpuCapabilities)> = Vec::new();
        assert(caps_match(pmap(caps@), Map::empty())) by {
            assert(pmap(caps@).dom() =~= Map::<Seq<char>, CapsView>::empty().dom());
        }
        if self.nvbind_available {
            if snap.capability_tool_failed {
                return Err(NovaError::SystemCommandFailed);
            }
            if let Some(report) = &snap.capability_report {
                parse_nvbind_info(&mut caps, report.as_str(), Ghost(Map::empty()));
            }
        } else {
            if let Some(report) = &snap.capability_report {
                parse_nvidia_smi(&mut caps, report.as_str(), Ghost(Map::empty()));
            }
        }
        self.gpu_capabilities = caps;
        self.discovered = true;
        Ok(())
    }

    /// Discovers once: a manager that has already discovered is left as is,
    /// so a second call after one that succeeded changes nothing.
    pub fn ensure_discovered(&mut self, snap: &PciHostSnapshot) -> (r: Result<(), NovaError>)
        ensures
            old(self).discovered_view() ==> r is Ok && *final(self) == *old(self),
            !old(self).discovered_view() ==> discovered_from(*old(self), *final(self), *snap) && (r is Ok
                <==> discovery_succeeds(*old(self), *snap)),
            r is Ok ==> final(self).discovered_view(),
            !old(self).discovered_view() ==> (snap.lspci_output is None ==> r == Err::<
                (),
                NovaError,
            >(NovaError::SystemCommandFailed)),
            !old(self).discovered_view() && snap.lspci_output is Some && !(old(self).nvbind_view()
                && snap.capability_tool_failed) ==> r is Ok && final(self).discovered_view(),
            final(self).reservations_view() == old(self).reservations_view(),
    {
        if !self.discovered {
            self.discover(snap)?;
        }
        Ok(())
    }
}
} // verus!

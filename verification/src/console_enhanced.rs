//! Choosing the best console for a VM: what the VM offers (read from
//! `virsh dominfo` and `virsh dumpxml`), the protocol picked, and how a
//! session of each protocol is reached and viewed.
use vstd::prelude::*;
use crate::console::{ConsoleConfig, ConsoleSession};
use crate::text::{cat, contains, dec, dec_string, lines, lines_exec, parse_uint, parse_uint_exec, str_contains, views, words, words_exec};

verus! {

/// Console settings of the enhanced manager.
#[derive(Debug)]
pub struct EnhancedConsoleConfig {
    pub console_config: ConsoleConfig,
    pub preferred_protocol: PreferredProtocol,
    pub performance_monitoring: bool,
    pub multi_monitor_support: bool,
}

impl Default for EnhancedConsoleConfig {
    fn default() -> (r: Self)
        ensures
            r.preferred_protocol == PreferredProtocol::Auto,
            r.performance_monitoring,
            r.multi_monitor_support,
            r.console_config.web_console_port == 6080,
    {
        EnhancedConsoleConfig {
            console_config: ConsoleConfig::default(),
            preferred_protocol: PreferredProtocol::Auto,
            performance_monitoring: true,
            multi_monitor_support: true,
        }
    }
}

#[derive(Debug, Clone, Copy, PartialEq, Eq, Structural)]
pub enum PreferredProtocol {
    /// Best for GPU passthrough VMs
    LookingGlass,
    /// Good performance, native libvirt integration
    SPICE,
    /// Universal compatibility
    VNC,
    /// Auto-select based on VM capabilities
    Auto,
}

#[derive(Debug, Clone, Copy, PartialEq, Eq, Structural)]
pub enum ActiveProtocol {
    LookingGlass,
    SPICE,
    VNC,
    Serial,
}

#[derive(Debug)]
pub struct ConnectionDetails {
    pub host: String,
    pub port: u16,
    pub protocol: String,
    pub viewer_command: String,
    pub shmem_path: Option<String>,
}

#[derive(Debug, Clone, Copy, PartialEq, Eq, Structural)]
pub struct SessionFeatures {
    pub clipboard_sync: bool,
    pub audio_enabled: bool,
    pub multi_monitor: bool,
    pub hardware_acceleration: bool,
    pub usb_redirect: bool,
    pub low_latency: bool,
}

/// What a VM offers for consoles.
#[derive(Debug, Clone, Copy, PartialEq, Eq, Structural)]
pub struct VmAnalysis {
    pub cpu_cores: u32,
    pub memory_mb: u64,
    pub has_gpu: bool,
    pub has_looking_glass: bool,
    pub has_spice: bool,
    pub has_vnc: bool,
    pub supports_guest_agent: bool,
    pub supports_multi_monitor: bool,
}

impl Default for VmAnalysis {
    fn default() -> (r: Self)
        ensures
            r == (VmAnalysis {
                cpu_cores: 2,
                memory_mb: 2048,
                has_gpu: false,
                has_looking_glass: false,
                has_spice: true,
                has_vnc: true,
                supports_guest_agent: false,
                supports_multi_monitor: false,
            }),
    {
        VmAnalysis {
            cpu_cores: 2,
            memory_mb: 2048,
            has_gpu: false,
            has_looking_glass: false,
            has_spice: true,
            has_vnc: true,
            supports_guest_agent: false,
            supports_multi_monitor: false,
        }
    }
}

// ---------------------------------------------------------------------------
// Reading what a VM offers
// ---------------------------------------------------------------------------

/// The first line holding `key`, if any.
pub open spec fn first_line_with(ls: Seq<Seq<char>>, key: Seq<char>) -> Option<Seq<char>>
    decreases ls.len(),
{
    if ls.len() == 0 {
        None
    } else if contains(ls[0], key) {
        Some(ls[0])
    } else {
        first_line_with(ls.drop_first(), key)
    }
}

/// A number read from word `k` of the first line holding `key`: unchanged
/// (`dflt`) without such a line or word, `bad` when the word is no number
/// up to `max`.
pub open spec fn field_number(text: Seq<char>, key: Seq<char>, k: int, max: nat, dflt: nat, bad: nat) -> nat {
    match first_line_with(lines(text), key) {
        Some(l) => if words(l).len() > k {
            match parse_uint(words(l)[k], max) {
                Some(n) => n,
                None => bad,
            }
        } else {
            dflt
        },
        None => dflt,
    }
}

/// What `virsh dominfo` (its output, when it ran), `virsh dumpxml` (the
/// same) and a guest-agent ping say of a VM. The core count is the second
/// word of the `CPU(s)` line (1 when unreadable); the memory is the third
/// word of the `Max memory` line (1024 when unreadable); the domain XML
/// tells passthrough GPUs, Looking Glass shared memory and SPICE or VNC
/// graphics; several monitors go with a GPU or SPICE.
pub open spec fn analysis_of(dominfo: Option<Seq<char>>, dumpxml: Option<Seq<char>>, guest_agent: bool) -> VmAnalysis {
    let cpu = match dominfo {
        Some(t) => field_number(t, "CPU(s)"@, 1, 4294967295, 2, 1),
        None => 2,
    };
    let mem = match dominfo {
        Some(t) => field_number(t, "Max memory"@, 2, 18446744073709551615, 2048, 1024),
        None => 2048,
    };
    let (gpu, lg, spice, vnc) = match dumpxml {
        Some(x) => (
            contains(x, "<hostdev"@) && contains(x, "type='pci'"@),
            contains(x, "looking-glass"@) || contains(x, "ivshmem"@),
            contains(x, "<graphics type='spice'"@),
            contains(x, "<graphics type='vnc'"@),
        ),
        None => (false, false, true, true),
    };
    VmAnalysis {
        cpu_cores: cpu as u32,
        memory_mb: mem as u64,
        has_gpu: gpu,
        has_looking_glass: lg,
        has_spice: spice,
        has_vnc: vnc,
        supports_guest_agent: guest_agent,
        supports_multi_monitor: gpu || spice,
    }
}

/// The protocol chosen: the preferred one, or for `Auto` Looking Glass when
/// the VM has its shared memory and a GPU and the client is installed, else
/// SPICE when the VM has SPICE graphics and a guest agent, else VNC.
pub open spec fn protocol_for(preferred: PreferredProtocol, a: VmAnalysis, lg_client: bool) -> PreferredProtocol {
    match preferred {
        PreferredProtocol::Auto => if a.has_looking_glass && a.has_gpu && lg_client {
            PreferredProtocol::LookingGlass
        } else if a.has_spice && a.supports_guest_agent {
            PreferredProtocol::SPICE
        } else {
            PreferredProtocol::VNC
        },
        other => other,
    }
}

fn first_line_with_exec(ls: &Vec<String>, key: &str) -> (r: Option<usize>)
    ensures
        match first_line_with(views(ls@), key@) {
            Some(l) => r matches Some(i) && i < ls.len() && ls@[i as int]@ == l,
            None => r is None,
        },
{
    let ghost lv = views(ls@);
    let mut i: usize = 0;
    assert(lv.skip(0) =~= lv);
    while i < ls.len()
        invariant
            lv == views(ls@),
            i <= ls.len(),
            first_line_with(lv, key@) == first_line_with(lv.skip(i as int), key@),
        decreases ls.len() - i,
    {
        assert(lv.skip(i as int)[0] == ls@[i as int]@);
        if str_contains(ls[i].as_str(), key) {
            return Some(i);
        }
        assert(lv.skip(i as int).drop_first() =~= lv.skip(i + 1));
        i += 1;
    }
    assert(lv.skip(i as int).len() == 0);
    None
}

fn field_number_exec(text: &str, key: &str, k: usize, max: u64, dflt: u64, bad: u64) -> (r: u64)
    requires
        max >= 9,
    ensures
        r == field_number(text@, key@, k as int, max as nat, dflt as nat, bad as nat),
{
    let ls = lines_exec(text);
    match first_line_with_exec(&ls, key) {
        Some(i) => {
            let w = words_exec(ls[i].as_str());
            if w.len() > k {
                match parse_uint_exec(w[k].as_str(), max) {
                    Some(n) => n,
                    None => bad,
                }
            } else {
                dflt
            }
        },
        None => dflt,
    }
}

/// What a VM offers (see `analysis_of`).
pub fn analyze_vm_capabilities(dominfo: Option<&str>, dumpxml: Option<&str>, guest_agent: bool) -> (r: VmAnalysis)
    ensures
        r == analysis_of(
            match dominfo {
                Some(t) => Some(t@),
                None => None,
            },
            match dumpxml {
                Some(x) => Some(x@),
                None => None,
            },
            guest_agent,
        ),
{
    let mut a = VmAnalysis::default();
    if let Some(t) = dominfo {
        a.cpu_cores = field_number_exec(t, "CPU(s)", 1, 4294967295, 2, 1) as u32;
        a.memory_mb = field_number_exec(t, "Max memory", 2, 18446744073709551615, 2048, 1024);
    }
    if let Some(x) = dumpxml {
        a.has_gpu = str_contains(x, "<hostdev") && str_contains(x, "type='pci'");
        a.has_looking_glass = str_contains(x, "looking-glass") || str_contains(x, "ivshmem");
        a.has_spice = str_contains(x, "<graphics type='spice'");
        a.has_vnc = str_contains(x, "<graphics type='vnc'");
    }
    a.supports_guest_agent = guest_agent;
    a.supports_multi_monitor = a.has_gpu || a.has_spice;
    a
}

/// The protocol to use for a VM (see `protocol_for`); `lg_client` is
/// whether the Looking Glass client is installed.
pub fn select_optimal_protocol(preferred: PreferredProtocol, analysis: &VmAnalysis, lg_client: bool) -> (r: PreferredProtocol)
    ensures
        r == protocol_for(preferred, *analysis, lg_client),
{
    match preferred {
        PreferredProtocol::Auto => {
            if analysis.has_looking_glass && analysis.has_gpu && lg_client {
                return PreferredProtocol::LookingGlass;
            }
            if analysis.has_spice && analysis.supports_guest_agent {
                return PreferredProtocol::SPICE;
            }
            PreferredProtocol::VNC
        },
        other => other,
    }
}

// ---------------------------------------------------------------------------
// Sessions of each protocol
// ---------------------------------------------------------------------------

/// How a SPICE console session is reached, viewed with `remote-viewer`.
pub open spec fn spice_details_of(d: ConnectionDetails, s: ConsoleSession) -> bool {
    &&& d.host == s.connection_info.host
    &&& d.port == s.connection_info.port
    &&& d.protocol@ == "spice"@
    &&& d.viewer_command@ == "remote-viewer spice://"@ + s.connection_info.host@ + ":"@ + dec(s.connection_info.port as nat)
    &&& d.shmem_path is None
}

/// How a VNC console session is reached, viewed with `vncviewer`.
pub open spec fn vnc_details_of(d: ConnectionDetails, s: ConsoleSession) -> bool {
    &&& d.host == s.connection_info.host
    &&& d.port == s.connection_info.port
    &&& d.protocol@ == "vnc"@
    &&& d.viewer_command@ == "vncviewer "@ + s.connection_info.host@ + ":"@ + dec(s.connection_info.port as nat)
    &&& d.shmem_path is None
}

/// How a SPICE console session is reached, and what it offers: clipboard,
/// audio and USB redirection, several monitors as the VM allows, hardware
/// acceleration with a GPU.
pub fn spice_session_details(s: &ConsoleSession, analysis: &VmAnalysis) -> (r: (ConnectionDetails, SessionFeatures))
    ensures
        spice_details_of(r.0, *s),
        r.1 == (SessionFeatures {
            clipboard_sync: true,
            audio_enabled: true,
            multi_monitor: analysis.supports_multi_monitor,
            hardware_acceleration: analysis.has_gpu,
            usb_redirect: true,
            low_latency: false,
        }),
{
    let mut cmd = cat("remote-viewer spice://", s.connection_info.host.as_str());
    cmd.append(":");
    cmd.append(dec_string(s.connection_info.port as u64).as_str());
    (
        ConnectionDetails {
            host: s.connection_info.host.clone(),
            port: s.connection_info.port,
            protocol: "spice".to_owned(),
            viewer_command: cmd,
            shmem_path: None,
        },
        SessionFeatures {
            clipboard_sync: true,
            audio_enabled: true,
            multi_monitor: analysis.supports_multi_monitor,
            hardware_acceleration: analysis.has_gpu,
            usb_redirect: true,
            low_latency: false,
        },
    )
}

/// How a VNC console session is reached; it offers none of the extras.
pub fn vnc_session_details(s: &ConsoleSession) -> (r: (ConnectionDetails, SessionFeatures))
    ensures
        vnc_details_of(r.0, *s),
        r.1 == (SessionFeatures {
            clipboard_sync: false,
            audio_enabled: false,
            multi_monitor: false,
            hardware_acceleration: false,
            usb_redirect: false,
            low_latency: false,
        }),
{
    let mut cmd = cat("vncviewer ", s.connection_info.host.as_str());
    cmd.append(":");
    cmd.append(dec_string(s.connection_info.port as u64).as_str());
    (
        ConnectionDetails {
            host: s.connection_info.host.clone(),
            port: s.connection_info.port,
            protocol: "vnc".to_owned(),
            viewer_command: cmd,
            shmem_path: None,
        },
        SessionFeatures {
            clipboard_sync: false,
            audio_enabled: false,
            multi_monitor: false,
            hardware_acceleration: false,
            usb_redirect: false,
            low_latency: false,
        },
    )
}

/// The viewer programs to start for a session, each with its arguments, in
/// the order they are tried (a later one only when the one before could not
/// be started).
pub open spec fn viewer_commands_of(p: ActiveProtocol, d: ConnectionDetails, vm: Seq<char>) -> Seq<(Seq<char>, Seq<Seq<char>>)> {
    let hp = d.host@ + ":"@ + dec(d.port as nat);
    match p {
        ActiveProtocol::LookingGlass => match d.shmem_path {
            Some(m) => seq![("looking-glass-client"@, seq!["-f"@, m@])],
            None => Seq::empty(),
        },
        ActiveProtocol::SPICE => seq![("remote-viewer"@, seq!["spice://"@ + hp])],
        ActiveProtocol::VNC => seq![("remote-viewer"@, seq!["vnc://"@ + hp]), ("vncviewer"@, seq![hp])],
        ActiveProtocol::Serial => seq![("virsh"@, seq!["console"@, vm])],
    }
}

/// The viewer programs for a session (see `viewer_commands_of`).
pub fn viewer_commands(protocol: ActiveProtocol, details: &ConnectionDetails, vm_name: &str) -> (r: Vec<(String, Vec<String>)>)
    ensures
        r@.len() == viewer_commands_of(protocol, *details, vm_name@).len(),
        forall|k: int| 0 <= k < r@.len() ==> (#[trigger] r@[k]).0@ == viewer_commands_of(protocol, *details, vm_name@)[k].0
            && views(r@[k].1@) == viewer_commands_of(protocol, *details, vm_name@)[k].1,
{
    let mut hp = cat(details.host.as_str(), ":");
    hp.append(dec_string(details.port as u64).as_str());
    let mut r: Vec<(String, Vec<String>)> = Vec::new();
    match protocol {
        ActiveProtocol::LookingGlass => {
            if let Some(m) = &details.shmem_path {
                let a: Vec<String> = vec!["-f".to_owned(), m.clone()];
                assert(views(a@) =~= seq!["-f"@, m@]);
                r.push(("looking-glass-client".to_owned(), a));
            }
        },
        ActiveProtocol::SPICE => {
            let a: Vec<String> = vec![cat("spice://", hp.as_str())];
            assert(views(a@) =~= seq!["spice://"@ + hp@]);
            r.push(("remote-viewer".to_owned(), a));
        },
        ActiveProtocol::VNC => {
            let a: Vec<String> = vec![cat("vnc://", hp.as_str())];
            assert(views(a@) =~= seq!["vnc://"@ + hp@]);
            r.push(("remote-viewer".to_owned(), a));
            let b: Vec<String> = vec![hp.clone()];
            assert(views(b@) =~= seq![hp@]);
            r.push(("vncviewer".to_owned(), b));
        },
        ActiveProtocol::Serial => {
            let a: Vec<String> = vec!["console".to_owned(), vm_name.to_owned()];
            assert(views(a@) =~= seq!["console"@, vm_name@]);
            r.push(("virsh".to_owned(), a));
        },
    }
    r
}

} // verus!

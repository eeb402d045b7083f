//! Arch Linux networking: which manager runs the network (systemd-networkd
//! or NetworkManager), the systemd-networkd files and NetworkManager
//! profiles it holds, the host's interfaces, and the files and calls that
//! make a bridge or prepare the host for virtualization.
use vstd::prelude::*;
use std::path::Path;
use crate::container_runtime::CommandOutput;
use crate::error::NovaError;
use crate::gpu_passthrough::{clone_opt, clone_strings, opt_view};
use crate::pairs::{keys_distinct, pmap, put};
use crate::text::{
    cat, contains, join, join_exec, lines, lines_exec, lowercase_of, split_char, split_exec,
    starts_with, str_contains, str_eq, str_starts_with, to_lowercase, trim, trim_str, views, words,
    words_exec,
};

verus! {

#[derive(Debug)]
pub struct ArchNetworkConfig {
    pub use_systemd_networkd: bool,
    pub use_network_manager: bool,
    /// Bridge configurations by name
    pub bridge_configs: Vec<(String, SystemdNetworkdConfig)>,
    pub detected_interfaces: Vec<ArchInterface>,
}

#[derive(Debug)]
pub struct SystemdNetworkdConfig {
    pub name: String,
    pub network_file: String,
    pub netdev_file: String,
    pub dhcp: bool,
    pub static_ip: Option<String>,
    pub gateway: Option<String>,
    pub dns: Vec<String>,
}

#[derive(Debug)]
pub struct ArchInterface {
    pub name: String,
    pub driver: Option<String>,
    pub speed: Option<String>,
    pub managed_by: InterfaceManager,
    pub systemd_config: Option<String>,
}

#[derive(Debug, Clone, Copy, PartialEq, Eq, Structural)]
pub enum InterfaceManager {
    SystemdNetworkd,
    NetworkManager,
    Manual,
    Unknown,
}

#[derive(Debug)]
pub struct NetworkManagerProfile {
    pub name: String,
    pub uuid: String,
    pub connection_type: String,
    pub interface: Option<String>,
    pub autoconnect: bool,
}

/// The host's network management as discovered: the configuration, the
/// systemd-networkd files by name and the NetworkManager profiles.
pub struct ArchNetworkManager {
    config: ArchNetworkConfig,
    systemd_configs: Vec<(String, SystemdNetworkdConfig)>,
    nm_profiles: Vec<NetworkManagerProfile>,
}

// ---------------------------------------------------------------------------
// Paths
// ---------------------------------------------------------------------------

/// The file name of a path without its extension, as
/// `Path::file_stem` gives it (empty when there is none).
pub uninterp spec fn path_file_stem(p: Seq<char>) -> Seq<char>;

/// The extension of a path's file name, as `Path::extension` gives it.
pub uninterp spec fn path_extension(p: Seq<char>) -> Option<Seq<char>>;

/// `Path::new(path).file_stem()`, empty when there is none, as text. The
/// contract names the result.
#[verifier::external_body]
fn file_stem_text(path: &str) -> (r: String)
    ensures
        r@ == path_file_stem(path@),
{
    Path::new(path).file_stem().unwrap_or_default().to_string_lossy().to_string()
}

/// `Path::new(path).extension()`, as text. The contract names the result.
#[verifier::external_body]
fn extension_text(path: &str) -> (r: Option<String>)
    ensures
        opt_view(r) == path_extension(path@),
{
    Path::new(path).extension().map(|e| e.to_string_lossy().to_string())
}

// ---------------------------------------------------------------------------
// The interface list
// ---------------------------------------------------------------------------

/// What serde_json reads from the text of `ip -j link show`: `None` when it
/// is not JSON; `Some(None)` when it is JSON but no array; otherwise, for
/// each element of the array, its `ifname` member when that is a string.
pub uninterp spec fn ip_link_entries(json: Seq<char>) -> Option<Option<Seq<Option<Seq<char>>>>>;

/// The entries as text sequences.
pub open spec fn entries_view(r: Option<Option<Vec<Option<String>>>>) -> Option<Option<Seq<Option<Seq<char>>>>> {
    match r {
        None => None,
        Some(None) => Some(None),
        Some(Some(v)) => Some(Some(v@.map_values(|o: Option<String>| opt_view(o)))),
    }
}

/// `serde_json::from_str::<serde_json::Value>` on the text, then each array
/// element's `["ifname"].as_str()`, converted to owned strings. The contract
/// names the result.
#[verifier::external_body]
fn ip_link_entries_exec(json: &str) -> (r: Option<Option<Vec<Option<String>>>>)
    ensures
        entries_view(r) == ip_link_entries(json@),
{
    match serde_json::from_str::<serde_json::Value>(json) {
        Ok(serde_json::Value::Array(items)) => Some(
            Some(items.iter().map(|e| e["ifname"].as_str().map(|n| n.to_string())).collect()),
        ),
        Ok(_) => Some(None),
        Err(_) => None,
    }
}

/// The names among the entries, in order; entries without a name are skipped.
pub open spec fn names_of(es: Seq<Option<Seq<char>>>) -> Seq<Seq<char>>
    decreases es.len(),
{
    if es.len() == 0 {
        Seq::empty()
    } else {
        names_of(es.drop_last()) + match es.last() {
            Some(n) => seq![n],
            None => Seq::<Seq<char>>::empty(),
        }
    }
}

/// The interface names that `ip -j link show` lists (the outcome of the
/// call): a call that could not run or failed is `SystemCommandFailed`, text
/// that is not JSON is `InvalidConfig`, JSON that is no array lists none, and
/// otherwise the names are the `ifname` strings of the array's elements.
pub open spec fn interface_names_of(out: Result<CommandOutput, String>) -> Result<Seq<Seq<char>>, NovaError> {
    match out {
        Err(_) => Err(NovaError::SystemCommandFailed),
        Ok(o) => if !o.success {
            Err(NovaError::SystemCommandFailed)
        } else {
            match ip_link_entries(o.stdout@) {
                None => Err(NovaError::InvalidConfig),
                Some(None) => Ok(Seq::empty()),
                Some(Some(es)) => Ok(names_of(es)),
            }
        },
    }
}

/// The interface names of an `ip -j link show` call (see `interface_names_of`).
pub fn interface_names_outcome(out: Result<CommandOutput, String>) -> (r: Result<Vec<String>, NovaError>)
    ensures
        match r {
            Ok(v) => interface_names_of(out) == Ok::<Seq<Seq<char>>, NovaError>(views(v@)),
            Err(e) => interface_names_of(out) == Err::<Seq<Seq<char>>, NovaError>(e),
        },
{
    let o = match out {
        Err(_) => {
            return Err(NovaError::SystemCommandFailed);
        },
        Ok(o) => o,
    };
    if !o.success {
        return Err(NovaError::SystemCommandFailed);
    }
    let entries = match ip_link_entries_exec(o.stdout.as_str()) {
        None => {
            return Err(NovaError::InvalidConfig);
        },
        Some(None) => {
            let none: Vec<String> = Vec::new();
            assert(views(none@) =~= Seq::<Seq<char>>::empty());
            return Ok(none);
        },
        Some(Some(es)) => es,
    };
    let ghost ev = entries@.map_values(|x: Option<String>| opt_view(x));
    let mut names: Vec<String> = Vec::new();
    let mut i: usize = 0;
    while i < entries.len()
        invariant
            ev == entries@.map_values(|x: Option<String>| opt_view(x)),
            i <= entries.len(),
            views(names@) == names_of(ev.take(i as int)),
        decreases entries.len() - i,
    {
        assert(ev.take(i + 1).drop_last() =~= ev.take(i as int));
        assert(ev.take(i + 1).last() == opt_view(entries@[i as int]));
        let ghost before = names@;
        match &entries[i] {
            Some(n) => {
                names.push(n.clone());
                assert(views(names@) =~= views(before) + seq![n@]);
            },
            None => {},
        }
        assert(views(names@) =~= names_of(ev.take(i + 1)));
        i += 1;
    }
    assert(ev.take(entries.len() as int) =~= ev);
    Ok(names)
}

// ---------------------------------------------------------------------------
// systemd-networkd files
// ---------------------------------------------------------------------------

/// The settings read so far from a `.network` file: DHCP, gateway, DNS
/// servers, static address, and whether the `[Network]` or `[Address]`
/// section is being read.
pub type NetworkdState = (bool, Option<Seq<char>>, Seq<Seq<char>>, Option<Seq<char>>, bool, bool);

/// The value of a `Key=value` line: the text between the first and the
/// second `=`.
pub open spec fn setting_value(line: Seq<char>) -> Seq<char> {
    split_char(line, '=')[1]
}

/// One line of a `.network` file, trimmed: section headers switch sections;
/// in `[Network]`, `DHCP=` (yes in any case, or true), `Gateway=` and `DNS=`
/// (its words are added) are read; in `[Address]`, `Address=`.
pub open spec fn networkd_step(st: NetworkdState, raw: Seq<char>) -> NetworkdState {
    let line = trim(raw);
    let (dhcp, gw, dns, ip, in_net, in_addr) = st;
    if line == "[Network]"@ {
        (dhcp, gw, dns, ip, true, false)
    } else if line == "[Address]"@ {
        (dhcp, gw, dns, ip, false, true)
    } else if starts_with(line, "["@) {
        (dhcp, gw, dns, ip, false, false)
    } else if in_net {
        if starts_with(line, "DHCP="@) {
            let v = trim(setting_value(line));
            (lowercase_of(v) == "yes"@ || v == "true"@, gw, dns, ip, in_net, in_addr)
        } else if starts_with(line, "Gateway="@) {
            (dhcp, Some(trim(setting_value(line))), dns, ip, in_net, in_addr)
        } else if starts_with(line, "DNS="@) {
            (dhcp, gw, dns + words(setting_value(line)), ip, in_net, in_addr)
        } else {
            st
        }
    } else if in_addr && starts_with(line, "Address="@) {
        (dhcp, gw, dns, Some(trim(setting_value(line))), in_net, in_addr)
    } else {
        st
    }
}

pub open spec fn networkd_fold(ls: Seq<Seq<char>>) -> NetworkdState
    decreases ls.len(),
{
    if ls.len() == 0 {
        (false, None, Seq::empty(), None, false, false)
    } else {
        networkd_step(networkd_fold(ls.drop_last()), ls.last())
    }
}

/// DNS servers accumulate: a `DNS=` line read inside `[Network]` adds the
/// words of its value after the servers read before it, and changes nothing
/// else that has been read.
pub proof fn law_networkd_dns_appends(ls: Seq<Seq<char>>, l: Seq<char>)
    requires
        networkd_fold(ls).4,
        starts_with(trim(l), "DNS="@),
    ensures
        networkd_fold(ls.push(l)).2 == networkd_fold(ls).2 + words(setting_value(trim(l))),
        networkd_fold(ls.push(l)).0 == networkd_fold(ls).0,
        networkd_fold(ls.push(l)).1 == networkd_fold(ls).1,
        networkd_fold(ls.push(l)).3 == networkd_fold(ls).3,
        networkd_fold(ls.push(l)).4,
{
    let line = trim(l);
    assert(ls.push(l).drop_last() =~= ls);
    reveal_strlit("DNS=");
    reveal_strlit("[Network]");
    reveal_strlit("[Address]");
    reveal_strlit("[");
    reveal_strlit("DHCP=");
    reveal_strlit("Gateway=");
    assert(line[0] == 'D' && line[1] == 'N') by {
        assert(line.take(4)[0] == line[0] && line.take(4)[1] == line[1]);
    }
    assert(line != "[Network]"@);
    assert(line != "[Address]"@);
    assert(!starts_with(line, "["@)) by {
        if starts_with(line, "["@) {
            assert(line.take(1)[0] == line[0]);
        }
    }
    assert(!starts_with(line, "DHCP="@)) by {
        if starts_with(line, "DHCP="@) {
            assert(line.take(5)[1] == line[1]);
        }
    }
    assert(!starts_with(line, "Gateway="@)) by {
        if starts_with(line, "Gateway="@) {
            assert(line.take(8)[0] == line[0]);
        }
    }
}

/// Only `DNS=` lines touch the DNS servers: any other line leaves the list
/// read so far as it is.
pub proof fn law_networkd_dns_only_from_dns_lines(ls: Seq<Seq<char>>, l: Seq<char>)
    requires
        !starts_with(trim(l), "DNS="@),
    ensures
        networkd_fold(ls.push(l)).2 == networkd_fold(ls).2,
{
    assert(ls.push(l).drop_last() =~= ls);
}

/// `c` is what the file at `path` with text `content` configures.
pub open spec fn networkd_config_of(c: SystemdNetworkdConfig, path: Seq<char>, content: Seq<char>) -> bool {
    let (dhcp, gw, dns, ip, _, _) = networkd_fold(lines(content));
    &&& c.name@ == path_file_stem(path)
    &&& c.network_file@ == path
    &&& c.netdev_file@.len() == 0
    &&& c.dhcp == dhcp
    &&& opt_view(c.gateway) == gw
    &&& views(c.dns@) == dns
    &&& opt_view(c.static_ip) == ip
}

fn setting_value_exec(line: &str) -> (r: String)
    requires
        split_char(line@, '=').len() > 1,
    ensures
        r@ == setting_value(line@),
{
    let parts = split_exec(line, '=');
    parts[1].clone()
}

proof fn lemma_key_has_value(line: Seq<char>, key: Seq<char>)
    requires
        starts_with(line, key),
        key.len() > 0,
        key.last() == '=',
    ensures
        split_char(line, '=').len() > 1,
{
    crate::text::lemma_split_count(line, '=');
    assert(line[key.len() - 1] == '=');
}

// ---------------------------------------------------------------------------
// NetworkManager profiles
// ---------------------------------------------------------------------------

/// The profile an `nmcli -t -f NAME,UUID,TYPE,DEVICE,AUTOCONNECT connection
/// show` line gives, when it has at least five `:`-separated fields: an
/// empty device is none, and autoconnect is `yes`.
pub open spec fn nm_profile_row(line: Seq<char>) -> Option<(Seq<char>, Seq<char>, Seq<char>, Option<Seq<char>>, bool)> {
    let p = split_char(line, ':');
    if p.len() >= 5 {
        Some((p[0], p[1], p[2], if p[3].len() == 0 { None } else { Some(p[3]) }, p[4] == "yes"@))
    } else {
        None
    }
}

pub open spec fn profile_matches(pr: NetworkManagerProfile, row: (Seq<char>, Seq<char>, Seq<char>, Option<Seq<char>>, bool)) -> bool {
    &&& pr.name@ == row.0
    &&& pr.uuid@ == row.1
    &&& pr.connection_type@ == row.2
    &&& opt_view(pr.interface) == row.3
    &&& pr.autoconnect == row.4
}

/// The profiles of the lines, in order; lines without five fields are skipped.
pub open spec fn nm_rows(ls: Seq<Seq<char>>) -> Seq<(Seq<char>, Seq<char>, Seq<char>, Option<Seq<char>>, bool)>
    decreases ls.len(),
{
    if ls.len() == 0 {
        Seq::empty()
    } else {
        nm_rows(ls.drop_last()) + match nm_profile_row(ls.last()) {
            Some(r) => seq![r],
            None => Seq::empty(),
        }
    }
}

// ---------------------------------------------------------------------------
// Interfaces
// ---------------------------------------------------------------------------

/// Interfaces worth listing: not the loopback and not a veth pair.
pub open spec fn interface_wanted(name: Seq<char>) -> bool {
    name != "lo"@ && !starts_with(name, "veth"@)
}

/// The link speed that the interface's `speed` file shows: its trimmed text
/// followed by `Mbps`, unless it reads `-1`.
pub open spec fn speed_of(content: Seq<char>) -> Option<Seq<char>> {
    if trim(content) != "-1"@ {
        Some(trim(content) + "Mbps"@)
    } else {
        None
    }
}

/// The network file of the first systemd-networkd configuration whose name
/// or file mentions the interface.
pub open spec fn config_for(cs: Seq<(String, SystemdNetworkdConfig)>, iface: Seq<char>) -> Option<Seq<char>>
    decreases cs.len(),
{
    if cs.len() == 0 {
        None
    } else if contains(cs[0].1.name@, iface) || contains(cs[0].1.network_file@, iface) {
        Some(cs[0].1.network_file@)
    } else {
        config_for(cs.drop_first(), iface)
    }
}

/// The NetworkManager device list shows the interface on a line of its own.
pub open spec fn nm_lists(ls: Seq<Seq<char>>, iface: Seq<char>) -> bool {
    exists|k: int| 0 <= k < ls.len() && trim(#[trigger] ls[k]) == iface
}

/// Who manages an interface: NetworkManager when it is in use and lists the
/// device (`nm_devices`: the output of `nmcli -t -f DEVICE device status`
/// when it succeeded), systemd-networkd when one of its files mentions the
/// interface, by hand when `ip addr show` (`addr_info`, the same) shows an
/// IPv4 address, else unknown.
pub open spec fn manager_of(
    use_nm: bool,
    has_config: bool,
    iface: Seq<char>,
    nm_devices: Option<Seq<char>>,
    addr_info: Option<Seq<char>>,
) -> InterfaceManager {
    if use_nm && match nm_devices {
        Some(d) => nm_lists(lines(d), iface),
        None => false,
    } {
        InterfaceManager::NetworkManager
    } else if has_config {
        InterfaceManager::SystemdNetworkd
    } else if addr_info matches Some(a) && contains(a, "inet "@) {
        InterfaceManager::Manual
    } else {
        InterfaceManager::Unknown
    }
}

// ---------------------------------------------------------------------------
// Bridges and host preparation
// ---------------------------------------------------------------------------

pub open spec fn netdev_text(bridge: Seq<char>) -> Seq<char> {
    "[NetDev]\nName="@ + bridge + "\nKind=bridge\n\n[Bridge]\nSTP=yes\n"@
}

pub open spec fn bridge_network_text(bridge: Seq<char>) -> Seq<char> {
    "[Match]\nName="@ + bridge + "\n\n[Network]\nDHCP=yes\nIPForward=yes\n"@
}

pub open spec fn bind_text(iface: Seq<char>, bridge: Seq<char>) -> Seq<char> {
    "[Match]\nName="@ + iface + "\n\n[Network]\nBridge="@ + bridge + "\n"@
}

/// The files of a systemd-networkd bridge, path and text, in the order they
/// are written: the bridge's `.netdev` and `.network`, then a binding file
/// for each interface.
pub open spec fn bridge_files_of(bridge: Seq<char>, ifaces: Seq<Seq<char>>) -> Seq<(Seq<char>, Seq<char>)> {
    seq![
        ("/etc/systemd/network/25-"@ + bridge + ".netdev"@, netdev_text(bridge)),
        ("/etc/systemd/network/25-"@ + bridge + ".network"@, bridge_network_text(bridge)),
    ] + Seq::new(
        ifaces.len(),
        |k: int| ("/etc/systemd/network/25-"@ + ifaces[k] + "-bind.network"@, bind_text(ifaces[k], bridge)),
    )
}

/// The kernel modules that virtualization needs, in the order they are loaded.
pub open spec fn kvm_modules_of() -> Seq<Seq<char>> {
    seq!["kvm"@, "kvm_intel"@, "kvm_amd"@, "vhost_net"@, "bridge"@, "br_netfilter"@]
}

impl ArchNetworkManager {
    pub closed spec fn config_view(self) -> ArchNetworkConfig {
        self.config
    }

    /// The systemd-networkd configurations by name, as first stored.
    pub closed spec fn systemd_entries(self) -> Seq<(String, SystemdNetworkdConfig)> {
        self.systemd_configs@
    }

    pub closed spec fn profiles_view(self) -> Seq<NetworkManagerProfile> {
        self.nm_profiles@
    }

    #[verifier::type_invariant]
    spec fn inv(self) -> bool {
        keys_distinct(self.systemd_configs@)
    }

    /// Nothing discovered yet: no manager in use, no files, profiles or
    /// interfaces.
    pub fn new() -> (r: Self)
        ensures
            !r.config_view().use_systemd_networkd,
            !r.config_view().use_network_manager,
            r.config_view().bridge_configs@.len() == 0,
            r.config_view().detected_interfaces@.len() == 0,
            r.systemd_entries().len() == 0,
            r.profiles_view().len() == 0,
    {
        ArchNetworkManager {
            config: ArchNetworkConfig {
                use_systemd_networkd: false,
                use_network_manager: false,
                bridge_configs: Vec::new(),
                detected_interfaces: Vec::new(),
            },
            systemd_configs: Vec::new(),
            nm_profiles: Vec::new(),
        }
    }

    pub fn get_config(&self) -> (r: &ArchNetworkConfig)
        ensures
            *r == self.config_view(),
    {
        &self.config
    }

    pub fn get_systemd_configs(&self) -> (r: &Vec<(String, SystemdNetworkdConfig)>)
        ensures
            r@ == self.systemd_entries(),
            keys_distinct(r@),
    {
        proof {
            use_type_invariant(self);
        }
        &self.systemd_configs
    }

    pub fn get_nm_profiles(&self) -> (r: &Vec<NetworkManagerProfile>)
        ensures
            r@ == self.profiles_view(),
    {
        &self.nm_profiles
    }

    pub fn is_using_systemd_networkd(&self) -> (r: bool)
        ensures
            r == self.config_view().use_systemd_networkd,
    {
        self.config.use_systemd_networkd
    }

    pub fn is_using_network_manager(&self) -> (r: bool)
        ensures
            r == self.config_view().use_network_manager,
    {
        self.config.use_network_manager
    }

    /// Records which managers are active (`systemctl is-active` succeeded
    /// for systemd-networkd, for NetworkManager).
    pub fn detect_network_manager(&mut self, networkd_active: bool, nm_active: bool)
        ensures
            final(self).config_view().use_systemd_networkd == networkd_active,
            final(self).config_view().use_network_manager == nm_active,
            final(self).config_view().bridge_configs == old(self).config_view().bridge_configs,
            final(self).config_view().detected_interfaces == old(self).config_view().detected_interfaces,
            final(self).systemd_entries() == old(self).systemd_entries(),
            final(self).profiles_view() == old(self).profiles_view(),
    {
        proof {
            use_type_invariant(&*self);
        }
        self.config.use_systemd_networkd = networkd_active;
        self.config.use_network_manager = nm_active;
    }

    /// Reads a systemd-networkd file (`content`: its text, or `None` when it
    /// could not be read, which is an invalid configuration).
    pub fn parse_systemd_config(&self, config_path: &str, content: Option<&str>) -> (r: Result<SystemdNetworkdConfig, NovaError>)
        ensures
            match content {
                None => r == Err::<SystemdNetworkdConfig, NovaError>(NovaError::InvalidConfig),
                Some(t) => r matches Ok(c) && networkd_config_of(c, config_path@, t@),
            },
    {
        let text = match content {
            None => return Err(NovaError::InvalidConfig),
            Some(t) => t,
        };
        let ls = lines_exec(text);
        let ghost lv = views(ls@);
        let mut dhcp = false;
        let mut gateway: Option<String> = None;
        let mut dns: Vec<String> = Vec::new();
        let mut static_ip: Option<String> = None;
        let mut in_net = false;
        let mut in_addr = false;
        let mut i: usize = 0;
        while i < ls.len()
            invariant
                lv == views(ls@),
                lv == lines(text@),
                i <= ls.len(),
                (dhcp, opt_view(gateway), views(dns@), opt_view(static_ip), in_net, in_addr) == networkd_fold(lv.take(i as int)),
            decreases ls.len() - i,
        {
            assert(lv.take(i + 1).drop_last() =~= lv.take(i as int));
            assert(lv.take(i + 1).last() == ls@[i as int]@);
            let line = trim_str(ls[i].as_str());
            let l = line.as_str();
            if str_eq(l, "[Network]") {
                in_net = true;
                in_addr = false;
            } else if str_eq(l, "[Address]") {
                in_addr = true;
                in_net = false;
            } else if str_starts_with(l, "[") {
                in_net = false;
                in_addr = false;
            } else if in_net {
                if str_starts_with(l, "DHCP=") {
                    proof {
                        reveal_strlit("DHCP=");
                        lemma_key_has_value(l@, "DHCP="@);
                    }
                    let v = trim_str(setting_value_exec(l).as_str());
                    let lower = to_lowercase(v.as_str());
                    dhcp = str_eq(lower.as_str(), "yes") || str_eq(v.as_str(), "true");
                } else if str_starts_with(l, "Gateway=") {
                    proof {
                        reveal_strlit("Gateway=");
                        lemma_key_has_value(l@, "Gateway="@);
                    }
                    gateway = Some(trim_str(setting_value_exec(l).as_str()));
                } else if str_starts_with(l, "DNS=") {
                    proof {
                        reveal_strlit("DNS=");
                        lemma_key_has_value(l@, "DNS="@);
                    }
                    let ghost d0 = views(dns@);
                    let mut w = words_exec(setting_value_exec(l).as_str());
                    dns.append(&mut w);
                    assert(views(dns@) =~= d0 + words(setting_value(l@)));
                }
            } else if in_addr && str_starts_with(l, "Address=") {
                proof {
                    reveal_strlit("Address=");
                    lemma_key_has_value(l@, "Address="@);
                }
                static_ip = Some(trim_str(setting_value_exec(l).as_str()));
            }
            i += 1;
        }
        assert(lv.take(ls.len() as int) =~= lv);
        Ok(
            SystemdNetworkdConfig {
                name: file_stem_text(config_path),
                network_file: config_path.to_owned(),
                netdev_file: String::new(),
                dhcp,
                static_ip,
                gateway,
                dns,
            },
        )
    }

    /// Reads the systemd-networkd files found (`path`, and its text or
    /// `None` when it could not be read), in order: those ending in
    /// `.network` or `.netdev` that could be read are stored by name, a
    /// later one over an earlier one of the same name.
    pub fn discover_systemd_configs(&mut self, files: &Vec<(String, Option<String>)>) -> (r: Result<(), NovaError>)
        ensures
            r is Ok,
            configs_stored(pmap(old(self).systemd_entries()), pmap(final(self).systemd_entries()), files@),
            final(self).config_view() == old(self).config_view(),
            final(self).profiles_view() == old(self).profiles_view(),
    {
        proof {
            use_type_invariant(&*self);
        }
        let mut configs: Vec<(String, SystemdNetworkdConfig)> = Vec::new();
        std::mem::swap(&mut configs, &mut self.systemd_configs);
        let ghost m0 = pmap(configs@);
        let mut i: usize = 0;
        while i < files.len()
            invariant
                i <= files.len(),
                keys_distinct(configs@),
                configs_stored(m0, pmap(configs@), files@.take(i as int)),
            decreases files.len() - i,
        {
            assert(files@.take(i + 1).drop_last() =~= files@.take(i as int));
            assert(files@.take(i + 1).last() == files@[i as int]);
            let ghost mprev = pmap(configs@);
            let path = files[i].0.as_str();
            let ext = extension_text(path);
            let wanted = match &ext {
                Some(e) => str_eq(e.as_str(), "network") || str_eq(e.as_str(), "netdev"),
                None => false,
            };
            if wanted {
                let content = match &files[i].1 {
                    Some(t) => Some(t.as_str()),
                    None => None,
                };
                if let Ok(c) = self.parse_systemd_config(path, content) {
                    let key = c.name.clone();
                    put(&mut configs, key, c);
                    assert(config_file(files@[i as int]));
                    assert forall|k: Seq<char>| #[trigger] last_file_for(files@.take(i + 1), k) == if k == c.name@ {
                        Some((path@, files@[i as int].1->0@))
                    } else {
                        last_file_for(files@.take(i as int), k)
                    } by {}
                } else {
                    assert(!config_file(files@[i as int]));
                }
            } else {
                assert(!config_file(files@[i as int]));
            }
            proof {
                if !config_file(files@[i as int]) {
                    assert forall|k: Seq<char>| #[trigger] last_file_for(files@.take(i + 1), k) == last_file_for(files@.take(i as int), k) by {}
                    assert(pmap(configs@) == mprev);
                }
            }
            i += 1;
        }
        assert(files@.take(files.len() as int) =~= files@);
        self.systemd_configs = configs;
        Ok(())
    }

    /// Reads the NetworkManager profiles from the outcome of `nmcli -t -f
    /// NAME,UUID,TYPE,DEVICE,AUTOCONNECT connection show`: a call that could
    /// not be made fails as a system command, a failed one adds nothing,
    /// otherwise each line of five fields adds a profile, in order.
    pub fn discover_nm_profiles(&mut self, out: Result<CommandOutput, String>) -> (r: Result<(), NovaError>)
        ensures
            match out {
                Err(_) => r == Err::<(), NovaError>(NovaError::SystemCommandFailed) && final(self).profiles_view() == old(self).profiles_view(),
                Ok(o) => r is Ok && if o.success {
                    profiles_from(final(self).profiles_view(), old(self).profiles_view(), nm_rows(lines(o.stdout@)))
                } else {
                    final(self).profiles_view() == old(self).profiles_view()
                },
            },
            final(self).config_view() == old(self).config_view(),
            final(self).systemd_entries() == old(self).systemd_entries(),
    {
        let o = match out {
            Err(_) => return Err(NovaError::SystemCommandFailed),
            Ok(o) => o,
        };
        if !o.success {
            return Ok(());
        }
        proof {
            use_type_invariant(&*self);
        }
        let ls = lines_exec(o.stdout.as_str());
        let ghost lv = views(ls@);
        let ghost p0 = self.nm_profiles@;
        let mut profiles: Vec<NetworkManagerProfile> = Vec::new();
        std::mem::swap(&mut profiles, &mut self.nm_profiles);
        let mut i: usize = 0;
        assert(profiles@.take(p0.len() as int) =~= p0);
        while i < ls.len()
            invariant
                lv == views(ls@),
                i <= ls.len(),
                profiles_from(profiles@, p0, nm_rows(lv.take(i as int))),
            decreases ls.len() - i,
        {
            assert(lv.take(i + 1).drop_last() =~= lv.take(i as int));
            assert(lv.take(i + 1).last() == ls@[i as int]@);
            let parts = split_exec(ls[i].as_str(), ':');
            let ghost rows0 = nm_rows(lv.take(i as int));
            let ghost pr0 = profiles@;
            if parts.len() >= 5 {
                let interface = if parts[3].unicode_len() == 0 {
                    None
                } else {
                    Some(parts[3].clone())
                };
                let profile = NetworkManagerProfile {
                    name: parts[0].clone(),
                    uuid: parts[1].clone(),
                    connection_type: parts[2].clone(),
                    interface,
                    autoconnect: str_eq(parts[4].as_str(), "yes"),
                };
                profiles.push(profile);
                assert(profiles@.take(p0.len() as int) =~= pr0.take(p0.len() as int));
                assert(nm_rows(lv.take(i + 1)) =~= rows0.push(nm_profile_row(ls@[i as int]@)->0));
                assert forall|k: int| 0 <= k < rows0.len() + 1 implies profile_matches(#[trigger] profiles@[p0.len() + k], nm_rows(lv.take(i + 1))[k]) by {
                    if k < rows0.len() {
                        assert(profiles@[p0.len() + k] == pr0[p0.len() + k]);
                    }
                }
            } else {
                assert(nm_rows(lv.take(i + 1)) =~= rows0);
            }
            i += 1;
        }
        assert(lv.take(ls.len() as int) =~= lv);
        self.nm_profiles = profiles;
        Ok(())
    }

    /// The network file of the first systemd-networkd configuration that
    /// mentions the interface (see `config_for`).
    pub fn find_systemd_config_for_interface(&self, interface: &str) -> (r: Option<String>)
        ensures
            opt_view(r) == config_for(self.systemd_entries(), interface@),
    {
        let ghost cs = self.systemd_configs@;
        let mut i: usize = 0;
        assert(cs.skip(0) =~= cs);
        while i < self.systemd_configs.len()
            invariant
                cs == self.systemd_configs@,
                i <= cs.len(),
                config_for(cs, interface@) == config_for(cs.skip(i as int), interface@),
            decreases cs.len() - i,
        {
            let c = &self.systemd_configs[i].1;
            assert(cs.skip(i as int)[0] == cs[i as int]);
            if str_contains(c.name.as_str(), interface) || str_contains(c.network_file.as_str(), interface) {
                return Some(c.network_file.clone());
            }
            assert(cs.skip(i as int).drop_first() =~= cs.skip(i + 1));
            i += 1;
        }
        None
    }

    /// Who manages an interface (see `manager_of`).
    pub fn detect_interface_manager(&self, interface: &str, nm_devices: Option<&str>, addr_info: Option<&str>) -> (r: InterfaceManager)
        ensures
            r == manager_of(
                self.config_view().use_network_manager,
                config_for(self.systemd_entries(), interface@) is Some,
                interface@,
                match nm_devices {
                    Some(d) => Some(d@),
                    None => None,
                },
                match addr_info {
                    Some(a) => Some(a@),
                    None => None,
                },
            ),
    {
        if self.config.use_network_manager {
            if let Some(d) = nm_devices {
                let ls = lines_exec(d);
                let ghost lv = views(ls@);
                let mut k: usize = 0;
                while k < ls.len()
                    invariant
                        lv == views(ls@),
                        lv == lines(d@),
                        self.config.use_network_manager,
                        nm_devices == Some(d),
                        k <= ls.len(),
                        forall|j: int| 0 <= j < k ==> trim(#[trigger] lv[j]) != interface@,
                    decreases ls.len() - k,
                {
                    let t = trim_str(ls[k].as_str());
                    if str_eq(t.as_str(), interface) {
                        assert(lv.len() == ls@.len());
                        assert(0 <= k < lines(d@).len());
                        assert(lv[k as int] == ls@[k as int]@);
                        assert(trim(lines(d@)[k as int]) == interface@);
                        assert(nm_lists(lv, interface@));
                        return InterfaceManager::NetworkManager;
                    }
                    k += 1;
                }
            }
        }
        if self.find_systemd_config_for_interface(interface).is_some() {
            return InterfaceManager::SystemdNetworkd;
        }
        if let Some(a) = addr_info {
            if str_contains(a, "inet ") {
                return InterfaceManager::Manual;
            }
        }
        InterfaceManager::Unknown
    }

    /// Records an interface found in `ip -j link show`, unless it is the
    /// loopback or a veth pair: its driver (when the driver link could be
    /// read), its speed (see `speed_of`; `speed_file` is the text of its
    /// `speed` file, when it could be read), its manager and its
    /// systemd-networkd file.
    pub fn add_discovered_interface(
        &mut self,
        name: &str,
        driver: Option<String>,
        speed_file: Option<&str>,
        nm_devices: Option<&str>,
        addr_info: Option<&str>,
    ) -> (added: bool)
        ensures
            added == interface_wanted(name@),
            !added ==> *final(self) == *old(self),
            added ==> {
                let ifs = final(self).config_view().detected_interfaces@;
                let i = ifs.last();
                &&& ifs.drop_last() == old(self).config_view().detected_interfaces@
                &&& i.name@ == name@
                &&& i.driver == driver
                &&& opt_view(i.speed) == match speed_file {
                    Some(t) => speed_of(t@),
                    None => None,
                }
                &&& i.managed_by == manager_of(
                    old(self).config_view().use_network_manager,
                    config_for(old(self).systemd_entries(), name@) is Some,
                    name@,
                    match nm_devices {
                        Some(d) => Some(d@),
                        None => None,
                    },
                    match addr_info {
                        Some(a) => Some(a@),
                        None => None,
                    },
                )
                &&& opt_view(i.systemd_config) == config_for(old(self).systemd_entries(), name@)
            },
            final(self).config_view().use_systemd_networkd == old(self).config_view().use_systemd_networkd,
            final(self).config_view().use_network_manager == old(self).config_view().use_network_manager,
            final(self).systemd_entries() == old(self).systemd_entries(),
            final(self).profiles_view() == old(self).profiles_view(),
    {
        proof {
            use_type_invariant(&*self);
        }
        if str_eq(name, "lo") || str_starts_with(name, "veth") {
            return false;
        }
        let speed = match speed_file {
            Some(t) => speed_text(t),
            None => None,
        };
        let managed_by = self.detect_interface_manager(name, nm_devices, addr_info);
        let systemd_config = self.find_systemd_config_for_interface(name);
        let ghost d0 = self.config.detected_interfaces@;
        let mut found: Vec<ArchInterface> = Vec::new();
        std::mem::swap(&mut found, &mut self.config.detected_interfaces);
        found.push(ArchInterface { name: name.to_owned(), driver, speed, managed_by, systemd_config });
        self.config.detected_interfaces = found;
        assert(self.config.detected_interfaces@.drop_last() =~= d0);
        true
    }

    /// The files of a systemd-networkd bridge over the interfaces (see
    /// `bridge_files_of`).
    pub fn systemd_bridge_files(&self, bridge_name: &str, interfaces: &Vec<String>) -> (r: Vec<(String, String)>)
        ensures
            r@.len() == bridge_files_of(bridge_name@, views(interfaces@)).len(),
            forall|k: int| 0 <= k < r@.len() ==> (#[trigger] r@[k]).0@ == bridge_files_of(bridge_name@, views(interfaces@))[k].0
                && r@[k].1@ == bridge_files_of(bridge_name@, views(interfaces@))[k].1,
    {
        let mut r: Vec<(String, String)> = Vec::new();
        let mut p = cat("/etc/systemd/network/25-", bridge_name);
        p.append(".netdev");
        let mut t = cat("[NetDev]\nName=", bridge_name);
        t.append("\nKind=bridge\n\n[Bridge]\nSTP=yes\n");
        r.push((p, t));
        let mut p2 = cat("/etc/systemd/network/25-", bridge_name);
        p2.append(".network");
        let mut t2 = cat("[Match]\nName=", bridge_name);
        t2.append("\n\n[Network]\nDHCP=yes\nIPForward=yes\n");
        r.push((p2, t2));
        let ghost spec_files = bridge_files_of(bridge_name@, views(interfaces@));
        let mut i: usize = 0;
        while i < interfaces.len()
            invariant
                spec_files == bridge_files_of(bridge_name@, views(interfaces@)),
                i <= interfaces.len(),
                r@.len() == 2 + i,
                forall|k: int| 0 <= k < r@.len() ==> (#[trigger] r@[k]).0@ == spec_files[k].0 && r@[k].1@ == spec_files[k].1,
            decreases interfaces.len() - i,
        {
            let iface = interfaces[i].as_str();
            let mut bp = cat("/etc/systemd/network/25-", iface);
            bp.append("-bind.network");
            let mut bt = cat("[Match]\nName=", iface);
            bt.append("\n\n[Network]\nBridge=");
            bt.append(bridge_name);
            bt.append("\n");
            r.push((bp, bt));
            assert(spec_files[2 + i] == ("/etc/systemd/network/25-"@ + views(interfaces@)[i as int] + "-bind.network"@, bind_text(views(interfaces@)[i as int], bridge_name@)));
            i += 1;
        }
        r
    }

    /// The `nmcli` calls that make a NetworkManager bridge, in order: the
    /// bridge connection, one enslaved connection per interface, and
    /// bringing the bridge up. A failure of the first or the last call
    /// fails the bridge; a failed enslaving is only reported.
    pub fn nm_bridge_commands(&self, bridge_name: &str, interfaces: &Vec<String>) -> (r: Vec<Vec<String>>)
        ensures
            r@.len() == interfaces@.len() + 2,
            views(r@[0]@) == seq!["connection"@, "add"@, "type"@, "bridge"@, "con-name"@, bridge_name@, "ifname"@, bridge_name@],
            forall|k: int| 0 <= k < interfaces@.len() ==> views(#[trigger] r@[k + 1]@) == seq![
                "connection"@, "add"@, "type"@, "bridge-slave"@, "con-name"@,
                bridge_name@ + "-slave-"@ + interfaces@[k]@, "ifname"@, interfaces@[k]@, "master"@, bridge_name@,
            ],
            views(r@[interfaces@.len() + 1int]@) == seq!["connection"@, "up"@, bridge_name@],
    {
        let mut r: Vec<Vec<String>> = Vec::new();
        let first: Vec<String> = vec!["connection".to_owned(), "add".to_owned(), "type".to_owned(), "bridge".to_owned(), "con-name".to_owned(), bridge_name.to_owned(), "ifname".to_owned(), bridge_name.to_owned()];
        assert(views(first@) =~= seq!["connection"@, "add"@, "type"@, "bridge"@, "con-name"@, bridge_name@, "ifname"@, bridge_name@]);
        r.push(first);
        let mut i: usize = 0;
        while i < interfaces.len()
            invariant
                i <= interfaces.len(),
                r@.len() == i + 1,
                views(r@[0]@) == seq!["connection"@, "add"@, "type"@, "bridge"@, "con-name"@, bridge_name@, "ifname"@, bridge_name@],
                forall|k: int| 0 <= k < i ==> views(#[trigger] r@[k + 1]@) == seq![
                    "connection"@, "add"@, "type"@, "bridge-slave"@, "con-name"@,
                    bridge_name@ + "-slave-"@ + interfaces@[k]@, "ifname"@, interfaces@[k]@, "master"@, bridge_name@,
                ],
            decreases interfaces.len() - i,
        {
            let mut slave = cat(bridge_name, "-slave-");
            slave.append(interfaces[i].as_str());
            let c: Vec<String> = vec!["connection".to_owned(), "add".to_owned(), "type".to_owned(), "bridge-slave".to_owned(), "con-name".to_owned(), slave, "ifname".to_owned(), interfaces[i].clone(), "master".to_owned(), bridge_name.to_owned()];
            assert(views(c@) =~= seq![
                "connection"@, "add"@, "type"@, "bridge-slave"@, "con-name"@,
                bridge_name@ + "-slave-"@ + interfaces@[i as int]@, "ifname"@, interfaces@[i as int]@, "master"@, bridge_name@,
            ]);
            r.push(c);
            i += 1;
        }
        let last: Vec<String> = vec!["connection".to_owned(), "up".to_owned(), bridge_name.to_owned()];
        assert(views(last@) =~= seq!["connection"@, "up"@, bridge_name@]);
        r.push(last);
        r
    }

    /// The kernel modules that virtualization needs (see `kvm_modules_of`).
    pub fn kvm_modules(&self) -> (r: Vec<String>)
        ensures
            views(r@) == kvm_modules_of(),
    {
        let v: Vec<String> = vec!["kvm".to_owned(), "kvm_intel".to_owned(), "kvm_amd".to_owned(), "vhost_net".to_owned(), "bridge".to_owned(), "br_netfilter".to_owned()];
        assert(views(v@) =~= kvm_modules_of());
        v
    }

    /// The text of the modules-load file: the modules, one per line.
    pub fn kvm_modules_conf(&self) -> (r: String)
        ensures
            r@ == join(kvm_modules_of(), "\n"@),
    {
        join_exec(&self.kvm_modules(), "\n")
    }

    /// The systemd drop-in that raises the open-file and locked-memory
    /// limits for virtualization: its path and its text.
    pub fn virtualization_dropin(&self) -> (r: (String, String))
        ensures
            r.0@ == "/etc/systemd/system.conf.d/nova-virtualization.conf"@,
            r.1@ == "[Manager]\nDefaultLimitNOFILE=65536\nDefaultLimitMEMLOCK=infinity\n"@,
    {
        (
            "/etc/systemd/system.conf.d/nova-virtualization.conf".to_owned(),
            "[Manager]\nDefaultLimitNOFILE=65536\nDefaultLimitMEMLOCK=infinity\n".to_owned(),
        )
    }

    /// The groups that must exist for KVM access.
    pub fn kvm_groups(&self) -> (r: Vec<String>)
        ensures
            views(r@) == seq!["kvm"@, "libvirt"@],
    {
        let v: Vec<String> = vec!["kvm".to_owned(), "libvirt".to_owned()];
        assert(views(v@) =~= seq!["kvm"@, "libvirt"@]);
        v
    }
}

/// A file found is read as a systemd-networkd configuration: it ends in
/// `.network` or `.netdev` and its text could be read.
pub open spec fn config_file(f: (String, Option<String>)) -> bool {
    (path_extension(f.0@) == Some("network"@) || path_extension(f.0@) == Some("netdev"@)) && f.1 is Some
}

/// The last configuration file among `files` whose name (file stem) is `k`.
pub open spec fn last_file_for(files: Seq<(String, Option<String>)>, k: Seq<char>) -> Option<(Seq<char>, Seq<char>)>
    decreases files.len(),
{
    if files.len() == 0 {
        None
    } else {
        let f = files.last();
        if config_file(f) && path_file_stem(f.0@) == k {
            Some((f.0@, f.1->0@))
        } else {
            last_file_for(files.drop_last(), k)
        }
    }
}

/// `new` holds the configurations of `old`, each name read again from the
/// last configuration file of that name among `files`.
pub open spec fn configs_stored(
    old: Map<Seq<char>, SystemdNetworkdConfig>,
    new: Map<Seq<char>, SystemdNetworkdConfig>,
    files: Seq<(String, Option<String>)>,
) -> bool {
    &&& forall|k: Seq<char>| #[trigger] new.dom().contains(k) <==> old.dom().contains(k) || last_file_for(files, k) is Some
    &&& forall|k: Seq<char>| #[trigger] last_file_for(files, k) matches Some(f) ==> networkd_config_of(new[k], f.0, f.1)
    &&& forall|k: Seq<char>| #[trigger] last_file_for(files, k) is None && old.dom().contains(k) ==> new[k] == old[k]
}

/// `new` is `old` followed by profiles matching `rows`, in order.
pub open spec fn profiles_from(new: Seq<NetworkManagerProfile>, old: Seq<NetworkManagerProfile>, rows: Seq<(Seq<char>, Seq<char>, Seq<char>, Option<Seq<char>>, bool)>) -> bool {
    &&& new.len() == old.len() + rows.len()
    &&& new.take(old.len() as int) == old
    &&& forall|k: int| 0 <= k < rows.len() ==> profile_matches(#[trigger] new[old.len() + k], rows[k])
}

/// The link speed an interface's `speed` file shows (see `speed_of`).
pub fn speed_text(content: &str) -> (r: Option<String>)
    ensures
        opt_view(r) == speed_of(content@),
{
    let t = trim_str(content);
    if !str_eq(t.as_str(), "-1") {
        Some(cat(t.as_str(), "Mbps"))
    } else {
        None
    }
}

} // verus!

//! libvirt virtual networks: reading a network from its XML definition,
//! writing the definition of one, and the networks the manager knows.
use vstd::prelude::*;
use crate::container_runtime::CommandOutput;
use crate::error::NovaError;
use crate::gpu_passthrough::{clone_opt, opt_view};
use crate::text::{
    all_digits, cat, chars_of, contains, dec, dec_string, digits_val, find, find_exec, find_from,
    find_from_exec, is_digit, lemma_find_from, lines, lines_exec, parse_uint, parse_uint_exec,
    rfind_char, rfind_char_exec, split_char, split_exec, str_contains, str_eq, string_of, trim,
    trim_str, views,
};

verus! {

/// An IPv4 address by its four octets.
#[derive(Debug, Clone, Copy, PartialEq, Eq, Structural)]
pub struct Ipv4 {
    pub a: u8,
    pub b: u8,
    pub c: u8,
    pub d: u8,
}

#[derive(Debug)]
pub struct LibvirtNetwork {
    pub name: String,
    pub uuid: Option<String>,
    pub forward: Option<ForwardMode>,
    pub bridge: Option<BridgeConfig>,
    pub ip: Option<IpConfig>,
    pub dns: Option<DnsConfig>,
    pub autostart: bool,
    pub active: bool,
}

#[derive(Debug)]
pub struct ForwardMode {
    /// nat, route, bridge, passthrough, private, vepa, hostdev
    pub mode: String,
    pub dev: Option<String>,
    pub interfaces: Vec<String>,
}

#[derive(Debug)]
pub struct BridgeConfig {
    pub name: String,
    pub stp: Option<bool>,
    pub delay: Option<u32>,
}

#[derive(Debug)]
pub struct IpConfig {
    pub address: Ipv4,
    pub netmask: Ipv4,
    pub dhcp: Option<DhcpRange>,
}

#[derive(Debug)]
pub struct DhcpRange {
    pub start: Ipv4,
    pub end: Ipv4,
    pub hosts: Vec<DhcpHost>,
}

#[derive(Debug)]
pub struct DhcpHost {
    pub mac: String,
    pub name: String,
    pub ip: Ipv4,
}

#[derive(Debug)]
pub struct DnsConfig {
    pub forwarders: Vec<Ipv4>,
    pub hosts: Vec<DnsHost>,
}

#[derive(Debug)]
pub struct DnsHost {
    pub ip: Ipv4,
    pub hostname: String,
}

/// The networks the manager knows.
pub struct LibvirtManager {
    networks: Vec<LibvirtNetwork>,
}

// ---------------------------------------------------------------------------
// IPv4 text
// ---------------------------------------------------------------------------

/// One octet of a dotted address: one to three digits, no leading zero,
/// at most 255.
pub open spec fn octet_of(p: Seq<char>) -> Option<u8> {
    if 1 <= p.len() <= 3 && all_digits(p) && (p.len() == 1 || p[0] != '0') && digits_val(p) <= 255 {
        Some(digits_val(p) as u8)
    } else {
        None
    }
}

/// A dotted-quad address (`Ipv4Addr::from_str`): four octets joined by dots.
pub open spec fn ipv4_of(s: Seq<char>) -> Option<Ipv4> {
    let p = split_char(s, '.');
    if p.len() == 4 && octet_of(p[0]) is Some && octet_of(p[1]) is Some && octet_of(p[2]) is Some
        && octet_of(p[3]) is Some {
        Some(Ipv4 { a: octet_of(p[0])->0, b: octet_of(p[1])->0, c: octet_of(p[2])->0, d: octet_of(p[3])->0 })
    } else {
        None
    }
}

/// An address written as a dotted quad.
pub open spec fn ipv4_text(ip: Ipv4) -> Seq<char> {
    dec(ip.a as nat) + "."@ + dec(ip.b as nat) + "."@ + dec(ip.c as nat) + "."@ + dec(ip.d as nat)
}

fn octet_exec(p: &str) -> (r: Option<u8>)
    ensures
        r == octet_of(p@),
{
    let v = chars_of(p);
    if v.len() < 1 || v.len() > 3 {
        return None;
    }
    if v.len() > 1 && v[0] == '0' {
        return None;
    }
    let mut acc: u32 = 0;
    let mut i: usize = 0;
    while i < v.len()
        invariant
            v@ == p@,
            1 <= v.len() <= 3,
            i <= v.len(),
            all_digits(v@.take(i as int)),
            acc == digits_val(v@.take(i as int)),
            acc < (if i == 0 { 1int } else if i == 1 { 10int } else if i == 2 { 100int } else { 1000int }),
        decreases v.len() - i,
    {
        if !('0' <= v[i] && v[i] <= '9') {
            assert(!is_digit(v@[i as int]));
            return None;
        }
        assert(v@.take(i + 1).drop_last() =~= v@.take(i as int));
        acc = acc * 10 + (v[i] as u32 - 48);
        assert(all_digits(v@.take(i + 1))) by {
            assert forall|j: int| 0 <= j < i + 1 implies #[trigger] is_digit(v@.take(i + 1)[j]) by {
                if j < i {
                    assert(v@.take(i + 1)[j] == v@.take(i as int)[j]);
                }
            }
        }
        i += 1;
    }
    assert(v@.take(v.len() as int) =~= v@);
    if acc > 255 {
        None
    } else {
        Some(acc as u8)
    }
}

/// Reads a dotted-quad address (see `ipv4_of`).
pub fn parse_ipv4(s: &str) -> (r: Option<Ipv4>)
    ensures
        r == ipv4_of(s@),
{
    let p = split_exec(s, '.');
    if p.len() != 4 {
        return None;
    }
    let a = octet_exec(p[0].as_str());
    let b = octet_exec(p[1].as_str());
    let c = octet_exec(p[2].as_str());
    let d = octet_exec(p[3].as_str());
    match (a, b, c, d) {
        (Some(a), Some(b), Some(c), Some(d)) => Some(Ipv4 { a, b, c, d }),
        _ => None,
    }
}

/// An address as a dotted quad.
pub fn ipv4_string(ip: Ipv4) -> (r: String)
    ensures
        r@ == ipv4_text(ip),
{
    let mut r = dec_string(ip.a as u64);
    r.append(".");
    r.append(dec_string(ip.b as u64).as_str());
    r.append(".");
    r.append(dec_string(ip.c as u64).as_str());
    r.append(".");
    r.append(dec_string(ip.d as u64).as_str());
    r
}

// ---------------------------------------------------------------------------
// Reading a network definition
// ---------------------------------------------------------------------------

/// The value of `attr="..."` in a tag: the text after the first `attr="`
/// up to the next `"`.
pub open spec fn attribute_of(tag: Seq<char>, attr: Seq<char>) -> Option<Seq<char>> {
    let pat = attr + "=\""@;
    match find(tag, pat) {
        Some(st) => match find_from(tag, "\""@, st + pat.len()) {
            Some(e) => Some(tag.subrange((st + pat.len()) as int, e as int)),
            None => None,
        },
        None => None,
    }
}

/// The text from the first `open` up to the first `close` after it, with
/// `extra` more characters (the close marker, or part of it).
pub open spec fn element_of(xml: Seq<char>, open: Seq<char>, close: Seq<char>, extra: nat) -> Option<Seq<char>> {
    match find(xml, open) {
        Some(s) => match find_from(xml, close, s) {
            Some(e) => Some(xml.subrange(s as int, (e + extra) as int)),
            None => None,
        },
        None => None,
    }
}

/// The text of the first `<uuid>` element.
pub open spec fn uuid_of(xml: Seq<char>) -> Option<Seq<char>> {
    match find(xml, "<uuid>"@) {
        Some(s) => match find_from(xml, "</uuid>"@, s) {
            Some(e) => Some(xml.subrange((s + 6) as int, e as int)),
            None => None,
        },
        None => None,
    }
}

/// `bool::from_str`.
pub open spec fn bool_of(s: Seq<char>) -> Option<bool> {
    if s == "true"@ {
        Some(true)
    } else if s == "false"@ {
        Some(false)
    } else {
        None
    }
}

/// The DHCP range of the first `<dhcp>` section: its first `<range .../>`
/// with readable `start` and `end` addresses.
pub open spec fn dhcp_of(xml: Seq<char>) -> Option<(Ipv4, Ipv4)> {
    match element_of(xml, "<dhcp>"@, "</dhcp>"@, 0) {
        Some(section) => match element_of(section, "<range"@, "/>"@, 2) {
            Some(tag) => match (attribute_of(tag, "start"@), attribute_of(tag, "end"@)) {
                (Some(a), Some(b)) => match (ipv4_of(a), ipv4_of(b)) {
                    (Some(x), Some(y)) => Some((x, y)),
                    _ => None,
                },
                _ => None,
            },
            None => None,
        },
        None => None,
    }
}

/// `n` is the network named `name` that the XML definition describes; it
/// is active as given. The uuid is the first `<uuid>` element's text; the
/// bridge the first `<bridge .../>` tag (its `name`, else `virbr-<name>`;
/// `stp` and `delay` when readable); the forward mode the first `<forward
/// .../>` tag with a `mode`; the address the first `<ip ...>` tag with
/// readable `address` and `netmask`, with the DHCP range of `dhcp_of`.
/// Attribute values are read between double quotes.
pub open spec fn network_of(n: LibvirtNetwork, xml: Seq<char>, name: Seq<char>, active: bool) -> bool {
    &&& n.name@ == name
    &&& opt_view(n.uuid) == uuid_of(xml)
    &&& n.dns is None
    &&& !n.autostart
    &&& n.active == active
    &&& match element_of(xml, "<bridge"@, "/>"@, 2) {
        Some(tag) => n.bridge matches Some(b) && b.name@ == match attribute_of(tag, "name"@) {
            Some(v) => v,
            None => "virbr-"@ + name,
        } && b.stp == match attribute_of(tag, "stp"@) {
            Some(v) => bool_of(v),
            None => None,
        } && (match b.delay {
            Some(d) => attribute_of(tag, "delay"@) matches Some(v) && parse_uint(v, 4294967295) == Some(d as nat),
            None => attribute_of(tag, "delay"@) matches Some(v) ==> parse_uint(v, 4294967295) is None,
        }),
        None => n.bridge is None,
    }
    &&& match element_of(xml, "<forward"@, "/>"@, 2) {
        Some(tag) => match attribute_of(tag, "mode"@) {
            Some(m) => n.forward matches Some(f) && f.mode@ == m && opt_view(f.dev) == attribute_of(tag, "dev"@)
                && f.interfaces@.len() == 0,
            None => n.forward is None,
        },
        None => n.forward is None,
    }
    &&& match element_of(xml, "<ip"@, ">"@, 1) {
        Some(tag) => match (attribute_of(tag, "address"@), attribute_of(tag, "netmask"@)) {
            (Some(a), Some(m)) => match (ipv4_of(a), ipv4_of(m)) {
                (Some(x), Some(y)) => n.ip matches Some(ip) && ip.address == x && ip.netmask == y && match dhcp_of(xml) {
                    Some((s, e)) => ip.dhcp matches Some(d) && d.start == s && d.end == e && d.hosts@.len() == 0,
                    None => ip.dhcp is None,
                },
                _ => n.ip is None,
            },
            _ => n.ip is None,
        },
        None => n.ip is None,
    }
}

fn lit(s: &str) -> (v: Vec<char>)
    ensures
        v@ == s@,
{
    chars_of(s)
}

/// The value of an attribute in a tag (see `attribute_of`).
pub fn extract_attribute(tag: &str, attr_name: &str) -> (r: Option<String>)
    ensures
        opt_view(r) == attribute_of(tag@, attr_name@),
{
    let t = chars_of(tag);
    let pat = chars_of(cat(attr_name, "=\"").as_str());
    match find_exec(&t, &pat) {
        Some(st) => {
            proof {
                lemma_find_from(t@, pat@, 0);
            }
            assert(crate::text::has_at(t@, pat@, st as int));
            assert(st + pat.len() <= t.len());
            let vs = st + pat.len();
            match find_from_exec(&t, &lit("\""), vs) {
                Some(e) => {
                    proof {
                        lemma_find_from(t@, "\""@, vs as nat);
                    }
                    Some(string_of(&t, vs, e))
                },
                None => None,
            }
        },
        None => None,
    }
}

/// The span of an element (see `element_of`).
fn element_exec(xml: &Vec<char>, open: &str, close: &str, extra: usize) -> (r: Option<(usize, usize)>)
    requires
        extra <= close@.len(),
    ensures
        match element_of(xml@, open@, close@, extra as nat) {
            Some(t) => r matches Some((a, b)) && a <= b <= xml@.len() && xml@.subrange(a as int, b as int) == t,
            None => r is None,
        },
{
    match find_exec(xml, &lit(open)) {
        Some(s) => {
            match find_from_exec(xml, &lit(close), s) {
                Some(e) => {
                    proof {
                        lemma_find_from(xml@, close@, s as nat);
                        lemma_find_from(xml@, open@, 0);
                    }
                    assert(crate::text::has_at(xml@, close@, e as int));
                    assert(e + close@.len() <= xml.len());
                    Some((s, e + extra))
                },
                None => None,
            }
        },
        None => None,
    }
}

fn parse_bool(s: &str) -> (r: Option<bool>)
    ensures
        r == bool_of(s@),
{
    if str_eq(s, "true") {
        Some(true)
    } else if str_eq(s, "false") {
        Some(false)
    } else {
        None
    }
}

fn uuid_exec(xml: &Vec<char>) -> (r: Option<String>)
    ensures
        opt_view(r) == uuid_of(xml@),
{
    match find_exec(xml, &lit("<uuid>")) {
        Some(s) => {
            match find_from_exec(xml, &lit("</uuid>"), s) {
                Some(e) => {
                    proof {
                        lemma_find_from(xml@, "<uuid>"@, 0);
                        lemma_find_from(xml@, "</uuid>"@, s as nat);
                        reveal_strlit("<uuid>");
                        reveal_strlit("</uuid>");
                        assert(xml@.subrange(s as int, s + 6) == "<uuid>"@);
                        assert forall|j: int| s <= j < s + 6 implies !#[trigger] has_at_uuid_end(xml@, j) by {
                            if has_at_uuid_end(xml@, j) {
                                assert(xml@.subrange(j, j + 7) == "</uuid>"@);
                                assert(xml@.subrange(j, j + 7)[0] == xml@[j]);
                                assert(xml@.subrange(j, j + 7)[1] == xml@[j + 1]);
                                assert(xml@[j] == '<');
                                assert(xml@[j + 1] == '/');
                                assert(xml@.subrange(s as int, s + 6)[j - s] == xml@[j]);
                                if j + 1 < s + 6 {
                                    assert(xml@.subrange(s as int, s + 6)[j + 1 - s] == xml@[j + 1]);
                                }
                            }
                        }
                        if e < s + 6 {
                            assert(has_at_uuid_end(xml@, e as int));
                        }
                    }
                    Some(string_of(xml, s + 6, e))
                },
                None => None,
            }
        },
        None => None,
    }
}

spec fn has_at_uuid_end(s: Seq<char>, j: int) -> bool {
    crate::text::has_at(s, "</uuid>"@, j)
}

fn dhcp_exec(xml: &Vec<char>) -> (r: Option<DhcpRange>)
    ensures
        match dhcp_of(xml@) {
            Some((s, e)) => r matches Some(d) && d.start == s && d.end == e && d.hosts@.len() == 0,
            None => r is None,
        },
{
    proof {
        reveal_strlit("/>");
    }
    let (a, b) = match element_exec(xml, "<dhcp>", "</dhcp>", 0) {
        Some(x) => x,
        None => return None,
    };
    let section = chars_of(string_of(xml, a, b).as_str());
    let (c, d) = match element_exec(&section, "<range", "/>", 2) {
        Some(x) => x,
        None => return None,
    };
    let tag = string_of(&section, c, d);
    let st = extract_attribute(tag.as_str(), "start");
    let en = extract_attribute(tag.as_str(), "end");
    match (st, en) {
        (Some(x), Some(y)) => match (parse_ipv4(x.as_str()), parse_ipv4(y.as_str())) {
            (Some(s), Some(e)) => Some(DhcpRange { start: s, end: e, hosts: Vec::new() }),
            _ => None,
        },
        _ => None,
    }
}

impl LibvirtManager {
    pub closed spec fn networks_view(self) -> Seq<LibvirtNetwork> {
        self.networks@
    }

    /// A manager that knows no network yet.
    pub fn new() -> (r: Self)
        ensures
            r.networks_view().len() == 0,
    {
        LibvirtManager { networks: Vec::new() }
    }

    /// Whether `virsh net-info` (its output, when it succeeded) shows the
    /// network active.
    pub fn is_network_active(&self, net_info: Option<&str>) -> (r: bool)
        ensures
            r == (net_info matches Some(i) && contains(i@, "Active:         yes"@)),
    {
        match net_info {
            Some(i) => str_contains(i, "Active:         yes"),
            None => false,
        }
    }

    /// The network `name` that its XML definition describes (see
    /// `network_of`); reading never fails.
    pub fn parse_network_xml(&self, xml_content: &str, name: &str, active: bool) -> (r: Result<LibvirtNetwork, NovaError>)
        ensures
            r matches Ok(n) && network_of(n, xml_content@, name@, active),
    {
        let xml = chars_of(xml_content);
        let uuid = uuid_exec(&xml);
        proof {
            reveal_strlit("/>");
            reveal_strlit(">");
        }
        let bridge = match element_exec(&xml, "<bridge", "/>", 2) {
            Some((a, b)) => {
                let tag = string_of(&xml, a, b);
                let bname = match extract_attribute(tag.as_str(), "name") {
                    Some(v) => v,
                    None => cat("virbr-", name),
                };
                let stp = match extract_attribute(tag.as_str(), "stp") {
                    Some(v) => parse_bool(v.as_str()),
                    None => None,
                };
                let delay = match extract_attribute(tag.as_str(), "delay") {
                    Some(v) => match parse_uint_exec(v.as_str(), 4294967295) {
                        Some(d) => Some(d as u32),
                        None => None,
                    },
                    None => None,
                };
                Some(BridgeConfig { name: bname, stp, delay })
            },
            None => None,
        };
        let forward = match element_exec(&xml, "<forward", "/>", 2) {
            Some((a, b)) => {
                let tag = string_of(&xml, a, b);
                match extract_attribute(tag.as_str(), "mode") {
                    Some(mode) => Some(
                        ForwardMode { mode, dev: extract_attribute(tag.as_str(), "dev"), interfaces: Vec::new() },
                    ),
                    None => None,
                }
            },
            None => None,
        };
        let ip = match element_exec(&xml, "<ip", ">", 1) {
            Some((a, b)) => {
                let tag = string_of(&xml, a, b);
                match (extract_attribute(tag.as_str(), "address"), extract_attribute(tag.as_str(), "netmask")) {
                    (Some(x), Some(m)) => match (parse_ipv4(x.as_str()), parse_ipv4(m.as_str())) {
                        (Some(address), Some(netmask)) => Some(IpConfig { address, netmask, dhcp: dhcp_exec(&xml) }),
                        _ => None,
                    },
                    _ => None,
                }
            },
            None => None,
        };
        Ok(
            LibvirtNetwork {
                name: name.to_owned(),
                uuid,
                forward,
                bridge,
                ip,
                dns: None,
                autostart: false,
                active,
            },
        )
    }

    /// A network read from `virsh net-dumpxml` (the outcome of the call) and
    /// `virsh net-info` (its output, when it succeeded): a call that could
    /// not be made fails as a system command, a failed one means the network
    /// was not found.
    pub fn get_network_info(&self, name: &str, dumpxml: Result<CommandOutput, String>, net_info: Option<&str>) -> (r: Result<
        LibvirtNetwork,
        NovaError,
    >)
        ensures
            match dumpxml {
                Err(_) => r == Err::<LibvirtNetwork, NovaError>(NovaError::SystemCommandFailed),
                Ok(o) => if o.success {
                    r matches Ok(n) && network_of(n, o.stdout@, name@, net_info matches Some(i) && contains(i@, "Active:         yes"@))
                } else {
                    r matches Err(NovaError::NetworkNotFound(m)) && m@ == name@
                },
            },
    {
        let o = match dumpxml {
            Err(_) => return Err(NovaError::SystemCommandFailed),
            Ok(o) => o,
        };
        if !o.success {
            return Err(NovaError::NetworkNotFound(name.to_owned()));
        }
        let active = self.is_network_active(net_info);
        self.parse_network_xml(o.stdout.as_str(), name, active)
    }

    /// Starts discovering the networks, from `virsh net-list --all --name`
    /// (the outcome of the call): without libvirt nothing happens and no
    /// name is given; otherwise the known networks are forgotten, a call
    /// that could not be made or failed is a failed system command, and the
    /// names listed (trimmed, non-empty lines) are given back.
    pub fn discover_networks(&mut self, libvirt_available: bool, listing: Result<CommandOutput, String>) -> (r: Result<
        Vec<String>,
        NovaError,
    >)
        ensures
            !libvirt_available ==> (r matches Ok(v) && v@.len() == 0 && final(self).networks_view() == old(self).networks_view()),
            libvirt_available ==> final(self).networks_view().len() == 0 && match listing {
                Ok(o) => if o.success {
                    r matches Ok(v) && views(v@) == network_names_of(lines(o.stdout@))
                } else {
                    r == Err::<Vec<String>, NovaError>(NovaError::SystemCommandFailed)
                },
                Err(_) => r == Err::<Vec<String>, NovaError>(NovaError::SystemCommandFailed),
            },
    {
        if !libvirt_available {
            return Ok(Vec::new());
        }
        self.networks = Vec::new();
        let o = match listing {
            Err(_) => return Err(NovaError::SystemCommandFailed),
            Ok(o) => o,
        };
        if !o.success {
            return Err(NovaError::SystemCommandFailed);
        }
        let ls = lines_exec(o.stdout.as_str());
        let ghost lv = views(ls@);
        let mut names: Vec<String> = Vec::new();
        let mut i: usize = 0;
        while i < ls.len()
            invariant
                lv == views(ls@),
                i <= ls.len(),
                views(names@) == network_names_of(lv.take(i as int)),
            decreases ls.len() - i,
        {
            assert(lv.take(i + 1).drop_last() =~= lv.take(i as int));
            assert(lv.take(i + 1).last() == ls@[i as int]@);
            let ghost n0 = views(names@);
            let n = trim_str(ls[i].as_str());
            if n.unicode_len() > 0 {
                names.push(n);
                assert(views(names@) =~= n0.push(trim(ls@[i as int]@)));
            }
            i += 1;
        }
        assert(lv.take(ls.len() as int) =~= lv);
        Ok(names)
    }

    /// Adds a network read during discovery.
    pub fn add_discovered_network(&mut self, network: LibvirtNetwork)
        ensures
            final(self).networks_view() == old(self).networks_view().push(network),
    {
        self.networks.push(network);
    }

    /// The arguments of `virsh` that switch a network's autostart on or off.
    pub fn set_network_autostart_args(&self, name: &str, enable: bool) -> (r: Vec<String>)
        ensures
            enable ==> views(r@) == seq!["net-autostart"@, name@],
            !enable ==> views(r@) == seq!["net-autostart"@, "--disable"@, name@],
    {
        let v: Vec<String> = if enable {
            vec!["net-autostart".to_owned(), name.to_owned()]
        } else {
            vec!["net-autostart".to_owned(), "--disable".to_owned(), name.to_owned()]
        };
        assert(enable ==> views(v@) =~= seq!["net-autostart"@, name@]);
        assert(!enable ==> views(v@) =~= seq!["net-autostart"@, "--disable"@, name@]);
        v
    }

    /// The XML definition of a network (see `network_xml_of`).
    pub fn generate_network_xml(&self, network: &LibvirtNetwork) -> (r: Result<String, NovaError>)
        ensures
            r matches Ok(x) && x@ == network_xml_of(*network),
    {
        let mut xml = "<?xml version=\"1.0\" encoding=\"UTF-8\"?>\n".to_owned();
        xml.append("<network>\n  <name>");
        xml.append(network.name.as_str());
        xml.append("</name>\n");
        let ghost x0 = xml@;
        if let Some(uuid) = &network.uuid {
            xml.append("  <uuid>");
            xml.append(uuid.as_str());
            xml.append("</uuid>\n");
        }
        assert(xml@ =~= x0 + uuid_xml(network.uuid));
        let ghost x1 = xml@;
        if let Some(forward) = &network.forward {
            let f = forward_xml_exec(forward);
            xml.append(f.as_str());
        }
        assert(xml@ =~= x1 + match network.forward {
            Some(f) => forward_xml(f),
            None => Seq::<char>::empty(),
        });
        let ghost x2 = xml@;
        if let Some(bridge) = &network.bridge {
            let b = bridge_xml_exec(bridge);
            xml.append(b.as_str());
        }
        assert(xml@ =~= x2 + match network.bridge {
            Some(b) => bridge_xml(b),
            None => Seq::<char>::empty(),
        });
        let ghost x3 = xml@;
        if let Some(ip) = &network.ip {
            let t = ip_xml_exec(ip);
            xml.append(t.as_str());
        }
        assert(xml@ =~= x3 + match network.ip {
            Some(ip) => ip_xml(ip),
            None => Seq::<char>::empty(),
        });
        xml.append("</network>\n");
        Ok(xml)
    }

    /// The file the definition of a network is written to before `virsh
    /// net-define` reads it.
    pub fn network_xml_path(&self, network: &LibvirtNetwork) -> (r: String)
        ensures
            r@ == "/tmp/nova-network-"@ + network.name@ + ".xml"@,
    {
        let mut p = cat("/tmp/nova-network-", network.name.as_str());
        p.append(".xml");
        p
    }

    /// Forgets a network once `virsh net-undefine` ran (the outcome of the
    /// call): a call that could not be made or failed is a failed system
    /// command and forgets nothing; otherwise every network of that name is
    /// forgotten.
    pub fn delete_network(&mut self, name: &str, undefine: Result<CommandOutput, String>) -> (r: Result<(), NovaError>)
        ensures
            (undefine matches Ok(o) && o.success) ==> r is Ok && final(self).networks_view() == old(self).networks_view().filter(
                |n: LibvirtNetwork| n.name@ != name@,
            ),
            !(undefine matches Ok(o) && o.success) ==> r == Err::<(), NovaError>(NovaError::SystemCommandFailed)
                && final(self).networks_view() == old(self).networks_view(),
    {
        match undefine {
            Ok(o) => {
                if !o.success {
                    return Err(NovaError::SystemCommandFailed);
                }
            },
            Err(_) => return Err(NovaError::SystemCommandFailed),
        }
        let ghost ns = self.networks@;
        let ghost f = |n: LibvirtNetwork| n.name@ != name@;
        let mut kept: Vec<LibvirtNetwork> = Vec::new();
        let mut rest: Vec<LibvirtNetwork> = Vec::new();
        std::mem::swap(&mut rest, &mut self.networks);
        let total = rest.len();
        let mut k: usize = 0;
        assert(ns.skip(0) =~= ns);
        while rest.len() > 0
            invariant
                k + rest@.len() == ns.len(),
                ns.len() == total,
                rest@ == ns.skip(k as int),
                kept@ == ns.take(k as int).filter(f),
                forall|n: LibvirtNetwork| #[trigger] f(n) == (n.name@ != name@),
            decreases rest.len(),
        {
            let n = rest.remove(0);
            assert(n == ns[k as int]);
            assert(ns.take(k + 1).drop_last() =~= ns.take(k as int));
            proof {
                reveal_with_fuel(Seq::<_>::filter, 1);
            }
            if !str_eq(n.name.as_str(), name) {
                kept.push(n);
            }
            assert(kept@ =~= ns.take(k + 1).filter(f));
            assert(rest@ =~= ns.skip(k + 1));
            k += 1;
        }
        assert(ns.take(k as int) =~= ns);
        self.networks = kept;
        Ok(())
    }

    /// The default NAT network for a `/24` subnet written as `a.b.c.x`:
    /// the host is `a.b.c.1` on bridge `virbr-<name>` (STP on, no delay),
    /// DHCP hands out `a.b.c.2` to `a.b.c.254`, and the network starts on
    /// boot.
    pub fn create_default_nat_network(&self, name: &str, subnet: &str) -> (r: LibvirtNetwork)
        requires
            nat_subnet_ok(subnet@),
        ensures
            ({
                let prefix = subnet@.take(rfind_char(subnet@, '.')->0 as int);
                &&& r.name@ == name@
                &&& r.uuid is None
                &&& r.forward matches Some(f) && f.mode@ == "nat"@ && f.dev is None && f.interfaces@.len() == 0
                &&& r.bridge matches Some(b) && b.name@ == "virbr-"@ + name@ && b.stp == Some(true) && b.delay == Some(0u32)
                &&& r.ip matches Some(ip) && ip.address == ipv4_of(prefix + ".1"@)->0
                    && ip.netmask == (Ipv4 { a: 255, b: 255, c: 255, d: 0 })
                    && (ip.dhcp matches Some(d) && d.start == ipv4_of(prefix + ".2"@)->0
                    && d.end == ipv4_of(prefix + ".254"@)->0 && d.hosts@.len() == 0)
                &&& r.dns is None
                &&& r.autostart
                &&& !r.active
            }),
    {
        let v = chars_of(subnet);
        let dot = match rfind_char_exec(&v, '.') {
            Some(i) => i,
            None => 0,
        };
        proof {
            crate::text::lemma_rfind_bound(v@, '.');
        }
        let prefix = string_of(&v, 0, dot);
        assert(prefix@ =~= subnet@.take(dot as int));
        let address = match parse_ipv4(cat(prefix.as_str(), ".1").as_str()) {
            Some(a) => a,
            None => Ipv4 { a: 0, b: 0, c: 0, d: 0 },
        };
        let start = match parse_ipv4(cat(prefix.as_str(), ".2").as_str()) {
            Some(a) => a,
            None => Ipv4 { a: 0, b: 0, c: 0, d: 0 },
        };
        let end = match parse_ipv4(cat(prefix.as_str(), ".254").as_str()) {
            Some(a) => a,
            None => Ipv4 { a: 0, b: 0, c: 0, d: 0 },
        };
        LibvirtNetwork {
            name: name.to_owned(),
            uuid: None,
            forward: Some(ForwardMode { mode: "nat".to_owned(), dev: None, interfaces: Vec::new() }),
            bridge: Some(BridgeConfig { name: cat("virbr-", name), stp: Some(true), delay: Some(0) }),
            ip: Some(
                IpConfig {
                    address,
                    netmask: Ipv4 { a: 255, b: 255, c: 255, d: 0 },
                    dhcp: Some(DhcpRange { start, end, hosts: Vec::new() }),
                },
            ),
            dns: None,
            autostart: true,
            active: false,
        }
    }

    /// The known networks.
    pub fn list_networks(&self) -> (r: &Vec<LibvirtNetwork>)
        ensures
            r@ == self.networks_view(),
    {
        &self.networks
    }

    /// The first known network of that name.
    pub fn get_network(&self, name: &str) -> (r: Option<&LibvirtNetwork>)
        ensures
            match r {
                Some(n) => exists|i: int| 0 <= i < self.networks_view().len() && *n == #[trigger] self.networks_view()[i]
                    && n.name@ == name@ && forall|j: int| 0 <= j < i ==> #[trigger] self.networks_view()[j].name@ != name@,
                None => forall|j: int| 0 <= j < self.networks_view().len() ==> #[trigger] self.networks_view()[j].name@ != name@,
            },
    {
        let mut i: usize = 0;
        while i < self.networks.len()
            invariant
                i <= self.networks.len(),
                forall|j: int| 0 <= j < i ==> #[trigger] self.networks@[j].name@ != name@,
            decreases self.networks.len() - i,
        {
            if str_eq(self.networks[i].name.as_str(), name) {
                return Some(&self.networks[i]);
            }
            i += 1;
        }
        None
    }
}

/// The subnet text has a dot, and the part before its last dot followed by
/// `.1`, `.2` and `.254` reads as addresses (it is three octets).
pub open spec fn nat_subnet_ok(subnet: Seq<char>) -> bool {
    rfind_char(subnet, '.') matches Some(i) && {
        let prefix = subnet.take(i as int);
        &&& ipv4_of(prefix + ".1"@) is Some
        &&& ipv4_of(prefix + ".2"@) is Some
        &&& ipv4_of(prefix + ".254"@) is Some
    }
}

/// Whether a subnet text can make the default NAT network (see `nat_subnet_ok`).
pub fn nat_subnet_is_ok(subnet: &str) -> (r: bool)
    ensures
        r == nat_subnet_ok(subnet@),
{
    let v = chars_of(subnet);
    let dot = match rfind_char_exec(&v, '.') {
        Some(i) => i,
        None => {
            return false;
        },
    };
    proof {
        crate::text::lemma_rfind_bound(v@, '.');
    }
    let prefix = string_of(&v, 0, dot);
    assert(prefix@ =~= subnet@.take(dot as int));
    parse_ipv4(cat(prefix.as_str(), ".1").as_str()).is_some() && parse_ipv4(
        cat(prefix.as_str(), ".2").as_str(),
    ).is_some() && parse_ipv4(cat(prefix.as_str(), ".254").as_str()).is_some()
}

/// The names in a network listing: its lines trimmed, empty ones left out.
pub open spec fn network_names_of(ls: Seq<Seq<char>>) -> Seq<Seq<char>>
    decreases ls.len(),
{
    if ls.len() == 0 {
        Seq::empty()
    } else {
        network_names_of(ls.drop_last()) + if trim(ls.last()).len() > 0 {
            seq![trim(ls.last())]
        } else {
            Seq::empty()
        }
    }
}

// ---------------------------------------------------------------------------
// Writing a network definition
// ---------------------------------------------------------------------------

pub open spec fn uuid_xml(u: Option<String>) -> Seq<char> {
    match u {
        Some(x) => "  <uuid>"@ + x@ + "</uuid>\n"@,
        None => Seq::empty(),
    }
}

/// The forward element: `nat` alone; `bridge` with its device, if any, as
/// an interface; any other mode alone.
pub open spec fn forward_xml(f: ForwardMode) -> Seq<char> {
    if f.mode@ == "nat"@ {
        "  <forward mode='nat'/>\n"@
    } else if f.mode@ == "bridge"@ {
        match f.dev {
            Some(d) => "  <forward mode='bridge'>\n    <interface dev='"@ + d@ + "'/>\n  </forward>\n"@,
            None => "  <forward mode='bridge'/>\n"@,
        }
    } else {
        "  <forward mode='"@ + f.mode@ + "'/>\n"@
    }
}

/// The bridge element with its name, then STP (on or off) and delay when set.
pub open spec fn bridge_xml(b: BridgeConfig) -> Seq<char> {
    "  <bridge "@ + "name='"@ + b.name@ + "'"@ + match b.stp {
        Some(s) => " stp='"@ + (if s { "on"@ } else { "off"@ }) + "'"@,
        None => Seq::empty(),
    } + match b.delay {
        Some(d) => " delay='"@ + dec(d as nat) + "'"@,
        None => Seq::empty(),
    } + "/>\n"@
}

pub open spec fn hosts_xml(hs: Seq<DhcpHost>) -> Seq<char>
    decreases hs.len(),
{
    if hs.len() == 0 {
        Seq::empty()
    } else {
        hosts_xml(hs.drop_last()) + "      <host mac='"@ + hs.last().mac@ + "' name='"@ + hs.last().name@ + "' ip='"@
            + ipv4_text(hs.last().ip) + "'/>\n"@
    }
}

/// The ip element with its address and netmask and, when set, the DHCP
/// range and static hosts.
pub open spec fn ip_xml(ip: IpConfig) -> Seq<char> {
    "  <ip address='"@ + ipv4_text(ip.address) + "' netmask='"@ + ipv4_text(ip.netmask) + "'>\n"@ + match ip.dhcp {
        Some(d) => "    <dhcp>\n"@ + "      <range start='"@ + ipv4_text(d.start) + "' end='"@ + ipv4_text(d.end) + "'/>\n"@
            + hosts_xml(d.hosts@) + "    </dhcp>\n"@,
        None => Seq::empty(),
    } + "  </ip>\n"@
}

/// The XML definition of a network: declaration, name, uuid, forward mode,
/// bridge and address, in that order.
pub open spec fn network_xml_of(n: LibvirtNetwork) -> Seq<char> {
    "<?xml version=\"1.0\" encoding=\"UTF-8\"?>\n"@ + "<network>\n  <name>"@ + n.name@ + "</name>\n"@ + uuid_xml(n.uuid)
        + match n.forward {
        Some(f) => forward_xml(f),
        None => Seq::empty(),
    } + match n.bridge {
        Some(b) => bridge_xml(b),
        None => Seq::empty(),
    } + match n.ip {
        Some(ip) => ip_xml(ip),
        None => Seq::empty(),
    } + "</network>\n"@
}

fn forward_xml_exec(f: &ForwardMode) -> (r: String)
    ensures
        r@ == forward_xml(*f),
{
    if str_eq(f.mode.as_str(), "nat") {
        "  <forward mode='nat'/>\n".to_owned()
    } else if str_eq(f.mode.as_str(), "bridge") {
        match &f.dev {
            Some(d) => {
                let mut r = cat("  <forward mode='bridge'>\n    <interface dev='", d.as_str());
                r.append("'/>\n  </forward>\n");
                r
            },
            None => "  <forward mode='bridge'/>\n".to_owned(),
        }
    } else {
        let mut r = cat("  <forward mode='", f.mode.as_str());
        r.append("'/>\n");
        r
    }
}

fn bridge_xml_exec(b: &BridgeConfig) -> (r: String)
    ensures
        r@ == bridge_xml(*b),
{
    let mut r = "  <bridge ".to_owned();
    r.append("name='");
    r.append(b.name.as_str());
    r.append("'");
    let ghost r0 = r@;
    match b.stp {
        Some(s) => {
            r.append(" stp='");
            r.append(if s { "on" } else { "off" });
            r.append("'");
        },
        None => {},
    }
    assert(r@ =~= r0 + match b.stp {
        Some(s) => " stp='"@ + (if s { "on"@ } else { "off"@ }) + "'"@,
        None => Seq::<char>::empty(),
    });
    let ghost r1 = r@;
    match b.delay {
        Some(d) => {
            r.append(" delay='");
            r.append(dec_string(d as u64).as_str());
            r.append("'");
        },
        None => {},
    }
    assert(r@ =~= r1 + match b.delay {
        Some(d) => " delay='"@ + dec(d as nat) + "'"@,
        None => Seq::<char>::empty(),
    });
    r.append("/>\n");
    r
}

fn ip_xml_exec(ip: &IpConfig) -> (r: String)
    ensures
        r@ == ip_xml(*ip),
{
    let mut r = "  <ip address='".to_owned();
    r.append(ipv4_string(ip.address).as_str());
    r.append("' netmask='");
    r.append(ipv4_string(ip.netmask).as_str());
    r.append("'>\n");
    let ghost r0 = r@;
    if let Some(d) = &ip.dhcp {
        r.append("    <dhcp>\n");
        r.append("      <range start='");
        r.append(ipv4_string(d.start).as_str());
        r.append("' end='");
        r.append(ipv4_string(d.end).as_str());
        r.append("'/>\n");
        let ghost r1 = r@;
        let mut i: usize = 0;
        while i < d.hosts.len()
            invariant
                i <= d.hosts.len(),
                r@ == r1 + hosts_xml(d.hosts@.take(i as int)),
            decreases d.hosts.len() - i,
        {
            let h = &d.hosts[i];
            assert(d.hosts@.take(i + 1).drop_last() =~= d.hosts@.take(i as int));
            r.append("      <host mac='");
            r.append(h.mac.as_str());
            r.append("' name='");
            r.append(h.name.as_str());
            r.append("' ip='");
            r.append(ipv4_string(h.ip).as_str());
            r.append("'/>\n");
            assert(r@ =~= r1 + hosts_xml(d.hosts@.take(i + 1)));
            i += 1;
        }
        assert(d.hosts@.take(d.hosts.len() as int) =~= d.hosts@);
        r.append("    </dhcp>\n");
    }
    assert(r@ =~= r0 + match ip.dhcp {
        Some(d) => "    <dhcp>\n"@ + "      <range start='"@ + ipv4_text(d.start) + "' end='"@ + ipv4_text(d.end) + "'/>\n"@
            + hosts_xml(d.hosts@) + "    </dhcp>\n"@,
        None => Seq::<char>::empty(),
    });
    r.append("  </ip>\n");
    r
}

} // verus!

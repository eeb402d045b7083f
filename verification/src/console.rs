//! Console sessions of virtual machines (VNC, SPICE, RDP, serial, web): the
//! ports they are given, the sessions kept, and the calls that start and
//! steer the console servers.
use vstd::prelude::*;
use std::collections::HashSet;
use std::collections::VecDeque;
use crate::error::NovaError;
use crate::gpu_passthrough::{clone_opt, opt_view};
use crate::ids::{now_timestamp, random_below};
use crate::pairs::{find_key, keys_distinct, lemma_lookup, lemma_pmap_at, lemma_update_at, pmap, put};
use crate::text::{cat, dec, dec_string, idec, idec_string, push_char, starts_with, views};

verus! {

broadcast use vstd::std_specs::hash::group_hash_axioms;

/// A console session; the times are Unix times in seconds.
#[derive(Debug)]
pub struct ConsoleSession {
    pub vm_name: String,
    pub session_id: String,
    pub console_type: ConsoleType,
    pub connection_info: ConnectionInfo,
    pub created_at: i64,
    pub last_accessed: i64,
    pub active: bool,
}

#[derive(Debug, Clone, Copy, PartialEq, Eq, Structural)]
pub enum ConsoleType {
    VNC,
    SPICE,
    RDP,
    SerialConsole,
    WebConsole,
}

#[derive(Debug)]
pub struct ConnectionInfo {
    pub host: String,
    pub port: u16,
    pub protocol: String,
    pub auth_required: bool,
    pub password: Option<String>,
    pub certificate_path: Option<String>,
    pub websocket_url: Option<String>,
}

#[derive(Debug)]
pub struct ConsoleConfig {
    pub vnc_enabled: bool,
    pub vnc_port_range: (u16, u16),
    pub spice_enabled: bool,
    pub spice_port_range: (u16, u16),
    pub rdp_enabled: bool,
    pub rdp_port_range: (u16, u16),
    pub web_console_enabled: bool,
    pub web_console_port: u16,
    pub auth_required: bool,
    pub ssl_enabled: bool,
    pub certificate_path: Option<String>,
    pub key_path: Option<String>,
}

impl Default for ConsoleConfig {
    fn default() -> (r: Self)
        ensures
            r.vnc_enabled && r.vnc_port_range == (5900u16, 5999u16),
            r.spice_enabled && r.spice_port_range == (5000u16, 5099u16),
            r.rdp_enabled && r.rdp_port_range == (3389u16, 3389u16),
            r.web_console_enabled && r.web_console_port == 6080,
            r.auth_required && !r.ssl_enabled,
            r.certificate_path is None && r.key_path is None,
    {
        ConsoleConfig {
            vnc_enabled: true,
            vnc_port_range: (5900, 5999),
            spice_enabled: true,
            spice_port_range: (5000, 5099),
            rdp_enabled: true,
            rdp_port_range: (3389, 3389),
            web_console_enabled: true,
            web_console_port: 6080,
            auth_required: true,
            ssl_enabled: false,
            certificate_path: None,
            key_path: None,
        }
    }
}

impl ConnectionInfo {
    /// A field-by-field copy.
    pub fn duplicate(&self) -> (r: Self)
        ensures
            r == *self,
    {
        ConnectionInfo {
            host: self.host.clone(),
            port: self.port,
            protocol: self.protocol.clone(),
            auth_required: self.auth_required,
            password: clone_opt(&self.password),
            certificate_path: clone_opt(&self.certificate_path),
            websocket_url: clone_opt(&self.websocket_url),
        }
    }
}

impl ConsoleSession {
    /// A field-by-field copy.
    pub fn duplicate(&self) -> (r: Self)
        ensures
            r == *self,
    {
        ConsoleSession {
            vm_name: self.vm_name.clone(),
            session_id: self.session_id.clone(),
            console_type: self.console_type,
            connection_info: self.connection_info.duplicate(),
            created_at: self.created_at,
            last_accessed: self.last_accessed,
            active: self.active,
        }
    }
}

/// Free ports of each kind, handed out from the front, and the ports handed out.
struct PortAllocator {
    vnc_ports: VecDeque<u16>,
    spice_ports: VecDeque<u16>,
    rdp_ports: VecDeque<u16>,
    allocated_ports: HashSet<u16>,
}

/// The ports of an allocator: the free queues (VNC, SPICE, RDP) and the
/// set of ports handed out.
pub type PortsView = (Seq<u16>, Seq<u16>, Seq<u16>, Set<u16>);

/// The console manager: its configuration, its port allocator and its
/// sessions by id (the processes of the console servers are kept by the
/// caller).
pub struct ConsoleManager {
    sessions: Vec<(String, ConsoleSession)>,
    config: ConsoleConfig,
    port_allocator: PortAllocator,
}

// ---------------------------------------------------------------------------
// Specifications
// ---------------------------------------------------------------------------

/// The ports `a..=b`, in order.
pub open spec fn port_range(a: u16, b: u16) -> Seq<u16> {
    if a <= b {
        Seq::new((b - a + 1) as nat, |i: int| (a + i) as u16)
    } else {
        Seq::empty()
    }
}

/// The free queue a console type draws from, if any.
pub open spec fn queue_of(pv: PortsView, t: ConsoleType) -> Option<Seq<u16>> {
    match t {
        ConsoleType::VNC => Some(pv.0),
        ConsoleType::SPICE => Some(pv.1),
        ConsoleType::RDP => Some(pv.2),
        _ => None,
    }
}

/// `pv` with the queue of `t` (VNC, SPICE or RDP) replaced by `q`.
pub open spec fn with_queue(pv: PortsView, t: ConsoleType, q: Seq<u16>) -> PortsView {
    match t {
        ConsoleType::VNC => (q, pv.1, pv.2, pv.3),
        ConsoleType::SPICE => (pv.0, q, pv.2, pv.3),
        ConsoleType::RDP => (pv.0, pv.1, q, pv.3),
        _ => pv,
    }
}

/// Handing out a port of type `t`: the front of its queue, which becomes
/// handed out; none when the queue is empty or the type has no queue.
pub open spec fn allocate_view(pv: PortsView, t: ConsoleType) -> Option<(u16, PortsView)> {
    match queue_of(pv, t) {
        Some(q) => if q.len() > 0 {
            let w = with_queue(pv, t, q.drop_first());
            Some((q[0], (w.0, w.1, w.2, pv.3.insert(q[0]))))
        } else {
            None
        },
        None => None,
    }
}

/// Giving back port `p` of type `t`: it is no longer handed out, and goes
/// to the back of its type's queue.
pub open spec fn release_view(pv: PortsView, t: ConsoleType, p: u16) -> PortsView {
    let w = match queue_of(pv, t) {
        Some(q) => with_queue(pv, t, q.push(p)),
        None => pv,
    };
    (w.0, w.1, w.2, pv.3.remove(p))
}

/// Giving back the ports of the sessions, in order.
pub open spec fn release_all(pv: PortsView, ss: Seq<ConsoleSession>) -> PortsView
    decreases ss.len(),
{
    if ss.len() == 0 {
        pv
    } else {
        let prev = release_all(pv, ss.drop_last());
        release_view(prev, ss.last().console_type, ss.last().connection_info.port)
    }
}

pub open spec fn is_password_char(c: char) -> bool {
    ('A' <= c && c <= 'Z') || ('a' <= c && c <= 'z') || ('0' <= c && c <= '9')
}

/// Twelve ASCII letters or digits.
pub open spec fn is_password(s: Seq<char>) -> bool {
    s.len() == 12 && forall|i: int| 0 <= i < 12 ==> is_password_char(#[trigger] s[i])
}

/// The session id of a console: `<kind>-<vm>-<n>`.
pub open spec fn session_id_of(kind: Seq<char>, vm: Seq<char>, n: Seq<char>) -> Seq<char> {
    kind + "-"@ + vm + "-"@ + n
}

/// The web socket address through which a session is reached in the web
/// console, when the web console is enabled.
pub open spec fn web_url(c: ConsoleConfig, kind: Seq<char>, id: Seq<char>) -> Option<Seq<char>> {
    if c.web_console_enabled {
        Some("ws://localhost:"@ + dec(c.web_console_port as nat) + "/"@ + kind + "/"@ + id)
    } else {
        None
    }
}

/// `s` is a new, active session of `vm` of type `t` with id `id`, reached
/// as `info` says, created and accessed at the same time.
pub open spec fn new_session(s: ConsoleSession, vm: Seq<char>, id: Seq<char>, t: ConsoleType) -> bool {
    &&& s.vm_name@ == vm
    &&& s.session_id@ == id
    &&& s.console_type == t
    &&& s.created_at == s.last_accessed
    &&& s.active
}

/// `i` is how a VNC or SPICE console on `port` is reached: on this host,
/// with a fresh password when the configuration asks for one.
pub open spec fn local_info(i: ConnectionInfo, c: ConsoleConfig, port: u16, kind: Seq<char>, id: Seq<char>) -> bool {
    &&& i.host@ == "localhost"@
    &&& i.port == port
    &&& i.protocol@ == kind
    &&& i.auth_required == c.auth_required
    &&& (c.auth_required ==> (i.password matches Some(p) && is_password(p@)))
    &&& (!c.auth_required ==> i.password is None)
    &&& i.certificate_path == c.certificate_path
    &&& opt_view(i.websocket_url) == web_url(c, kind, id)
}

/// A session is expired at time `now` when it is inactive or was last
/// accessed more than a day before.
pub open spec fn expired(s: ConsoleSession, now: int) -> bool {
    !s.active || (s.last_accessed as int) < now - 86400
}

/// The expired sessions among the entries, in order.
pub open spec fn expired_sessions(es: Seq<(String, ConsoleSession)>, now: int) -> Seq<ConsoleSession>
    decreases es.len(),
{
    if es.len() == 0 {
        Seq::empty()
    } else {
        expired_sessions(es.drop_last(), now) + if expired(es.last().1, now) {
            seq![es.last().1]
        } else {
            Seq::empty()
        }
    }
}

/// The session made inactive.
pub open spec fn deactivated(s: ConsoleSession) -> ConsoleSession {
    ConsoleSession { active: false, ..s }
}

/// The active sessions among the entries, in order.
pub open spec fn active_sessions(es: Seq<(String, ConsoleSession)>) -> Seq<ConsoleSession>
    decreases es.len(),
{
    if es.len() == 0 {
        Seq::empty()
    } else {
        active_sessions(es.drop_last()) + if es.last().1.active {
            seq![es.last().1]
        } else {
            Seq::empty()
        }
    }
}

/// The arguments of `virsh` that send a command to a VM's guest agent.
pub open spec fn guest_agent_args(vm: Seq<char>, command: Seq<char>) -> Seq<Seq<char>> {
    seq!["qemu-agent-command"@, vm, "{\"execute\":\""@ + command + "\"}"@]
}

// ---------------------------------------------------------------------------
// Ports and passwords
// ---------------------------------------------------------------------------

fn deque_of_range(a: u16, b: u16) -> (q: VecDeque<u16>)
    ensures
        q@ == port_range(a, b),
{
    let mut q: VecDeque<u16> = VecDeque::new();
    if a > b {
        return q;
    }
    let mut p: u32 = a as u32;
    while p <= b as u32
        invariant
            a <= p <= b + 1,
            a <= b,
            q@ == port_range(a, b).take(p - a),
        decreases b + 1 - p,
    {
        q.push_back(p as u16);
        assert(q@ =~= port_range(a, b).take(p - a + 1));
        p = p + 1;
    }
    assert(q@ =~= port_range(a, b));
    q
}

impl PortAllocator {
    spec fn view_ports(self) -> PortsView {
        (self.vnc_ports@, self.spice_ports@, self.rdp_ports@, self.allocated_ports@)
    }

    fn allocate(&mut self, t: ConsoleType) -> (r: Option<u16>)
        ensures
            match allocate_view(old(self).view_ports(), t) {
                Some((p, pv)) => r == Some(p) && final(self).view_ports() == pv,
                None => r is None && final(self).view_ports() == old(self).view_ports(),
            },
    {
        let port = match t {
            ConsoleType::VNC => self.vnc_ports.pop_front(),
            ConsoleType::SPICE => self.spice_ports.pop_front(),
            ConsoleType::RDP => self.rdp_ports.pop_front(),
            _ => None,
        };
        match port {
            Some(p) => {
                self.allocated_ports.insert(p);
                Some(p)
            },
            None => None,
        }
    }

    fn release(&mut self, t: ConsoleType, port: u16)
        ensures
            final(self).view_ports() == release_view(old(self).view_ports(), t, port),
    {
        self.allocated_ports.remove(&port);
        match t {
            ConsoleType::VNC => self.vnc_ports.push_back(port),
            ConsoleType::SPICE => self.spice_ports.push_back(port),
            ConsoleType::RDP => self.rdp_ports.push_back(port),
            _ => {},
        }
    }
}

fn empty_allocator() -> (pa: PortAllocator)
    ensures
        pa.view_ports() == (Seq::<u16>::empty(), Seq::<u16>::empty(), Seq::<u16>::empty(), Set::<
            u16,
        >::empty()),
{
    PortAllocator {
        vnc_ports: VecDeque::new(),
        spice_ports: VecDeque::new(),
        rdp_ports: VecDeque::new(),
        allocated_ports: HashSet::new(),
    }
}

/// The `i`-th character of `A..Z`, `a..z`, `0..9`.
fn password_char(i: usize) -> (c: char)
    requires
        i < 62,
    ensures
        is_password_char(c),
{
    let k = i as u8;
    if k < 26 {
        (65u8 + k) as char
    } else if k < 52 {
        (97u8 + (k - 26)) as char
    } else {
        (48u8 + (k - 52)) as char
    }
}

// ---------------------------------------------------------------------------
// The manager
// ---------------------------------------------------------------------------

impl ConsoleManager {
    #[verifier::type_invariant]
    spec fn inv(self) -> bool {
        keys_distinct(self.sessions@)
    }

    /// The sessions by id.
    pub closed spec fn sessions_view(self) -> Map<Seq<char>, ConsoleSession> {
        pmap(self.sessions@)
    }

    /// The sessions in the order they were first stored.
    pub closed spec fn entries_view(self) -> Seq<(String, ConsoleSession)> {
        self.sessions@
    }

    pub closed spec fn ports_view(self) -> PortsView {
        self.port_allocator.view_ports()
    }

    pub closed spec fn config_view(self) -> ConsoleConfig {
        self.config
    }

    /// A manager with no sessions, whose free ports are the configured ranges.
    pub fn new(config: ConsoleConfig) -> (r: Self)
        ensures
            r.sessions_view() == Map::<Seq<char>, ConsoleSession>::empty(),
            r.entries_view().len() == 0,
            r.ports_view() == (
                port_range(config.vnc_port_range.0, config.vnc_port_range.1),
                port_range(config.spice_port_range.0, config.spice_port_range.1),
                port_range(config.rdp_port_range.0, config.rdp_port_range.1),
                Set::<u16>::empty(),
            ),
            r.config_view() == config,
    {
        let port_allocator = PortAllocator {
            vnc_ports: deque_of_range(config.vnc_port_range.0, config.vnc_port_range.1),
            spice_ports: deque_of_range(config.spice_port_range.0, config.spice_port_range.1),
            rdp_ports: deque_of_range(config.rdp_port_range.0, config.rdp_port_range.1),
            allocated_ports: HashSet::new(),
        };
        let r = ConsoleManager { sessions: Vec::new(), config, port_allocator };
        assert(pmap(r.sessions@) =~= Map::<Seq<char>, ConsoleSession>::empty());
        r
    }

    /// Hands out the next free port of a console type (VNC, SPICE or RDP);
    /// with none left, or for another type, it fails as a system command.
    pub fn allocate_port(&mut self, console_type: ConsoleType) -> (r: Result<u16, NovaError>)
        ensures
            match allocate_view(old(self).ports_view(), console_type) {
                Some((p, pv)) => r == Ok::<u16, NovaError>(p) && final(self).ports_view() == pv,
                None => r == Err::<u16, NovaError>(NovaError::SystemCommandFailed) && final(self).ports_view()
                    == old(self).ports_view(),
            },
            final(self).entries_view() == old(self).entries_view(),
            final(self).config_view() == old(self).config_view(),
    {
        proof {
            use_type_invariant(&*self);
        }
        let mut pa = empty_allocator();
        std::mem::swap(&mut pa, &mut self.port_allocator);
        let r = pa.allocate(console_type);
        self.port_allocator = pa;
        match r {
            Some(p) => Ok(p),
            None => Err(NovaError::SystemCommandFailed),
        }
    }

    /// Gives a port back (see `release_view`).
    pub fn release_port(&mut self, console_type: ConsoleType, port: u16)
        ensures
            final(self).ports_view() == release_view(old(self).ports_view(), console_type, port),
            final(self).entries_view() == old(self).entries_view(),
            final(self).config_view() == old(self).config_view(),
    {
        proof {
            use_type_invariant(&*self);
        }
        let mut pa = empty_allocator();
        std::mem::swap(&mut pa, &mut self.port_allocator);
        pa.release(console_type, port);
        self.port_allocator = pa;
    }

    /// A random password of twelve letters and digits.
    pub fn generate_password(&self) -> (r: String)
        ensures
            is_password(r@),
    {
        let mut s = String::new();
        let mut i: usize = 0;
        while i < 12
            invariant
                i <= 12,
                s@.len() == i,
                forall|j: int| 0 <= j < i ==> is_password_char(#[trigger] s@[j]),
            decreases 12 - i,
        {
            let idx = random_below(62);
            push_char(&mut s, password_char(idx));
            i += 1;
        }
        s
    }

    fn web_url_exec(&self, kind: &str, id: &str) -> (r: Option<String>)
        ensures
            opt_view(r) == web_url(self.config, kind@, id@),
    {
        if self.config.web_console_enabled {
            let mut u = cat("ws://localhost:", dec_string(self.config.web_console_port as u64).as_str());
            u.append("/");
            u.append(kind);
            u.append("/");
            u.append(id);
            Some(u)
        } else {
            None
        }
    }

    fn local_info_exec(&self, port: u16, kind: &str, id: &str) -> (i: ConnectionInfo)
        ensures
            local_info(i, self.config, port, kind@, id@),
    {
        ConnectionInfo {
            host: "localhost".to_owned(),
            port,
            protocol: kind.to_owned(),
            auth_required: self.config.auth_required,
            password: if self.config.auth_required {
                Some(self.generate_password())
            } else {
                None
            },
            certificate_path: clone_opt(&self.config.certificate_path),
            websocket_url: self.web_url_exec(kind, id),
        }
    }

    /// Stores a session under its id and hands back a copy.
    fn store_session(&mut self, session: ConsoleSession) -> (r: ConsoleSession)
        ensures
            r == session,
            final(self).sessions_view() == old(self).sessions_view().insert(session.session_id@, session),
            final(self).ports_view() == old(self).ports_view(),
            final(self).config_view() == old(self).config_view(),
    {
        proof {
            use_type_invariant(&*self);
        }
        let copy = session.duplicate();
        let key = session.session_id.clone();
        let mut sessions: Vec<(String, ConsoleSession)> = Vec::new();
        std::mem::swap(&mut sessions, &mut self.sessions);
        put(&mut sessions, key, session);
        self.sessions = sessions;
        copy
    }

    fn session_of(&self, vm_name: &str, session_id: String, console_type: ConsoleType, info: ConnectionInfo) -> (s: ConsoleSession)
        ensures
            new_session(s, vm_name@, session_id@, console_type),
            s.connection_info == info,
    {
        let now = now_timestamp();
        ConsoleSession {
            vm_name: vm_name.to_owned(),
            session_id,
            console_type,
            connection_info: info,
            created_at: now,
            last_accessed: now,
            active: true,
        }
    }

    /// The VNC server to start for a new console of `vm_name`: a VNC port is
    /// handed out first (none left fails as a system command). An enhanced
    /// console runs `x11vnc` on that port (with a fresh password when the
    /// configuration asks for one, and the certificate when SSL is on and
    /// one is configured); a standard one runs `qemu-system-x86_64`.
    pub fn vnc_server_command(&mut self, vm_name: &str, enhanced: bool) -> (r: Result<
        (u16, String, Vec<String>),
        NovaError,
    >)
        ensures
            match allocate_view(old(self).ports_view(), ConsoleType::VNC) {
                Some((p, pv)) => r matches Ok((port, prog, args)) && port == p && final(self).ports_view() == pv
                    && (enhanced ==> prog@ == "x11vnc"@ && vnc_server_args(views(args@), p, old(self).config_view()))
                    && (!enhanced ==> prog@ == "qemu-system-x86_64"@ && args@.len() == 0),
                None => r == Err::<(u16, String, Vec<String>), NovaError>(NovaError::SystemCommandFailed)
                    && final(self).ports_view() == old(self).ports_view(),
            },
            final(self).entries_view() == old(self).entries_view(),
            final(self).config_view() == old(self).config_view(),
    {
        let port = self.allocate_port(ConsoleType::VNC)?;
        if !enhanced {
            return Ok((port, "qemu-system-x86_64".to_owned(), Vec::new()));
        }
        let mut a: Vec<String> = Vec::new();
        a.push("-create".to_owned());
        a.push("-shared".to_owned());
        a.push("-forever".to_owned());
        a.push("-rfbport".to_owned());
        a.push(dec_string(port as u64));
        let ghost head = views(a@);
        if self.config.auth_required {
            a.push("-passwd".to_owned());
            a.push(self.generate_password());
        }
        let ghost mid = views(a@);
        if self.config.ssl_enabled {
            if let Some(cert) = &self.config.certificate_path {
                a.push("-ssl".to_owned());
                a.push(cert.clone());
            }
        }
        let ghost mid2 = views(a@);
        a.push("-noxdamage".to_owned());
        a.push("-noxfixes".to_owned());
        a.push("-noxrandr".to_owned());
        a.push("-wireframe".to_owned());
        a.push("-scrollcopyrect".to_owned());
        a.push("-ncache".to_owned());
        a.push("10".to_owned());
        proof {
            let c = self.config;
            assert(head =~= seq!["-create"@, "-shared"@, "-forever"@, "-rfbport"@, dec(port as nat)]);
            if c.auth_required {
                assert(mid.len() == 7 && mid.subrange(0, 5) =~= head && mid[5] == "-passwd"@ && is_password(mid[6]));
            } else {
                assert(mid =~= head);
            }
            assert(mid2 =~= mid + if c.ssl_enabled && c.certificate_path is Some {
                seq!["-ssl"@, c.certificate_path->0@]
            } else {
                Seq::<Seq<char>>::empty()
            });
            let tail = seq!["-noxdamage"@, "-noxfixes"@, "-noxrandr"@, "-wireframe"@, "-scrollcopyrect"@, "-ncache"@, "10"@];
            assert(views(a@) =~= mid2 + tail);
            let k = if c.auth_required { 7int } else { 5int };
            let ssl = if c.ssl_enabled && c.certificate_path is Some {
                seq!["-ssl"@, c.certificate_path->0@]
            } else {
                Seq::<Seq<char>>::empty()
            };
            let v = views(a@);
            assert(mid.len() == k);
            assert(v.subrange(0, 5) =~= head);
            assert(v.subrange(k, k + ssl.len()) =~= ssl);
            assert(v.subrange(k + ssl.len(), v.len() as int) =~= tail);
            if c.auth_required {
                assert(v[5] == mid[5] && v[6] == mid[6]);
            }
            assert(vnc_server_args(v, port, c));
        }
        Ok((port, "x11vnc".to_owned(), a))
    }

    /// Records a VNC console of `vm_name` on `port` once its server was
    /// started (`spawned`: the outcome); a server that could not be started
    /// fails as a system command. The session `vnc-<vm>-<port>` is reached
    /// on this host, with a fresh password when the configuration asks for
    /// one.
    pub fn create_vnc_console(&mut self, vm_name: &str, port: u16, spawned: Result<(), NovaError>) -> (r: Result<
        ConsoleSession,
        NovaError,
    >)
        ensures
            spawned is Err ==> r == Err::<ConsoleSession, NovaError>(NovaError::SystemCommandFailed)
                && final(self).sessions_view() == old(self).sessions_view(),
            spawned is Ok ==> (r matches Ok(s) && {
                let id = session_id_of("vnc"@, vm_name@, dec(port as nat));
                &&& new_session(s, vm_name@, id, ConsoleType::VNC)
                &&& local_info(s.connection_info, old(self).config_view(), port, "vnc"@, id)
                &&& final(self).sessions_view() == old(self).sessions_view().insert(id, s)
            }),
            final(self).ports_view() == old(self).ports_view(),
            final(self).config_view() == old(self).config_view(),
    {
        if spawned.is_err() {
            return Err(NovaError::SystemCommandFailed);
        }
        let id = session_id_exec("vnc", vm_name, dec_string(port as u64).as_str());
        let info = self.local_info_exec(port, "vnc", id.as_str());
        let session = self.session_of(vm_name, id, ConsoleType::VNC, info);
        Ok(self.store_session(session))
    }

    /// A SPICE console of `vm_name`: when SPICE is missing nothing happens
    /// and the caller falls back to VNC (`None`); otherwise a SPICE port is
    /// handed out (none left fails as a system command) and the session
    /// `spice-<vm>-<port>` is recorded, reached on this host.
    pub fn create_spice_console(&mut self, vm_name: &str, spice_available: bool) -> (r: Result<
        Option<ConsoleSession>,
        NovaError,
    >)
        ensures
            !spice_available ==> (r matches Ok(None) && *final(self) == *old(self)),
            spice_available ==> match allocate_view(old(self).ports_view(), ConsoleType::SPICE) {
                None => r == Err::<Option<ConsoleSession>, NovaError>(NovaError::SystemCommandFailed)
                    && final(self).ports_view() == old(self).ports_view()
                    && final(self).sessions_view() == old(self).sessions_view(),
                Some((p, pv)) => r matches Ok(Some(s)) && {
                    let id = session_id_of("spice"@, vm_name@, dec(p as nat));
                    &&& new_session(s, vm_name@, id, ConsoleType::SPICE)
                    &&& local_info(s.connection_info, old(self).config_view(), p, "spice"@, id)
                    &&& final(self).sessions_view() == old(self).sessions_view().insert(id, s)
                    &&& final(self).ports_view() == pv
                },
            },
            final(self).config_view() == old(self).config_view(),
    {
        if !spice_available {
            return Ok(None);
        }
        let port = self.allocate_port(ConsoleType::SPICE)?;
        let id = session_id_exec("spice", vm_name, dec_string(port as u64).as_str());
        let info = self.local_info_exec(port, "spice", id.as_str());
        let session = self.session_of(vm_name, id, ConsoleType::SPICE, info);
        Ok(Some(self.store_session(session)))
    }

    /// An RDP console of a VM at `vm_ip`: the session `rdp-<vm>-<time>`
    /// (the creation time) reaches port 3389 of the VM, which asks for
    /// credentials of its own.
    pub fn create_rdp_console(&mut self, vm_name: &str, vm_ip: &str) -> (r: Result<ConsoleSession, NovaError>)
        ensures
            r matches Ok(s) && {
                let id = session_id_of("rdp"@, vm_name@, idec(s.created_at as int));
                &&& new_session(s, vm_name@, id, ConsoleType::RDP)
                &&& s.connection_info.host@ == vm_ip@
                &&& s.connection_info.port == 3389
                &&& s.connection_info.protocol@ == "rdp"@
                &&& s.connection_info.auth_required
                &&& s.connection_info.password is None
                &&& s.connection_info.certificate_path is None
                &&& opt_view(s.connection_info.websocket_url) == web_url(old(self).config_view(), "rdp"@, id)
                &&& final(self).sessions_view() == old(self).sessions_view().insert(id, s)
            },
            final(self).ports_view() == old(self).ports_view(),
            final(self).config_view() == old(self).config_view(),
    {
        let now = now_timestamp();
        let id = session_id_exec("rdp", vm_name, idec_string(now).as_str());
        let info = ConnectionInfo {
            host: vm_ip.to_owned(),
            port: 3389,
            protocol: "rdp".to_owned(),
            auth_required: true,
            password: None,
            certificate_path: None,
            websocket_url: self.web_url_exec("rdp", id.as_str()),
        };
        let session = ConsoleSession {
            vm_name: vm_name.to_owned(),
            session_id: id,
            console_type: ConsoleType::RDP,
            connection_info: info,
            created_at: now,
            last_accessed: now,
            active: true,
        };
        Ok(self.store_session(session))
    }

    /// A serial console of `vm_name`: the session `serial-<vm>-<time>` (the
    /// creation time), on this host, without a network port or password.
    pub fn create_serial_console(&mut self, vm_name: &str) -> (r: Result<ConsoleSession, NovaError>)
        ensures
            r matches Ok(s) && {
                let id = session_id_of("serial"@, vm_name@, idec(s.created_at as int));
                &&& new_session(s, vm_name@, id, ConsoleType::SerialConsole)
                &&& s.connection_info.host@ == "localhost"@
                &&& s.connection_info.port == 0
                &&& s.connection_info.protocol@ == "serial"@
                &&& !s.connection_info.auth_required
                &&& s.connection_info.password is None
                &&& s.connection_info.certificate_path is None
                &&& opt_view(s.connection_info.websocket_url) == web_url(old(self).config_view(), "serial"@, id)
                &&& final(self).sessions_view() == old(self).sessions_view().insert(id, s)
            },
            final(self).ports_view() == old(self).ports_view(),
            final(self).config_view() == old(self).config_view(),
    {
        let now = now_timestamp();
        let id = session_id_exec("serial", vm_name, idec_string(now).as_str());
        let info = ConnectionInfo {
            host: "localhost".to_owned(),
            port: 0,
            protocol: "serial".to_owned(),
            auth_required: false,
            password: None,
            certificate_path: None,
            websocket_url: self.web_url_exec("serial", id.as_str()),
        };
        let session = ConsoleSession {
            vm_name: vm_name.to_owned(),
            session_id: id,
            console_type: ConsoleType::SerialConsole,
            connection_info: info,
            created_at: now,
            last_accessed: now,
            active: true,
        };
        Ok(self.store_session(session))
    }

    /// The arguments of `websockify` that bridge the web console port to a
    /// VNC session.
    pub fn novnc_proxy_args(&self, vnc_session: &ConsoleSession) -> (r: Vec<String>)
        ensures
            views(r@) == seq![
                dec(self.config_view().web_console_port as nat) + ":"@ + dec(vnc_session.connection_info.port as nat),
                vnc_session.connection_info.host@ + ":"@ + dec(vnc_session.connection_info.port as nat),
            ],
    {
        let port = dec_string(vnc_session.connection_info.port as u64);
        let mut a = cat(dec_string(self.config.web_console_port as u64).as_str(), ":");
        a.append(port.as_str());
        let mut b = cat(vnc_session.connection_info.host.as_str(), ":");
        b.append(port.as_str());
        let v: Vec<String> = vec![a, b];
        assert(views(v@) =~= seq![
            dec(self.config_view().web_console_port as nat) + ":"@ + dec(vnc_session.connection_info.port as nat),
            vnc_session.connection_info.host@ + ":"@ + dec(vnc_session.connection_info.port as nat),
        ]);
        v
    }

    /// A web console of `vm_name` over an already created VNC session, once
    /// the web socket proxy was started (`proxy`: the outcome; a failure is
    /// a failed system command). The session `web-<vm>-<time>` is reached
    /// over HTTPS on the web console port with the VNC session's password.
    pub fn create_web_console(&mut self, vm_name: &str, vnc_session: &ConsoleSession, proxy: Result<(), NovaError>) -> (r: Result<
        ConsoleSession,
        NovaError,
    >)
        ensures
            proxy is Err ==> r == Err::<ConsoleSession, NovaError>(NovaError::SystemCommandFailed)
                && final(self).sessions_view() == old(self).sessions_view(),
            proxy is Ok ==> (r matches Ok(s) && {
                let c = old(self).config_view();
                let id = session_id_of("web"@, vm_name@, idec(s.created_at as int));
                &&& new_session(s, vm_name@, id, ConsoleType::WebConsole)
                &&& s.connection_info.host@ == "localhost"@
                &&& s.connection_info.port == c.web_console_port
                &&& s.connection_info.protocol@ == "https"@
                &&& s.connection_info.auth_required == c.auth_required
                &&& s.connection_info.password == vnc_session.connection_info.password
                &&& s.connection_info.certificate_path == c.certificate_path
                &&& opt_view(s.connection_info.websocket_url) == Some(
                    (if c.ssl_enabled { "wss"@ } else { "ws"@ }) + "://localhost:"@ + dec(c.web_console_port as nat)
                        + "/websockify?token="@ + id,
                )
                &&& final(self).sessions_view() == old(self).sessions_view().insert(id, s)
            }),
            final(self).ports_view() == old(self).ports_view(),
            final(self).config_view() == old(self).config_view(),
    {
        let now = now_timestamp();
        let id = session_id_exec("web", vm_name, idec_string(now).as_str());
        if proxy.is_err() {
            return Err(NovaError::SystemCommandFailed);
        }
        let mut url = if self.config.ssl_enabled {
            "wss".to_owned()
        } else {
            "ws".to_owned()
        };
        url.append("://localhost:");
        url.append(dec_string(self.config.web_console_port as u64).as_str());
        url.append("/websockify?token=");
        url.append(id.as_str());
        let info = ConnectionInfo {
            host: "localhost".to_owned(),
            port: self.config.web_console_port,
            protocol: "https".to_owned(),
            auth_required: self.config.auth_required,
            password: clone_opt(&vnc_session.connection_info.password),
            certificate_path: clone_opt(&self.config.certificate_path),
            websocket_url: Some(url),
        };
        let session = ConsoleSession {
            vm_name: vm_name.to_owned(),
            session_id: id,
            console_type: ConsoleType::WebConsole,
            connection_info: info,
            created_at: now,
            last_accessed: now,
            active: true,
        };
        Ok(self.store_session(session))
    }

    /// The session with this id, if any.
    pub fn get_console_session(&self, session_id: &str) -> (r: Option<ConsoleSession>)
        ensures
            self.sessions_view().dom().contains(session_id@) ==> r == Some(self.sessions_view()[session_id@]),
            !self.sessions_view().dom().contains(session_id@) ==> r is None,
    {
        proof {
            use_type_invariant(self);
            lemma_lookup(self.sessions@, session_id@);
        }
        match find_key(&self.sessions, session_id) {
            Some(i) => Some(self.sessions[i].1.duplicate()),
            None => None,
        }
    }

    /// The active sessions, in the order they were first stored.
    pub fn list_active_sessions(&self) -> (r: Vec<ConsoleSession>)
        ensures
            r@ == active_sessions(self.entries_view()),
    {
        let mut out: Vec<ConsoleSession> = Vec::new();
        let mut i: usize = 0;
        while i < self.sessions.len()
            invariant
                i <= self.sessions.len(),
                out@ == active_sessions(self.sessions@.take(i as int)),
            decreases self.sessions.len() - i,
        {
            assert(self.sessions@.take(i + 1).drop_last() =~= self.sessions@.take(i as int));
            if self.sessions[i].1.active {
                out.push(self.sessions[i].1.duplicate());
            }
            assert(out@ =~= active_sessions(self.sessions@.take(i + 1)));
            i += 1;
        }
        assert(self.sessions@.take(self.sessions.len() as int) =~= self.sessions@);
        out
    }

    /// Makes entry `i` inactive and gives its port back.
    fn close_at(&mut self, i: usize)
        requires
            i < old(self).entries_view().len(),
        ensures
            final(self).entries_view() == old(self).entries_view().update(
                i as int,
                (old(self).entries_view()[i as int].0, deactivated(old(self).entries_view()[i as int].1)),
            ),
            final(self).ports_view() == release_view(
                old(self).ports_view(),
                old(self).entries_view()[i as int].1.console_type,
                old(self).entries_view()[i as int].1.connection_info.port,
            ),
            final(self).config_view() == old(self).config_view(),
    {
        proof {
            use_type_invariant(&*self);
            lemma_update_at(self.sessions@, i as int, deactivated(self.sessions@[i as int].1));
        }
        let console_type = self.sessions[i].1.console_type;
        let port = self.sessions[i].1.connection_info.port;
        let mut sessions: Vec<(String, ConsoleSession)> = Vec::new();
        std::mem::swap(&mut sessions, &mut self.sessions);
        let (key, mut s) = sessions.remove(i);
        s.active = false;
        sessions.insert(i, (key, s));
        assert(sessions@ =~= old(self).sessions@.update(i as int, (old(self).sessions@[i as int].0, deactivated(old(self).sessions@[i as int].1))));
        self.sessions = sessions;
        self.release_port(console_type, port);
    }

    /// Closes a session: it becomes inactive (it is kept) and its port is
    /// given back; an unknown id changes nothing. The caller stops the
    /// session's server process.
    pub fn close_session(&mut self, session_id: &str) -> (r: Result<(), NovaError>)
        ensures
            r is Ok,
            old(self).sessions_view().dom().contains(session_id@) ==> {
                let s = old(self).sessions_view()[session_id@];
                &&& final(self).sessions_view() == old(self).sessions_view().insert(session_id@, deactivated(s))
                &&& final(self).ports_view() == release_view(old(self).ports_view(), s.console_type, s.connection_info.port)
            },
            !old(self).sessions_view().dom().contains(session_id@) ==> final(self).sessions_view()
                == old(self).sessions_view() && final(self).ports_view() == old(self).ports_view(),
            final(self).config_view() == old(self).config_view(),
    {
        proof {
            use_type_invariant(&*self);
            lemma_lookup(self.sessions@, session_id@);
        }
        if let Some(i) = find_key(&self.sessions, session_id) {
            proof {
                lemma_update_at(self.sessions@, i as int, deactivated(self.sessions@[i as int].1));
            }
            self.close_at(i);
        }
        Ok(())
    }

    /// Clipboard sharing needs nothing more of the manager.
    pub fn enable_clipboard_sharing(&self, session_id: &str) -> (r: Result<(), NovaError>)
        ensures
            r is Ok,
    {
        Ok(())
    }

    /// USB redirection needs nothing more of the manager.
    pub fn enable_usb_redirection(&self, session_id: &str, device_id: &str) -> (r: Result<(), NovaError>)
        ensures
            r is Ok,
    {
        Ok(())
    }

    /// Console tuning needs nothing more of the manager.
    pub fn optimize_console_performance(&self, session_id: &str) -> (r: Result<(), NovaError>)
        ensures
            r is Ok,
    {
        Ok(())
    }

    /// The `virsh` call that changes the resolution of a SPICE session's
    /// display through the guest agent; other sessions, and unknown ids,
    /// need none.
    pub fn display_resolution_call(&self, session_id: &str, width: u32, height: u32) -> (r: Option<Vec<String>>)
        ensures
            (self.sessions_view().dom().contains(session_id@) && self.sessions_view()[session_id@].console_type
                == ConsoleType::SPICE) ==> (r matches Some(a) && views(a@) == guest_agent_args(
                self.sessions_view()[session_id@].vm_name@,
                "display-set-resolution width="@ + dec(width as nat) + " height="@ + dec(height as nat),
            )),
            !(self.sessions_view().dom().contains(session_id@) && self.sessions_view()[session_id@].console_type
                == ConsoleType::SPICE) ==> r is None,
    {
        match self.get_console_session(session_id) {
            Some(s) => {
                if s.console_type == ConsoleType::SPICE {
                    let mut cmd = cat("display-set-resolution width=", dec_string(width as u64).as_str());
                    cmd.append(" height=");
                    cmd.append(dec_string(height as u64).as_str());
                    Some(guest_agent_args_exec(s.vm_name.as_str(), cmd.as_str()))
                } else {
                    None
                }
            },
            None => None,
        }
    }

    /// The `virsh` call that sets the number of monitors of a SPICE
    /// session's display through the guest agent; other sessions, and
    /// unknown ids, need none.
    pub fn multi_monitor_call(&self, session_id: &str, monitor_count: u32) -> (r: Option<Vec<String>>)
        ensures
            (self.sessions_view().dom().contains(session_id@) && self.sessions_view()[session_id@].console_type
                == ConsoleType::SPICE) ==> (r matches Some(a) && views(a@) == guest_agent_args(
                self.sessions_view()[session_id@].vm_name@,
                "display-set-monitors count="@ + dec(monitor_count as nat),
            )),
            !(self.sessions_view().dom().contains(session_id@) && self.sessions_view()[session_id@].console_type
                == ConsoleType::SPICE) ==> r is None,
    {
        match self.get_console_session(session_id) {
            Some(s) => {
                if s.console_type == ConsoleType::SPICE {
                    let cmd = cat("display-set-monitors count=", dec_string(monitor_count as u64).as_str());
                    Some(guest_agent_args_exec(s.vm_name.as_str(), cmd.as_str()))
                } else {
                    None
                }
            },
            None => None,
        }
    }

    /// Closes every session that is expired now (see `expired`), in the
    /// order the sessions were first stored.
    pub fn cleanup_inactive_sessions(&mut self)
        ensures
            exists|now: int| cleaned_at(*old(self), *final(self), now),
    {
        let now = now_timestamp();
        self.cleanup_sessions_at(now);
    }

    /// Closes every session expired at time `now`, in the order the
    /// sessions were first stored; it gives back the number closed.
    pub fn cleanup_sessions_at(&mut self, now: i64) -> (n: usize)
        ensures
            cleaned_at(*old(self), *final(self), now as int),
            n == expired_sessions(old(self).entries_view(), now as int).len(),
    {
        let ghost es = self.sessions@;
        let ghost pv0 = self.ports_view();
        let mut i: usize = 0;
        let mut n: usize = 0;
        while i < self.sessions.len()
            invariant
                es.len() == self.sessions@.len(),
                i <= es.len(),
                n == expired_sessions(es.take(i as int), now as int).len(),
                n <= i,
                forall|j: int| 0 <= j < i ==> #[trigger] self.sessions@[j] == if expired(es[j].1, now as int) {
                    (es[j].0, deactivated(es[j].1))
                } else {
                    es[j]
                },
                forall|j: int| i <= j < es.len() ==> #[trigger] self.sessions@[j] == es[j],
                self.ports_view() == release_all(pv0, expired_sessions(es.take(i as int), now as int)),
                self.config_view() == old(self).config_view(),
            decreases es.len() - i,
        {
            assert(es.take(i + 1).drop_last() =~= es.take(i as int));
            let s = &self.sessions[i].1;
            let is_expired = !s.active || (s.last_accessed as i128) < (now as i128) - 86400;
            if is_expired {
                let ghost prev = expired_sessions(es.take(i as int), now as int);
                self.close_at(i);
                n += 1;
                assert(expired_sessions(es.take(i + 1), now as int) =~= prev.push(es[i as int].1));
                assert(prev.push(es[i as int].1).drop_last() =~= prev);
            } else {
                assert(expired_sessions(es.take(i + 1), now as int) =~= expired_sessions(es.take(i as int), now as int));
            }
            i += 1;
        }
        assert(es.take(es.len() as int) =~= es);
        n
    }
}

/// `new` is `old` with every session expired at `now` closed: made
/// inactive, its port given back, in the order the sessions were stored.
pub open spec fn cleaned_at(old: ConsoleManager, new: ConsoleManager, now: int) -> bool {
    &&& new.entries_view().len() == old.entries_view().len()
    &&& forall|j: int| 0 <= j < old.entries_view().len() ==> #[trigger] new.entries_view()[j] == if expired(
        old.entries_view()[j].1,
        now,
    ) {
        (old.entries_view()[j].0, deactivated(old.entries_view()[j].1))
    } else {
        old.entries_view()[j]
    }
    &&& new.ports_view() == release_all(old.ports_view(), expired_sessions(old.entries_view(), now))
    &&& new.config_view() == old.config_view()
}

/// `<kind>-<vm>-<n>`.
fn session_id_exec(kind: &str, vm: &str, n: &str) -> (r: String)
    ensures
        r@ == session_id_of(kind@, vm@, n@),
{
    let mut r = cat(kind, "-");
    r.append(vm);
    r.append("-");
    r.append(n);
    r
}

/// The arguments of `virsh` that send a command to a VM's guest agent.
pub fn guest_agent_args_exec(vm_name: &str, command: &str) -> (r: Vec<String>)
    ensures
        views(r@) == guest_agent_args(vm_name@, command@),
{
    let mut j = cat("{\"execute\":\"", command);
    j.append("\"}");
    let v: Vec<String> = vec!["qemu-agent-command".to_owned(), vm_name.to_owned(), j];
    assert(views(v@) =~= guest_agent_args(vm_name@, command@));
    v
}

/// The arguments of `x11vnc` for an enhanced VNC console on `port`: a
/// password, when asked for, is twelve letters and digits.
pub open spec fn vnc_server_args(a: Seq<Seq<char>>, port: u16, c: ConsoleConfig) -> bool {
    let head = seq!["-create"@, "-shared"@, "-forever"@, "-rfbport"@, dec(port as nat)];
    let k = if c.auth_required { 7int } else { 5int };
    let ssl = if c.ssl_enabled && c.certificate_path is Some {
        seq!["-ssl"@, c.certificate_path->0@]
    } else {
        Seq::<Seq<char>>::empty()
    };
    &&& a.len() == k + ssl.len() + 7
    &&& a.subrange(0, 5) == head
    &&& (c.auth_required ==> a[5] == "-passwd"@ && is_password(a[6]))
    &&& a.subrange(k, k + ssl.len()) == ssl
    &&& a.subrange(k + ssl.len(), a.len() as int) == seq![
        "-noxdamage"@,
        "-noxfixes"@,
        "-noxrandr"@,
        "-wireframe"@,
        "-scrollcopyrect"@,
        "-ncache"@,
        "10"@,
    ]
}

/// Handing out a port and giving it straight back moves it from the front
/// to the back of its queue, and leaves the handed-out ports as they were
/// (when it was not already among them).
pub proof fn law_allocate_then_release(pv: PortsView, t: ConsoleType)
    requires
        allocate_view(pv, t) is Some,
    ensures
        ({
            let (p, pv2) = allocate_view(pv, t)->0;
            let q = queue_of(pv, t)->0;
            &&& queue_of(release_view(pv2, t, p), t) == Some(q.drop_first().push(p))
            &&& release_view(pv2, t, p).3 == pv.3.insert(p).remove(p)
            &&& (!pv.3.contains(p) ==> release_view(pv2, t, p).3 == pv.3)
        }),
{
    let (p, pv2) = allocate_view(pv, t)->0;
    if !pv.3.contains(p) {
        assert(pv.3.insert(p).remove(p) =~= pv.3);
    }
}

} // verus!

//! What the container runtimes share: a container's configuration, what a
//! runtime reports of a container, its errors, the arguments of its
//! command-line calls and what their output is taken to mean.
use vstd::prelude::*;
use crate::ids::now_timestamp;
use crate::text::{
    cat, dec, dec_string, lines, lines_exec, push_char, trim, trim_str, views,
};

verus! {

/// Container configuration, as a runtime takes it.
#[derive(Debug, Clone)]
pub struct ContainerConfig {
    /// Container image/capsule
    pub capsule: String,
    /// Port mappings (host:container)
    pub ports: Vec<String>,
    /// Volume mounts (host:container)
    pub volumes: Vec<String>,
    /// Environment variables, as (name, value) pairs
    pub env: Vec<(String, String)>,
    /// Network to connect to
    pub network: Option<String>,
    /// Enable GPU passthrough
    pub gpu_passthrough: bool,
    /// Memory limit in MB
    pub memory_mb: Option<u64>,
    /// CPU limit (number of cores)
    pub cpus: Option<u32>,
    pub restart_policy: RestartPolicy,
    /// Run in detached mode
    pub detach: bool,
}

impl Default for ContainerConfig {
    fn default() -> (r: Self)
        ensures
            r.capsule@.len() == 0,
            r.ports@.len() == 0,
            r.volumes@.len() == 0,
            r.env@.len() == 0,
            r.network is None,
            !r.gpu_passthrough,
            r.memory_mb is None,
            r.cpus is None,
            r.restart_policy == RestartPolicy::No,
            r.detach,
    {
        ContainerConfig {
            capsule: String::new(),
            ports: Vec::new(),
            volumes: Vec::new(),
            env: Vec::new(),
            network: None,
            gpu_passthrough: false,
            memory_mb: None,
            cpus: None,
            restart_policy: RestartPolicy::No,
            detach: true,
        }
    }
}

/// Restart policy for containers
#[derive(Debug, Clone, Copy, PartialEq, Eq, Structural)]
pub enum RestartPolicy {
    No,
    Always,
    OnFailure,
    UnlessStopped,
}

/// What a runtime reports of a container; `created` is a Unix time in seconds.
#[derive(Debug, Clone)]
pub struct ContainerInfo {
    pub id: String,
    pub name: String,
    pub image: String,
    pub status: ContainerStatus,
    pub created: i64,
    pub ports: Vec<PortMapping>,
    pub network: Option<String>,
    pub pid: Option<u32>,
    pub ip_address: Option<String>,
}

#[derive(Debug, Clone, Copy, PartialEq, Eq, Structural)]
pub enum ContainerStatus {
    Running,
    Stopped,
    Paused,
    Restarting,
    Starting,
    Dead,
    Unknown,
}

#[derive(Debug, Clone, Copy)]
pub struct PortMapping {
    pub host_port: u16,
    pub container_port: u16,
    pub protocol: PortProtocol,
}

#[derive(Debug, Clone, Copy, PartialEq, Eq, Structural)]
pub enum PortProtocol {
    Tcp,
    Udp,
}

/// An image a runtime holds; `created` is a Unix time in seconds.
#[derive(Debug, Clone)]
pub struct ImageInfo {
    pub id: String,
    pub tags: Vec<String>,
    pub size: u64,
    pub created: i64,
}

/// Errors of the container runtimes; I/O and serialization failures carry
/// their messages.
#[derive(Debug, Clone, PartialEq, Eq)]
pub enum ContainerRuntimeError {
    RuntimeNotAvailable(String),
    ContainerNotFound(String),
    ImageNotFound(String),
    ContainerAlreadyExists(String),
    StartFailed(String),
    StopFailed(String),
    NetworkError(String),
    GpuError(String),
    Io(String),
    Serialization(String),
    Other(String),
}

/// The text of a runtime error.
pub open spec fn runtime_error_message(e: ContainerRuntimeError) -> Seq<char> {
    match e {
        ContainerRuntimeError::RuntimeNotAvailable(m) => "Runtime not available: "@ + m@,
        ContainerRuntimeError::ContainerNotFound(m) => "Container not found: "@ + m@,
        ContainerRuntimeError::ImageNotFound(m) => "Image not found: "@ + m@,
        ContainerRuntimeError::ContainerAlreadyExists(m) => "Container already exists: "@ + m@,
        ContainerRuntimeError::StartFailed(m) => "Failed to start container: "@ + m@,
        ContainerRuntimeError::StopFailed(m) => "Failed to stop container: "@ + m@,
        ContainerRuntimeError::NetworkError(m) => "Network error: "@ + m@,
        ContainerRuntimeError::GpuError(m) => "GPU configuration error: "@ + m@,
        ContainerRuntimeError::Io(m) => "IO error: "@ + m@,
        ContainerRuntimeError::Serialization(m) => "Serialization error: "@ + m@,
        ContainerRuntimeError::Other(m) => "Other error: "@ + m@,
    }
}

impl ContainerRuntimeError {
    /// The human-readable text of the error.
    pub fn message(&self) -> (r: String)
        ensures
            r@ == runtime_error_message(*self),
    {
        match self {
            ContainerRuntimeError::RuntimeNotAvailable(m) => cat("Runtime not available: ", m.as_str()),
            ContainerRuntimeError::ContainerNotFound(m) => cat("Container not found: ", m.as_str()),
            ContainerRuntimeError::ImageNotFound(m) => cat("Image not found: ", m.as_str()),
            ContainerRuntimeError::ContainerAlreadyExists(m) => cat("Container already exists: ", m.as_str()),
            ContainerRuntimeError::StartFailed(m) => cat("Failed to start container: ", m.as_str()),
            ContainerRuntimeError::StopFailed(m) => cat("Failed to stop container: ", m.as_str()),
            ContainerRuntimeError::NetworkError(m) => cat("Network error: ", m.as_str()),
            ContainerRuntimeError::GpuError(m) => cat("GPU configuration error: ", m.as_str()),
            ContainerRuntimeError::Io(m) => cat("IO error: ", m.as_str()),
            ContainerRuntimeError::Serialization(m) => cat("Serialization error: ", m.as_str()),
            ContainerRuntimeError::Other(m) => cat("Other error: ", m.as_str()),
        }
    }
}

/// What a finished command-line call gave back.
#[derive(Debug, Clone)]
pub struct CommandOutput {
    pub success: bool,
    pub stdout: String,
    pub stderr: String,
}

// ---------------------------------------------------------------------------
// Arguments of `run`
// ---------------------------------------------------------------------------

/// `flag v` for each value, in order.
pub open spec fn flag_args(flag: Seq<char>, vs: Seq<Seq<char>>) -> Seq<Seq<char>>
    decreases vs.len(),
{
    if vs.len() == 0 {
        Seq::empty()
    } else {
        flag_args(flag, vs.drop_last()) + seq![flag, vs.last()]
    }
}

/// `-e name=value` for each variable, in order.
pub open spec fn env_args(env: Seq<(String, String)>) -> Seq<Seq<char>>
    decreases env.len(),
{
    if env.len() == 0 {
        Seq::empty()
    } else {
        env_args(env.drop_last()) + seq!["-e"@, env.last().0@ + "="@ + env.last().1@]
    }
}

pub open spec fn restart_args(p: RestartPolicy) -> Seq<Seq<char>> {
    match p {
        RestartPolicy::Always => seq!["--restart"@, "always"@],
        RestartPolicy::OnFailure => seq!["--restart"@, "on-failure"@],
        RestartPolicy::UnlessStopped => seq!["--restart"@, "unless-stopped"@],
        RestartPolicy::No => Seq::empty(),
    }
}

pub open spec fn name_args(name: Option<Seq<char>>) -> Seq<Seq<char>> {
    match name {
        Some(n) => seq!["--name"@, n],
        None => Seq::empty(),
    }
}

pub open spec fn limit_args(config: ContainerConfig) -> Seq<Seq<char>> {
    (match config.memory_mb {
        Some(m) => seq!["--memory"@, dec(m as nat) + "m"@],
        None => Seq::empty(),
    }) + (match config.cpus {
        Some(c) => seq!["--cpus"@, dec(c as nat)],
        None => Seq::empty(),
    }) + restart_args(config.restart_policy)
}

/// The first arguments of a runtime's `run` call: the name, detaching,
/// ports, volumes and environment.
pub open spec fn run_head_args(name: Option<Seq<char>>, config: ContainerConfig) -> Seq<Seq<char>> {
    seq!["run"@] + name_args(name) + (if config.detach {
        seq!["-d"@]
    } else {
        Seq::empty()
    }) + flag_args("-p"@, views(config.ports@)) + flag_args("-v"@, views(config.volumes@)) + env_args(
        config.env@,
    )
}

/// The last arguments of a runtime's `run` call: the network, the GPU
/// flags, the limits and restart policy, and the image.
pub open spec fn run_tail_args(config: ContainerConfig, gpu: Seq<Seq<char>>) -> Seq<Seq<char>> {
    (match config.network {
        Some(n) => seq!["--network"@, n@],
        None => Seq::empty(),
    }) + (if config.gpu_passthrough {
        gpu
    } else {
        Seq::empty()
    }) + limit_args(config) + seq![config.capsule@]
}

/// The arguments of a runtime's `run` call for `config` (its image last),
/// with `gpu` as the runtime's GPU flags.
pub open spec fn run_args_of(name: Option<Seq<char>>, config: ContainerConfig, gpu: Seq<Seq<char>>) -> Seq<Seq<char>> {
    run_head_args(name, config) + run_tail_args(config, gpu)
}

/// The `run` arguments end with the image, and before it, for a policy other
/// than `No`, with `--restart` and the policy's name: `always`, `on-failure`
/// or `unless-stopped`.
pub proof fn law_run_args_restart(name: Option<Seq<char>>, config: ContainerConfig, gpu: Seq<Seq<char>>)
    ensures
        ({
            let r = run_args_of(name, config, gpu);
            &&& r.len() >= 1
            &&& r[r.len() - 1] == config.capsule@
            &&& config.restart_policy == RestartPolicy::Always ==> r.len() >= 3 && r[r.len() - 3]
                == "--restart"@ && r[r.len() - 2] == "always"@
            &&& config.restart_policy == RestartPolicy::OnFailure ==> r.len() >= 3 && r[r.len() - 3]
                == "--restart"@ && r[r.len() - 2] == "on-failure"@
            &&& config.restart_policy == RestartPolicy::UnlessStopped ==> r.len() >= 3 && r[r.len()
                - 3] == "--restart"@ && r[r.len() - 2] == "unless-stopped"@
        }),
{
    let r = run_args_of(name, config, gpu);
    let h = run_head_args(name, config);
    let t = run_tail_args(config, gpu);
    let l = limit_args(config);
    let ra = restart_args(config.restart_policy);
    let ng = (match config.network {
        Some(n) => seq!["--network"@, n@],
        None => Seq::empty(),
    }) + (if config.gpu_passthrough {
        gpu
    } else {
        Seq::empty()
    });
    let mc = (match config.memory_mb {
        Some(m) => seq!["--memory"@, dec(m as nat) + "m"@],
        None => Seq::empty(),
    }) + (match config.cpus {
        Some(c) => seq!["--cpus"@, dec(c as nat)],
        None => Seq::empty(),
    });
    assert(r == h + t);
    assert(t == ng + l + seq![config.capsule@]);
    assert(l == mc + ra);
    let u = ra + seq![config.capsule@];
    assert(r =~= (h + ng + mc) + u);
    let n = r.len();
    assert(r[n - 1] == u[u.len() - 1]);
    if ra.len() == 2 {
        assert(r[n - 3] == u[0]);
        assert(r[n - 2] == u[1]);
    }
}

/// Distinct restart policies give distinct restart arguments.
pub proof fn law_restart_args_injective(p: RestartPolicy, q: RestartPolicy)
    ensures
        restart_args(p) == restart_args(q) ==> p == q,
{
    reveal_strlit("always");
    reveal_strlit("on-failure");
    reveal_strlit("unless-stopped");
    if restart_args(p) == restart_args(q) && p != q {
        if p != RestartPolicy::No && q != RestartPolicy::No {
            assert(restart_args(p)[1].len() != restart_args(q)[1].len());
        } else {
            assert(restart_args(p).len() != restart_args(q).len());
        }
    }
}

fn push_s(v: &mut Vec<String>, s: &str)
    ensures
        views(final(v)@) == views(old(v)@).push(s@),
{
    let ghost v0 = views(v@);
    v.push(s.to_owned());
    assert(views(v@) =~= v0.push(s@));
}

fn push_flagged(v: &mut Vec<String>, flag: &str, vs: &Vec<String>)
    ensures
        views(final(v)@) == views(old(v)@) + flag_args(flag@, views(vs@)),
{
    let ghost v0 = views(v@);
    let mut i: usize = 0;
    while i < vs.len()
        invariant
            i <= vs.len(),
            views(v@) == v0 + flag_args(flag@, views(vs@.take(i as int))),
        decreases vs.len() - i,
    {
        assert(views(vs@.take(i + 1)).drop_last() =~= views(vs@.take(i as int)));
        assert(views(vs@.take(i + 1)).last() == vs@[i as int]@);
        push_s(v, flag);
        push_s(v, vs[i].as_str());
        assert(views(v@) =~= v0 + flag_args(flag@, views(vs@.take(i + 1))));
        i += 1;
    }
    assert(vs@.take(vs.len() as int) =~= vs@);
}

fn push_env(v: &mut Vec<String>, env: &Vec<(String, String)>)
    ensures
        views(final(v)@) == views(old(v)@) + env_args(env@),
{
    let ghost v0 = views(v@);
    let mut i: usize = 0;
    while i < env.len()
        invariant
            i <= env.len(),
            views(v@) == v0 + env_args(env@.take(i as int)),
        decreases env.len() - i,
    {
        assert(env@.take(i + 1).drop_last() =~= env@.take(i as int));
        push_s(v, "-e");
        let mut kv = cat(env[i].0.as_str(), "=");
        kv.append(env[i].1.as_str());
        push_s(v, kv.as_str());
        assert(views(v@) =~= v0 + env_args(env@.take(i + 1)));
        i += 1;
    }
    assert(env@.take(env.len() as int) =~= env@);
}

fn push_limits(v: &mut Vec<String>, config: &ContainerConfig)
    ensures
        views(final(v)@) == views(old(v)@) + limit_args(*config),
{
    let ghost v0 = views(v@);
    match config.memory_mb {
        Some(m) => {
            push_s(v, "--memory");
            let t = cat(dec_string(m).as_str(), "m");
            push_s(v, t.as_str());
        },
        None => {},
    }
    let ghost v1 = views(v@);
    match config.cpus {
        Some(c) => {
            push_s(v, "--cpus");
            let t = dec_string(c as u64);
            push_s(v, t.as_str());
        },
        None => {},
    }
    let ghost v2 = views(v@);
    match config.restart_policy {
        RestartPolicy::Always => {
            push_s(v, "--restart");
            push_s(v, "always");
        },
        RestartPolicy::OnFailure => {
            push_s(v, "--restart");
            push_s(v, "on-failure");
        },
        RestartPolicy::UnlessStopped => {
            push_s(v, "--restart");
            push_s(v, "unless-stopped");
        },
        RestartPolicy::No => {},
    }
    assert(v1 =~= v0 + (match config.memory_mb {
        Some(m) => seq!["--memory"@, dec(m as nat) + "m"@],
        None => Seq::<Seq<char>>::empty(),
    }));
    assert(v2 =~= v1 + (match config.cpus {
        Some(c) => seq!["--cpus"@, dec(c as nat)],
        None => Seq::<Seq<char>>::empty(),
    }));
    assert(views(v@) =~= v2 + restart_args(config.restart_policy));
    assert(views(v@) =~= v0 + limit_args(*config));
}

fn push_head(v: &mut Vec<String>, name: Option<&str>, config: &ContainerConfig)
    ensures
        views(final(v)@) == views(old(v)@) + run_head_args(
            match name {
                Some(n) => Some(n@),
                None => None,
            },
            *config,
        ),
{
    let ghost a = views(v@);
    push_s(v, "run");
    let ghost a0 = views(v@);
    match name {
        Some(n) => {
            push_s(v, "--name");
            push_s(v, n);
        },
        None => {},
    }
    let ghost a1 = views(v@);
    if config.detach {
        push_s(v, "-d");
    }
    let ghost a2 = views(v@);
    push_flagged(v, "-p", &config.ports);
    push_flagged(v, "-v", &config.volumes);
    push_env(v, &config.env);
    assert(a1 =~= a0 + name_args(
        match name {
            Some(n) => Some(n@),
            None => None,
        },
    ));
    assert(a2 =~= a1 + (if config.detach {
        seq!["-d"@]
    } else {
        Seq::<Seq<char>>::empty()
    }));
    assert(views(v@) =~= a + run_head_args(
        match name {
            Some(n) => Some(n@),
            None => None,
        },
        *config,
    ));
}

fn push_tail(v: &mut Vec<String>, config: &ContainerConfig, gpu: &Vec<String>)
    ensures
        views(final(v)@) == views(old(v)@) + run_tail_args(*config, views(gpu@)),
{
    let ghost a3 = views(v@);
    match &config.network {
        Some(n) => {
            push_s(v, "--network");
            push_s(v, n.as_str());
        },
        None => {},
    }
    let ghost a4 = views(v@);
    if config.gpu_passthrough {
        let mut i: usize = 0;
        while i < gpu.len()
            invariant
                i <= gpu.len(),
                views(v@) == a4 + views(gpu@.take(i as int)),
            decreases gpu.len() - i,
        {
            push_s(v, gpu[i].as_str());
            assert(views(gpu@.take(i + 1)) =~= views(gpu@.take(i as int)).push(gpu@[i as int]@));
            assert(views(v@) =~= a4 + views(gpu@.take(i + 1)));
            i += 1;
        }
        assert(gpu@.take(gpu.len() as int) =~= gpu@);
    }
    let ghost a5 = views(v@);
    push_limits(v, config);
    let ghost a6 = views(v@);
    push_s(v, config.capsule.as_str());
    assert(a4 =~= a3 + (match config.network {
        Some(n) => seq!["--network"@, n@],
        None => Seq::<Seq<char>>::empty(),
    }));
    assert(a5 =~= a4 + (if config.gpu_passthrough {
        views(gpu@)
    } else {
        Seq::<Seq<char>>::empty()
    }));
    assert(views(v@) =~= a3 + run_tail_args(*config, views(gpu@)));
}

/// The arguments of a runtime's `run` call (see `run_args_of`).
pub(crate) fn run_args(name: Option<&str>, config: &ContainerConfig, gpu: &Vec<String>) -> (r: Vec<String>)
    ensures
        views(r@) == run_args_of(
            match name {
                Some(n) => Some(n@),
                None => None,
            },
            *config,
            views(gpu@),
        ),
{
    let mut v: Vec<String> = Vec::new();
    push_head(&mut v, name, config);
    push_tail(&mut v, config, gpu);
    assert(views(v@) =~= run_args_of(
        match name {
            Some(n) => Some(n@),
            None => None,
        },
        *config,
        views(gpu@),
    ));
    v
}

// ---------------------------------------------------------------------------
// Outcomes of command-line calls
// ---------------------------------------------------------------------------

/// The text for a call that could not be started: `Failed to execute <cmd>: <e>`.
pub open spec fn exec_failure(cmd: Seq<char>, e: Seq<char>) -> Seq<char> {
    "Failed to execute "@ + cmd + ": "@ + e
}

pub(crate) fn exec_failure_text(cmd: &str, e: &str) -> (r: String)
    ensures
        r@ == exec_failure(cmd@, e@),
{
    let mut r = cat("Failed to execute ", cmd);
    r.append(": ");
    r.append(e);
    r
}

/// The outcome of a `run` call (`Err`: the call could not be started, with
/// the reason): the trimmed standard output is the new container's id; a
/// call that could not be started or failed is `StartFailed`.
pub fn run_outcome(cmd: &str, out: Result<CommandOutput, String>) -> (r: Result<String, ContainerRuntimeError>)
    ensures
        match out {
            Err(e) => r matches Err(ContainerRuntimeError::StartFailed(m)) && m@ == exec_failure(cmd@, e@),
            Ok(o) => if o.success {
                r matches Ok(id) && id@ == trim(o.stdout@)
            } else {
                r matches Err(ContainerRuntimeError::StartFailed(m)) && m@ == o.stderr@
            },
        },
{
    match out {
        Err(e) => Err(ContainerRuntimeError::StartFailed(exec_failure_text(cmd, e.as_str()))),
        Ok(o) => {
            if !o.success {
                Err(ContainerRuntimeError::StartFailed(o.stderr))
            } else {
                Ok(trim_str(o.stdout.as_str()))
            }
        },
    }
}

/// The outcome of a `stop` call: failures are `StopFailed`.
pub fn stop_outcome(cmd: &str, out: Result<CommandOutput, String>) -> (r: Result<(), ContainerRuntimeError>)
    ensures
        match out {
            Err(e) => r matches Err(ContainerRuntimeError::StopFailed(m)) && m@ == exec_failure(cmd@, e@),
            Ok(o) => if o.success {
                r is Ok
            } else {
                r matches Err(ContainerRuntimeError::StopFailed(m)) && m@ == o.stderr@
            },
        },
{
    match out {
        Err(e) => Err(ContainerRuntimeError::StopFailed(exec_failure_text(cmd, e.as_str()))),
        Ok(o) => {
            if !o.success {
                Err(ContainerRuntimeError::StopFailed(o.stderr))
            } else {
                Ok(())
            }
        },
    }
}

/// The outcome of a call whose failures are reported as `Other` (such as
/// `rm` or `pull`).
pub fn plain_outcome(cmd: &str, out: Result<CommandOutput, String>) -> (r: Result<(), ContainerRuntimeError>)
    ensures
        match out {
            Err(e) => r matches Err(ContainerRuntimeError::Other(m)) && m@ == exec_failure(cmd@, e@),
            Ok(o) => if o.success {
                r is Ok
            } else {
                r matches Err(ContainerRuntimeError::Other(m)) && m@ == o.stderr@
            },
        },
{
    match out {
        Err(e) => Err(ContainerRuntimeError::Other(exec_failure_text(cmd, e.as_str()))),
        Ok(o) => {
            if !o.success {
                Err(ContainerRuntimeError::Other(o.stderr))
            } else {
                Ok(())
            }
        },
    }
}

/// The arguments of an `rm` call.
pub fn remove_args(id_or_name: &str, force: bool) -> (r: Vec<String>)
    ensures
        views(r@) == seq!["rm"@] + (if force {
            seq!["-f"@]
        } else {
            Seq::empty()
        }) + seq![id_or_name@],
{
    let mut v: Vec<String> = Vec::new();
    push_s(&mut v, "rm");
    if force {
        push_s(&mut v, "-f");
    }
    push_s(&mut v, id_or_name);
    assert(views(v@) =~= seq!["rm"@] + (if force {
        seq!["-f"@]
    } else {
        Seq::<Seq<char>>::empty()
    }) + seq![id_or_name@]);
    v
}

/// The arguments of a `logs` call for the last `lines` lines.
pub fn logs_args(id_or_name: &str, lines: usize) -> (r: Vec<String>)
    ensures
        views(r@) == seq!["logs"@, "--tail"@, dec(lines as nat), id_or_name@],
{
    let mut v: Vec<String> = Vec::new();
    push_s(&mut v, "logs");
    push_s(&mut v, "--tail");
    let n = dec_string(lines as u64);
    push_s(&mut v, n.as_str());
    push_s(&mut v, id_or_name);
    assert(views(v@) =~= seq!["logs"@, "--tail"@, dec(lines as nat), id_or_name@]);
    v
}

/// The outcome of a `logs` call: the lines of its output; a call that
/// failed means the container was not found.
pub fn logs_outcome(cmd: &str, id_or_name: &str, out: Result<CommandOutput, String>) -> (r: Result<
    Vec<String>,
    ContainerRuntimeError,
>)
    ensures
        match out {
            Err(e) => r matches Err(ContainerRuntimeError::Other(m)) && m@ == exec_failure(cmd@, e@),
            Ok(o) => if o.success {
                r matches Ok(ls) && views(ls@) == lines(o.stdout@)
            } else {
                r matches Err(ContainerRuntimeError::ContainerNotFound(m)) && m@ == id_or_name@
            },
        },
{
    match out {
        Err(e) => Err(ContainerRuntimeError::Other(exec_failure_text(cmd, e.as_str()))),
        Ok(o) => {
            if !o.success {
                Err(ContainerRuntimeError::ContainerNotFound(id_or_name.to_owned()))
            } else {
                Ok(lines_exec(o.stdout.as_str()))
            }
        },
    }
}

// ---------------------------------------------------------------------------
// Listings
// ---------------------------------------------------------------------------

/// A container as a listing line shows it: id, name, image and status.
pub type PsRow = (Seq<char>, Seq<char>, Seq<char>, ContainerStatus);

/// The rows of the lines that `row` reads, in order; other lines are skipped.
pub open spec fn rows_of(ls: Seq<Seq<char>>, row: spec_fn(Seq<char>) -> Option<PsRow>) -> Seq<PsRow>
    decreases ls.len(),
{
    if ls.len() == 0 {
        Seq::empty()
    } else {
        rows_of(ls.drop_last(), row) + match row(ls.last()) {
            Some(r) => seq![r],
            None => Seq::empty(),
        }
    }
}

/// The lines after the first, if any.
pub open spec fn after_first(ls: Seq<Seq<char>>) -> Seq<Seq<char>> {
    if ls.len() == 0 {
        ls
    } else {
        ls.drop_first()
    }
}

/// `i` is what a listing row says of a container; a listing gives no ports,
/// network, pid or address.
pub open spec fn info_from_row(i: ContainerInfo, r: PsRow) -> bool {
    &&& i.id@ == r.0
    &&& i.name@ == r.1
    &&& i.image@ == r.2
    &&& i.status == r.3
    &&& i.ports@.len() == 0
    &&& i.network is None
    &&& i.pid is None
    &&& i.ip_address is None
}

/// `infos` are, in order, the containers that `rows` describe.
pub open spec fn infos_from_rows(infos: Seq<ContainerInfo>, rows: Seq<PsRow>) -> bool {
    infos.len() == rows.len() && forall|k: int| 0 <= k < rows.len() ==> info_from_row(#[trigger] infos[k], rows[k])
}

/// A listing row read into a container record, created now.
pub(crate) fn info_of(id: String, name: String, image: String, status: ContainerStatus) -> (i: ContainerInfo)
    ensures
        info_from_row(i, (id@, name@, image@, status)),
{
    ContainerInfo {
        id,
        name,
        image,
        status,
        created: now_timestamp(),
        ports: Vec::new(),
        network: None,
        pid: None,
        ip_address: None,
    }
}

} // verus!

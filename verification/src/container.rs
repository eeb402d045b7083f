//! The container manager: it picks a runtime (Bolt, else Docker) and turns
//! the outcomes of the runtime's calls into the library's results and
//! instances.
use vstd::prelude::*;
use crate::bolt_runtime::{bolt_gpu_args, BoltRuntime};
use crate::config::ContainerConfig as NovaContainerConfig;
use crate::container_runtime::{
    logs_args, logs_outcome, plain_outcome, remove_args, run_args_of, run_outcome, stop_outcome,
    CommandOutput, ContainerConfig, ContainerInfo, ContainerRuntimeError, ContainerStatus,
    RestartPolicy,
};
use crate::docker_runtime::{docker_gpu_args, docker_list_args_of, DockerRuntime};
use crate::error::NovaError;
use crate::gpu_passthrough::{clone_opt, clone_strings, opt_view};
use crate::instance::{Instance, InstanceStatus, InstanceType};
use crate::text::{lines, views};
use crate::ids::uuid_v4_text;

verus! {

/// The runtime a manager drives.
pub enum ActiveRuntime {
    Bolt(BoltRuntime),
    Docker(DockerRuntime),
}

/// Container manager with runtime selection (Bolt, else Docker).
pub struct ContainerManager {
    runtime: ActiveRuntime,
    runtime_name: String,
}

/// The instance status a container status stands for.
pub open spec fn instance_status_of(s: ContainerStatus) -> InstanceStatus {
    match s {
        ContainerStatus::Running => InstanceStatus::Running,
        ContainerStatus::Stopped => InstanceStatus::Stopped,
        ContainerStatus::Paused => InstanceStatus::Suspended,
        ContainerStatus::Starting => InstanceStatus::Starting,
        ContainerStatus::Restarting => InstanceStatus::Starting,
        _ => InstanceStatus::Error,
    }
}

/// `i` is a fresh container instance for `c`: its name, its status, its
/// process id and network, and the defaults of a new instance otherwise.
pub open spec fn instance_for(i: Instance, c: ContainerInfo) -> bool {
    &&& uuid_v4_text(i.id@)
    &&& i.name == c.name
    &&& i.instance_type == InstanceType::Container
    &&& i.status == instance_status_of(c.status)
    &&& i.pid == c.pid
    &&& i.network == c.network
    &&& i.cpu_cores == 2
    &&& i.memory_mb == 1024
    &&& i.ip_address is None
}

/// The runtime configuration for a container of the manager's configuration
/// (or its defaults when there is none): its capsule (`ubuntu:latest` when
/// unset), volumes, environment and network, GPU access as Bolt's setting
/// says, no ports or limits, no restarts, detached.
pub open spec fn runtime_config_of(config: Option<NovaContainerConfig>, r: ContainerConfig) -> bool {
    &&& r.capsule@ == match config {
        Some(c) => match c.capsule {
            Some(s) => s@,
            None => "ubuntu:latest"@,
        },
        None => "ubuntu:latest"@,
    }
    &&& r.ports@.len() == 0
    &&& r.volumes@ == match config {
        Some(c) => c.volumes@,
        None => Seq::empty(),
    }
    &&& r.env@ == match config {
        Some(c) => c.env@,
        None => Seq::empty(),
    }
    &&& opt_view(r.network) == match config {
        Some(c) => opt_view(c.network),
        None => None,
    }
    &&& r.gpu_passthrough == match config {
        Some(c) => c.bolt.gpu_access,
        None => false,
    }
    &&& r.memory_mb is None
    &&& r.cpus is None
    &&& r.restart_policy == RestartPolicy::No
    &&& r.detach
}

pub open spec fn deref_config(c: Option<&NovaContainerConfig>) -> Option<NovaContainerConfig> {
    match c {
        Some(x) => Some(*x),
        None => None,
    }
}

/// The status an instance takes for a container status.
pub fn instance_status(s: ContainerStatus) -> (r: InstanceStatus)
    ensures
        r == instance_status_of(s),
{
    match s {
        ContainerStatus::Running => InstanceStatus::Running,
        ContainerStatus::Stopped => InstanceStatus::Stopped,
        ContainerStatus::Paused => InstanceStatus::Suspended,
        ContainerStatus::Starting => InstanceStatus::Starting,
        ContainerStatus::Restarting => InstanceStatus::Starting,
        _ => InstanceStatus::Error,
    }
}

/// A fresh container instance for what a runtime reports.
pub fn instance_of_container(c: &ContainerInfo) -> (r: Instance)
    ensures
        instance_for(r, *c),
{
    let mut instance = Instance::new(c.name.clone(), InstanceType::Container);
    instance.update_status(instance_status(c.status));
    if let Some(pid) = c.pid {
        instance.set_pid(Some(pid));
    }
    instance.network = clone_opt(&c.network);
    instance
}

fn copy_env(env: &Vec<(String, String)>) -> (r: Vec<(String, String)>)
    ensures
        r@ == env@,
{
    let mut r: Vec<(String, String)> = Vec::new();
    let mut i: usize = 0;
    while i < env.len()
        invariant
            i <= env.len(),
            r@ == env@.take(i as int),
        decreases env.len() - i,
    {
        r.push((env[i].0.clone(), env[i].1.clone()));
        assert(env@.take(i + 1) =~= env@.take(i as int).push(env@[i as int]));
        i += 1;
    }
    assert(env@.take(env.len() as int) =~= env@);
    r
}

/// The runtime configuration of a container (see `runtime_config_of`).
pub fn runtime_config_for(config: Option<&NovaContainerConfig>) -> (r: ContainerConfig)
    ensures
        runtime_config_of(deref_config(config), r),
{
    match config {
        Some(c) => ContainerConfig {
            capsule: match &c.capsule {
                Some(s) => s.clone(),
                None => "ubuntu:latest".to_owned(),
            },
            ports: Vec::new(),
            volumes: clone_strings(&c.volumes),
            env: copy_env(&c.env),
            network: clone_opt(&c.network),
            gpu_passthrough: c.bolt.gpu_access,
            memory_mb: None,
            cpus: None,
            restart_policy: RestartPolicy::No,
            detach: true,
        },
        None => ContainerConfig {
            capsule: "ubuntu:latest".to_owned(),
            ports: Vec::new(),
            volumes: Vec::new(),
            env: Vec::new(),
            network: None,
            gpu_passthrough: false,
            memory_mb: None,
            cpus: None,
            restart_policy: RestartPolicy::No,
            detach: true,
        },
    }
}

/// Any runtime failure is reported as a failed system command.
fn command_failed<T>(r: Result<T, ContainerRuntimeError>) -> (out: Result<(), NovaError>)
    ensures
        r is Ok ==> out is Ok,
        r is Err ==> out == Err::<(), NovaError>(NovaError::SystemCommandFailed),
{
    match r {
        Ok(_) => Ok(()),
        Err(_) => Err(NovaError::SystemCommandFailed),
    }
}

impl ContainerManager {
    pub closed spec fn name_view(self) -> Seq<char> {
        self.runtime_name@
    }

    /// Whether the manager drives Bolt (else Docker).
    pub closed spec fn drives_bolt(self) -> bool {
        self.runtime is Bolt
    }

    /// Whether the runtime the manager drives is installed.
    pub closed spec fn runtime_available(self) -> bool {
        match self.runtime {
            ActiveRuntime::Bolt(b) => b.available_view(),
            ActiveRuntime::Docker(d) => d.available_view(),
        }
    }

    /// Picks Bolt when it is installed, else Docker when it is; with neither
    /// the manager keeps Bolt, unavailable, under the name `None`.
    pub fn new(bolt: BoltRuntime, docker: DockerRuntime) -> (r: Self)
        ensures
            bolt.available_view() ==> r.drives_bolt() && r.runtime_available() && r.name_view() == "Bolt"@,
            !bolt.available_view() && docker.available_view() ==> !r.drives_bolt() && r.runtime_available()
                && r.name_view() == "Docker"@,
            !bolt.available_view() && !docker.available_view() ==> r.drives_bolt() && !r.runtime_available()
                && r.name_view() == "None"@,
    {
        if bolt.is_available() {
            ContainerManager { runtime: ActiveRuntime::Bolt(bolt), runtime_name: "Bolt".to_owned() }
        } else if docker.is_available() {
            ContainerManager { runtime: ActiveRuntime::Docker(docker), runtime_name: "Docker".to_owned() }
        } else {
            ContainerManager { runtime: ActiveRuntime::Bolt(bolt), runtime_name: "None".to_owned() }
        }
    }

    /// The active runtime's name.
    pub fn get_runtime_name(&self) -> (r: &str)
        ensures
            r@ == self.name_view(),
    {
        self.runtime_name.as_str()
    }

    /// The active runtime's name.
    pub fn check_container_runtime(&self) -> (r: &str)
        ensures
            r@ == self.name_view(),
    {
        self.runtime_name.as_str()
    }

    /// Whether Bolt, as probed afresh, is installed.
    pub fn check_bolt_available(&self, bolt: &BoltRuntime) -> (r: bool)
        ensures
            r == bolt.available_view(),
    {
        bolt.is_available()
    }

    /// Whether Docker, as probed afresh, is installed.
    pub fn check_docker_available(&self, docker: &DockerRuntime) -> (r: bool)
        ensures
            r == docker.available_view(),
    {
        docker.is_available()
    }

    /// The program that runs the active runtime's calls.
    pub fn program(&self) -> (r: &str)
        ensures
            self.drives_bolt() ==> r@ == "bolt"@,
            !self.drives_bolt() ==> r@ == "docker"@,
    {
        match &self.runtime {
            ActiveRuntime::Bolt(b) => b.program(),
            ActiveRuntime::Docker(d) => d.program(),
        }
    }

    /// The arguments of the call that starts container `name` from its
    /// configuration (see `runtime_config_for`); a runtime that is not
    /// installed fails as a system command.
    pub fn start_container_args(&self, name: &str, config: Option<&NovaContainerConfig>) -> (r: Result<
        Vec<String>,
        NovaError,
    >)
        ensures
            !self.runtime_available() ==> r == Err::<Vec<String>, NovaError>(NovaError::SystemCommandFailed),
            self.runtime_available() ==> (r matches Ok(a) && exists|c: ContainerConfig|
                #[trigger] runtime_config_of(deref_config(config), c) && views(a@) == run_args_of(
                    Some(name@),
                    c,
                    if self.drives_bolt() {
                        bolt_gpu_args()
                    } else {
                        docker_gpu_args()
                    },
                )),
    {
        let rc = runtime_config_for(config);
        let args = match &self.runtime {
            ActiveRuntime::Bolt(b) => b.run_container_args(rc.capsule.as_str(), Some(name), &rc),
            ActiveRuntime::Docker(d) => d.run_container_args(rc.capsule.as_str(), Some(name), &rc),
        };
        match args {
            Ok(a) => {
                proof {
                    let gpu = if self.drives_bolt() {
                        bolt_gpu_args()
                    } else {
                        docker_gpu_args()
                    };
                    let full = run_args_of(Some(name@), rc, gpu);
                    assert(full.drop_last().push(rc.capsule@) =~= full);
                }
                Ok(a)
            },
            Err(_) => Err(NovaError::SystemCommandFailed),
        }
    }

    /// Starts container `name`, given the outcome of the call that
    /// `start_container_args` gave: a runtime that is not installed, a call
    /// that could not be made or that failed, fail as a system command.
    pub fn start_container(
        &self,
        name: &str,
        config: Option<&NovaContainerConfig>,
        run: Result<CommandOutput, String>,
    ) -> (r: Result<(), NovaError>)
        ensures
            !self.runtime_available() ==> r == Err::<(), NovaError>(NovaError::SystemCommandFailed),
            self.runtime_available() ==> match run {
                Ok(o) => if o.success {
                    r is Ok
                } else {
                    r == Err::<(), NovaError>(NovaError::SystemCommandFailed)
                },
                Err(_) => r == Err::<(), NovaError>(NovaError::SystemCommandFailed),
            },
    {
        let _args = self.start_container_args(name, config)?;
        command_failed(run_outcome(self.program(), run))
    }

    /// The arguments of the call that stops a container.
    pub fn stop_container_args(&self, name: &str) -> (r: Vec<String>)
        ensures
            views(r@) == seq!["stop"@, name@],
    {
        let v: Vec<String> = vec!["stop".to_owned(), name.to_owned()];
        assert(views(v@) =~= seq!["stop"@, name@]);
        v
    }

    /// Stops a container, given the outcome of the call: any failure is a
    /// failed system command.
    pub fn stop_container(&self, name: &str, out: Result<CommandOutput, String>) -> (r: Result<(), NovaError>)
        ensures
            (out matches Ok(o) && o.success) ==> r is Ok,
            !(out matches Ok(o) && o.success) ==> r == Err::<(), NovaError>(NovaError::SystemCommandFailed),
    {
        command_failed(stop_outcome(self.program(), out))
    }

    /// The arguments of the call that removes a container.
    pub fn remove_container_args(&self, name: &str, force: bool) -> (r: Vec<String>)
        ensures
            views(r@) == seq!["rm"@] + (if force {
                seq!["-f"@]
            } else {
                Seq::empty()
            }) + seq![name@],
    {
        remove_args(name, force)
    }

    /// Removes a container, given the outcome of the call: any failure is a
    /// failed system command.
    pub fn remove_container(&self, name: &str, force: bool, out: Result<CommandOutput, String>) -> (r: Result<
        (),
        NovaError,
    >)
        ensures
            (out matches Ok(o) && o.success) ==> r is Ok,
            !(out matches Ok(o) && o.success) ==> r == Err::<(), NovaError>(NovaError::SystemCommandFailed),
    {
        command_failed(plain_outcome(self.program(), out))
    }

    /// The arguments of the call that lists all containers.
    pub fn list_containers_args(&self) -> (r: Vec<String>)
        ensures
            self.drives_bolt() ==> views(r@) == seq!["ps"@, "-a"@],
            !self.drives_bolt() ==> views(r@) == docker_list_args_of(true),
    {
        match &self.runtime {
            ActiveRuntime::Bolt(_) => {
                let v: Vec<String> = vec!["ps".to_owned(), "-a".to_owned()];
                assert(views(v@) =~= seq!["ps"@, "-a"@]);
                v
            },
            ActiveRuntime::Docker(d) => d.list_containers_args(true),
        }
    }

    /// The containers of a listing of all containers (as the active
    /// runtime reads its output), as fresh instances; a failed listing
    /// gives none.
    pub fn list_containers_async(&self, out: Result<CommandOutput, String>) -> (r: Vec<Instance>)
        ensures
            exists|listed: Result<Vec<ContainerInfo>, ContainerRuntimeError>| {
                &&& #[trigger] listed_by(*self, out, listed)
                &&& match listed {
                    Ok(cs) => r@.len() == cs@.len() && forall|k: int| 0 <= k < cs@.len() ==> instance_for(#[trigger] r@[k], cs@[k]),
                    Err(_) => r@.len() == 0,
                }
            },
    {
        let listed = match &self.runtime {
            ActiveRuntime::Bolt(b) => b.list_containers_outcome(out),
            ActiveRuntime::Docker(d) => d.list_containers_outcome(out),
        };
        let ghost lst = listed;
        assert(listed_by(*self, out, lst));
        match listed {
            Ok(cs) => {
                let mut r: Vec<Instance> = Vec::new();
                let mut i: usize = 0;
                while i < cs.len()
                    invariant
                        i <= cs.len(),
                        r@.len() == i,
                        forall|k: int| 0 <= k < i ==> instance_for(#[trigger] r@[k], cs@[k]),
                    decreases cs.len() - i,
                {
                    r.push(instance_of_container(&cs[i]));
                    i += 1;
                }
                r
            },
            Err(_) => Vec::new(),
        }
    }

    /// The instance of a container, from what the runtime's inspect gave;
    /// none when it failed.
    pub fn get_container(&self, name: &str, inspected: Result<ContainerInfo, ContainerRuntimeError>) -> (r: Option<Instance>)
        ensures
            match inspected {
                Ok(c) => r matches Some(i) && instance_for(i, c),
                Err(_) => r is None,
            },
    {
        match inspected {
            Ok(c) => Some(instance_of_container(&c)),
            Err(_) => None,
        }
    }

    /// What the runtime's inspect gave; a failure means the container was
    /// not found.
    pub fn inspect_container(&self, name: &str, inspected: Result<ContainerInfo, ContainerRuntimeError>) -> (r: Result<
        ContainerInfo,
        NovaError,
    >)
        ensures
            match inspected {
                Ok(c) => r == Ok::<ContainerInfo, NovaError>(c),
                Err(_) => r matches Err(NovaError::ContainerNotFound(n)) && n@ == name@,
            },
    {
        match inspected {
            Ok(c) => Ok(c),
            Err(_) => Err(NovaError::ContainerNotFound(name.to_owned())),
        }
    }

    /// The status of a container, from what the runtime's inspect gave; a
    /// failure means the container was not found.
    pub fn get_container_status(&self, name: &str, inspected: Result<ContainerInfo, ContainerRuntimeError>) -> (r: Result<
        InstanceStatus,
        NovaError,
    >)
        ensures
            match inspected {
                Ok(c) => r == Ok::<InstanceStatus, NovaError>(instance_status_of(c.status)),
                Err(_) => r matches Err(NovaError::ContainerNotFound(n)) && n@ == name@,
            },
    {
        let c = self.inspect_container(name, inspected)?;
        Ok(instance_status(c.status))
    }

    /// The arguments of the call that fetches the last `lines` log lines.
    pub fn get_container_logs_args(&self, name: &str, lines: usize) -> (r: Vec<String>)
        ensures
            views(r@) == seq!["logs"@, "--tail"@, crate::text::dec(lines as nat), name@],
    {
        logs_args(name, lines)
    }

    /// The log lines of a container, given the outcome of the call: any
    /// failure is a failed system command.
    pub fn get_container_logs(&self, name: &str, lines: usize, out: Result<CommandOutput, String>) -> (r: Result<
        Vec<String>,
        NovaError,
    >)
        ensures
            match out {
                Ok(o) => if o.success {
                    r matches Ok(ls) && views(ls@) == crate::text::lines(o.stdout@)
                } else {
                    r == Err::<Vec<String>, NovaError>(NovaError::SystemCommandFailed)
                },
                Err(_) => r == Err::<Vec<String>, NovaError>(NovaError::SystemCommandFailed),
            },
    {
        match logs_outcome(self.program(), name, out) {
            Ok(ls) => Ok(ls),
            Err(_) => Err(NovaError::SystemCommandFailed),
        }
    }

    /// The arguments of the call that pulls an image.
    pub fn pull_image_args(&self, image: &str) -> (r: Vec<String>)
        ensures
            views(r@) == seq!["pull"@, image@],
    {
        let v: Vec<String> = vec!["pull".to_owned(), image.to_owned()];
        assert(views(v@) =~= seq!["pull"@, image@]);
        v
    }

    /// Pulls an image, given the outcome of the call: any failure is a
    /// failed system command.
    pub fn pull_image(&self, image: &str, out: Result<CommandOutput, String>) -> (r: Result<(), NovaError>)
        ensures
            (out matches Ok(o) && o.success) ==> r is Ok,
            !(out matches Ok(o) && o.success) ==> r == Err::<(), NovaError>(NovaError::SystemCommandFailed),
    {
        command_failed(plain_outcome(self.program(), out))
    }
}

/// `listed` is what the manager's runtime reads from the output of its
/// listing call.
pub open spec fn listed_by(
    m: ContainerManager,
    out: Result<CommandOutput, String>,
    listed: Result<Vec<ContainerInfo>, ContainerRuntimeError>,
) -> bool {
    match out {
        Err(_) => listed is Err,
        Ok(o) => if o.success {
            listed matches Ok(cs) && crate::container_runtime::infos_from_rows(
                cs@,
                if m.drives_bolt() {
                    crate::container_runtime::rows_of(crate::container_runtime::after_first(lines(o.stdout@)), |l: Seq<char>| crate::bolt_runtime::bolt_row(l))
                } else {
                    crate::container_runtime::rows_of(lines(o.stdout@), |l: Seq<char>| crate::docker_runtime::docker_row(l))
                },
            )
        } else {
            listed matches Ok(cs) && cs@.len() == 0
        },
    }
}

} // verus!

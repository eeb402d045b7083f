//! The Docker container runtime, the fallback when Bolt is missing: the
//! arguments of its command-line calls and what their output means.
use vstd::prelude::*;
use crate::container_runtime::{
    info_from_row, info_of, infos_from_rows, rows_of, run_args, run_args_of, ContainerConfig,
    ContainerInfo, ContainerRuntimeError, ContainerStatus, CommandOutput, PsRow, exec_failure,
    exec_failure_text,
};
use crate::gpu_passthrough::{clone_opt, opt_view};
use crate::text::{
    contains, lines, lines_exec, lowercase_of, split_char, split_exec, str_contains, str_eq,
    to_lowercase, trim, trim_str, views,
};

verus! {

/// Docker, as found on the host: whether it is installed, and its version.
pub struct DockerRuntime {
    available: bool,
    version: Option<String>,
}

/// The status that an already lower-cased Docker status text shows.
pub open spec fn docker_status_of_lower(l: Seq<char>) -> ContainerStatus {
    if contains(l, "up"@) || contains(l, "running"@) {
        ContainerStatus::Running
    } else if contains(l, "exited"@) {
        ContainerStatus::Stopped
    } else if contains(l, "paused"@) {
        ContainerStatus::Paused
    } else if contains(l, "restarting"@) {
        ContainerStatus::Restarting
    } else if contains(l, "created"@) {
        ContainerStatus::Starting
    } else if contains(l, "dead"@) {
        ContainerStatus::Dead
    } else {
        ContainerStatus::Unknown
    }
}

/// The row a `docker ps` line in `ID|NAME|IMAGE|STATUS` form shows, when it
/// has at least four `|`-separated fields.
pub open spec fn docker_row(line: Seq<char>) -> Option<PsRow> {
    let p = split_char(line, '|');
    if p.len() < 4 {
        None
    } else {
        Some((p[0], p[1], p[2], docker_status_of_lower(lowercase_of(p[3]))))
    }
}

/// The GPU flags of `docker run`: all GPUs.
pub open spec fn docker_gpu_args() -> Seq<Seq<char>> {
    seq!["--gpus"@, "all"@]
}

/// The arguments of `docker ps`, all containers or only running ones.
pub open spec fn docker_list_args_of(all: bool) -> Seq<Seq<char>> {
    seq!["ps"@, "--format"@, "{{.ID}}|{{.Names}}|{{.Image}}|{{.Status}}"@] + if all {
        seq!["-a"@]
    } else {
        Seq::empty()
    }
}

/// The status an already lower-cased Docker status text shows.
pub fn docker_status_from_lowercase(lower: &str) -> (r: ContainerStatus)
    ensures
        r == docker_status_of_lower(lower@),
{
    if str_contains(lower, "up") || str_contains(lower, "running") {
        ContainerStatus::Running
    } else if str_contains(lower, "exited") {
        ContainerStatus::Stopped
    } else if str_contains(lower, "paused") {
        ContainerStatus::Paused
    } else if str_contains(lower, "restarting") {
        ContainerStatus::Restarting
    } else if str_contains(lower, "created") {
        ContainerStatus::Starting
    } else if str_contains(lower, "dead") {
        ContainerStatus::Dead
    } else {
        ContainerStatus::Unknown
    }
}

fn docker_gpu_args_exec() -> (r: Vec<String>)
    ensures
        views(r@) == docker_gpu_args(),
{
    let v: Vec<String> = vec!["--gpus".to_owned(), "all".to_owned()];
    assert(views(v@) =~= docker_gpu_args());
    v
}

impl DockerRuntime {
    pub closed spec fn available_view(self) -> bool {
        self.available
    }

    pub closed spec fn version_view(self) -> Option<Seq<char>> {
        opt_view(self.version)
    }

    /// Docker as the host shows it: `installed` is whether `docker --version`
    /// succeeded, `version_output` what it printed; the version is that
    /// output, trimmed.
    pub fn new(installed: bool, version_output: Option<String>) -> (r: Self)
        ensures
            r.available_view() == installed,
            r.version_view() == (if installed {
                match version_output {
                    Some(o) => Some(trim(o@)),
                    None => None,
                }
            } else {
                None
            }),
    {
        let version = if installed {
            match version_output {
                Some(o) => Some(trim_str(o.as_str())),
                None => None,
            }
        } else {
            None
        };
        DockerRuntime { available: installed, version }
    }

    pub fn is_available(&self) -> (r: bool)
        ensures
            r == self.available_view(),
    {
        self.available
    }

    pub fn name(&self) -> (r: &str)
        ensures
            r@ == "Docker"@,
    {
        "Docker"
    }

    /// The program that runs Docker's calls.
    pub fn program(&self) -> (r: &str)
        ensures
            r@ == "docker"@,
    {
        "docker"
    }

    /// The version, when known.
    pub fn version(&self) -> (r: Result<String, ContainerRuntimeError>)
        ensures
            match self.version_view() {
                Some(v) => r matches Ok(s) && s@ == v,
                None => r matches Err(ContainerRuntimeError::RuntimeNotAvailable(m)) && m@ == "Docker version unknown"@,
            },
    {
        match clone_opt(&self.version) {
            Some(v) => Ok(v),
            None => Err(ContainerRuntimeError::RuntimeNotAvailable("Docker version unknown".to_owned())),
        }
    }

    /// The arguments of `docker run` for `config`.
    pub fn build_docker_args(&self, name: Option<&str>, config: &ContainerConfig) -> (r: Vec<String>)
        ensures
            views(r@) == run_args_of(
                match name {
                    Some(n) => Some(n@),
                    None => None,
                },
                *config,
                docker_gpu_args(),
            ),
    {
        run_args(name, config, &docker_gpu_args_exec())
    }

    /// The arguments of `docker run` for `image` with `config`, or
    /// `RuntimeNotAvailable` when Docker is not installed.
    pub fn run_container_args(&self, image: &str, name: Option<&str>, config: &ContainerConfig) -> (r: Result<
        Vec<String>,
        ContainerRuntimeError,
    >)
        ensures
            !self.available_view() ==> (r matches Err(ContainerRuntimeError::RuntimeNotAvailable(m)) && m@
                == "Docker is not installed"@),
            self.available_view() ==> (r matches Ok(a) && views(a@) == run_args_of(
                match name {
                    Some(n) => Some(n@),
                    None => None,
                },
                *config,
                docker_gpu_args(),
            ).drop_last().push(image@)),
    {
        if !self.available {
            return Err(ContainerRuntimeError::RuntimeNotAvailable("Docker is not installed".to_owned()));
        }
        let mut a = self.build_docker_args(name, config);
        let ghost a0 = views(a@);
        a.pop();
        a.push(image.to_owned());
        assert(views(a@) =~= a0.drop_last().push(image@));
        Ok(a)
    }

    /// The status a Docker status text shows, read after lower-casing it.
    pub fn parse_status(status_str: &str) -> (r: ContainerStatus)
        ensures
            r == docker_status_of_lower(lowercase_of(status_str@)),
    {
        let lower = to_lowercase(status_str);
        docker_status_from_lowercase(lower.as_str())
    }

    /// A `docker ps` line in `ID|NAME|IMAGE|STATUS` form, read into a record.
    pub fn parse_docker_ps_line(&self, line: &str) -> (r: Option<ContainerInfo>)
        ensures
            match docker_row(line@) {
                Some(row) => r matches Some(i) && info_from_row(i, row),
                None => r is None,
            },
    {
        let parts = split_exec(line, '|');
        if parts.len() < 4 {
            return None;
        }
        let status = Self::parse_status(parts[3].as_str());
        Some(info_of(parts[0].clone(), parts[1].clone(), parts[2].clone(), status))
    }

    /// The arguments of `docker ps` (see `docker_list_args_of`).
    pub fn list_containers_args(&self, all: bool) -> (r: Vec<String>)
        ensures
            views(r@) == docker_list_args_of(all),
    {
        let mut v: Vec<String> = vec!["ps".to_owned(), "--format".to_owned(), "{{.ID}}|{{.Names}}|{{.Image}}|{{.Status}}".to_owned()];
        let ghost v0 = views(v@);
        if all {
            v.push("-a".to_owned());
        }
        assert(views(v@) =~= docker_list_args_of(all));
        v
    }

    /// The outcome of `docker ps`: the containers of its lines; a call that
    /// failed lists none.
    pub fn list_containers_outcome(&self, out: Result<CommandOutput, String>) -> (r: Result<
        Vec<ContainerInfo>,
        ContainerRuntimeError,
    >)
        ensures
            match out {
                Err(e) => r matches Err(ContainerRuntimeError::Other(m)) && m@ == exec_failure("docker ps"@, e@),
                Ok(o) => if o.success {
                    r matches Ok(v) && infos_from_rows(v@, rows_of(lines(o.stdout@), |l: Seq<char>| docker_row(l)))
                } else {
                    r matches Ok(v) && v@.len() == 0
                },
            },
    {
        match out {
            Err(e) => Err(ContainerRuntimeError::Other(exec_failure_text("docker ps", e.as_str()))),
            Ok(o) => {
                if !o.success {
                    return Ok(Vec::new());
                }
                let ls = lines_exec(o.stdout.as_str());
                let ghost lv = views(ls@);
                let ghost f = |l: Seq<char>| docker_row(l);
                let mut v: Vec<ContainerInfo> = Vec::new();
                let mut i: usize = 0;
                while i < ls.len()
                    invariant
                        lv == views(ls@),
                        forall|l: Seq<char>| #[trigger] f(l) == docker_row(l),
                        i <= ls.len(),
                        infos_from_rows(v@, rows_of(lv.take(i as int), f)),
                    decreases ls.len() - i,
                {
                    let ghost v0 = v@;
                    let ghost rs0 = rows_of(lv.take(i as int), f);
                    assert(lv.take(i + 1).drop_last() =~= lv.take(i as int));
                    assert(lv.take(i + 1).last() == ls@[i as int]@);
                    let ghost rs1 = rows_of(lv.take(i + 1), f);
                    assert(rs1 == rs0 + match f(ls@[i as int]@) {
                        Some(r) => seq![r],
                        None => Seq::<PsRow>::empty(),
                    });
                    assert(f(ls@[i as int]@) == docker_row(ls@[i as int]@));
                    match self.parse_docker_ps_line(ls[i].as_str()) {
                        Some(info) => {
                            v.push(info);
                            assert(rs1 =~= rs0.push(docker_row(ls@[i as int]@)->0));
                            assert forall|k: int| 0 <= k < rs1.len() implies info_from_row(#[trigger] v@[k], rs1[k]) by {
                                if k < v0.len() {
                                    assert(v@[k] == v0[k]);
                                }
                            }
                        },
                        None => {
                            assert(rs1 =~= rs0);
                        },
                    }
                    i += 1;
                }
                assert(lv.take(ls.len() as int) =~= lv);
                Ok(v)
            },
        }
    }

    /// Docker's inspect: the first container, in a listing of all
    /// containers, whose id or name is `id_or_name`.
    pub fn inspect_container_outcome(&self, id_or_name: &str, listed: Result<Vec<ContainerInfo>, ContainerRuntimeError>) -> (r: Result<
        ContainerInfo,
        ContainerRuntimeError,
    >)
        ensures
            listed matches Err(e) ==> r == Err::<ContainerInfo, ContainerRuntimeError>(e),
            listed matches Ok(v) ==> first_known(v@, id_or_name@, r),
    {
        let ghost lst = listed;
        let mut v = match listed {
            Err(e) => return Err(e),
            Ok(v) => v,
        };
        let ghost v0 = v@;
        assert(lst->Ok_0@ == v0);
        let mut i: usize = 0;
        while i < v.len()
            invariant
                v@ == v0,
                lst->Ok_0@ == v0,
                lst == listed,
                lst is Ok,
                i <= v.len(),
                forall|j: int| 0 <= j < i ==> !#[trigger] known_as(v@[j], id_or_name@),
            decreases v.len() - i,
        {
            let by_id = str_eq(v[i].id.as_str(), id_or_name);
            let by_name = str_eq(v[i].name.as_str(), id_or_name);
            if by_id || by_name {
                assert(forall|j: int| 0 <= j < i ==> !#[trigger] known_as(lst->Ok_0@[j], id_or_name@));
                let found = v.remove(i);
                assert(known_as(v0[i as int], id_or_name@));
                assert(found == lst->Ok_0@[i as int]);
                let r = Ok(found);
                assert(0 <= i < lst->Ok_0@.len() && r == Ok::<ContainerInfo, ContainerRuntimeError>(lst->Ok_0@[i as int])
                    && known_as(lst->Ok_0@[i as int], id_or_name@) && forall|j: int|
                    0 <= j < i ==> !#[trigger] known_as(lst->Ok_0@[j], id_or_name@));
                return r;
            }
            assert(!known_as(v0[i as int], id_or_name@));
            i += 1;
        }
        Err(ContainerRuntimeError::ContainerNotFound(id_or_name.to_owned()))
    }
}

/// `r` is the first of `v` that goes by `id_or_name`, or `ContainerNotFound`
/// when none does.
pub open spec fn first_known(v: Seq<ContainerInfo>, id_or_name: Seq<char>, r: Result<ContainerInfo, ContainerRuntimeError>) -> bool {
    if exists|k: int| 0 <= k < v.len() && #[trigger] known_as(v[k], id_or_name) {
        exists|k: int|
            0 <= k < v.len() && r == Ok::<ContainerInfo, ContainerRuntimeError>(#[trigger] v[k])
                && known_as(v[k], id_or_name) && forall|j: int|
                0 <= j < k ==> !#[trigger] known_as(v[j], id_or_name)
    } else {
        r matches Err(ContainerRuntimeError::ContainerNotFound(m)) && m@ == id_or_name
    }
}

/// The container goes by `id_or_name`: its id or its name.
pub open spec fn known_as(c: ContainerInfo, id_or_name: Seq<char>) -> bool {
    c.id@ == id_or_name || c.name@ == id_or_name
}

} // verus!

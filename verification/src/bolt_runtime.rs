//! The Bolt container runtime: the arguments of its command-line calls and
//! what their output means.
use vstd::prelude::*;
use crate::container_runtime::{
    after_first, info_from_row, info_of, infos_from_rows, rows_of, run_args, run_args_of, ContainerConfig,
    ContainerInfo, ContainerRuntimeError, ContainerStatus, CommandOutput, PsRow, exec_failure,
    exec_failure_text,
};
use crate::gpu_passthrough::{clone_opt, opt_view};
use crate::text::{
    contains, lines, lines_exec, lowercase_of, str_contains, str_eq, to_lowercase, trim, trim_str,
    views, words, words_exec,
};

verus! {

/// Bolt, as found on the host: whether it is installed, and its version.
pub struct BoltRuntime {
    available: bool,
    version: Option<String>,
}

/// The status that an already lower-cased Bolt status word shows.
pub open spec fn bolt_status_of_lower(l: Seq<char>) -> ContainerStatus {
    if contains(l, "running"@) || l == "up"@ {
        ContainerStatus::Running
    } else if contains(l, "exited"@) || contains(l, "stopped"@) {
        ContainerStatus::Stopped
    } else if contains(l, "paused"@) {
        ContainerStatus::Paused
    } else if contains(l, "restarting"@) {
        ContainerStatus::Restarting
    } else if contains(l, "starting"@) || contains(l, "created"@) {
        ContainerStatus::Starting
    } else if contains(l, "dead"@) {
        ContainerStatus::Dead
    } else {
        ContainerStatus::Unknown
    }
}

/// The row a `bolt ps` line shows: its first four words, when it has them.
pub open spec fn bolt_row(line: Seq<char>) -> Option<PsRow> {
    let w = words(line);
    if w.len() < 4 {
        None
    } else {
        Some((w[0], w[1], w[2], bolt_status_of_lower(lowercase_of(w[3]))))
    }
}

/// The GPU flags of `bolt run`: all GPUs, through nvbind.
pub open spec fn bolt_gpu_args() -> Seq<Seq<char>> {
    seq!["--gpu"@, "all"@, "--gpu-runtime"@, "nvbind"@]
}

/// What `bolt inspect` reports, read from its JSON output; `created` is a
/// Unix time in seconds.
#[derive(Debug, Clone)]
pub struct BoltInspectData {
    pub id: String,
    pub name: String,
    pub image: String,
    pub status: String,
    pub created: Option<i64>,
    pub network: Option<String>,
    pub pid: Option<u32>,
    pub ip_address: Option<String>,
}

/// The status an already lower-cased Bolt status word shows.
pub fn bolt_status_from_lowercase(lower: &str) -> (r: ContainerStatus)
    ensures
        r == bolt_status_of_lower(lower@),
{
    if str_contains(lower, "running") || str_eq(lower, "up") {
        ContainerStatus::Running
    } else if str_contains(lower, "exited") || str_contains(lower, "stopped") {
        ContainerStatus::Stopped
    } else if str_contains(lower, "paused") {
        ContainerStatus::Paused
    } else if str_contains(lower, "restarting") {
        ContainerStatus::Restarting
    } else if str_contains(lower, "starting") || str_contains(lower, "created") {
        ContainerStatus::Starting
    } else if str_contains(lower, "dead") {
        ContainerStatus::Dead
    } else {
        ContainerStatus::Unknown
    }
}

fn bolt_gpu_args_exec() -> (r: Vec<String>)
    ensures
        views(r@) == bolt_gpu_args(),
{
    let v: Vec<String> = vec!["--gpu".to_owned(), "all".to_owned(), "--gpu-runtime".to_owned(), "nvbind".to_owned()];
    assert(views(v@) =~= bolt_gpu_args());
    v
}

impl BoltRuntime {
    pub closed spec fn available_view(self) -> bool {
        self.available
    }

    pub closed spec fn version_view(self) -> Option<Seq<char>> {
        opt_view(self.version)
    }

    /// Bolt as the host shows it: `installed` is whether `bolt --version`
    /// succeeded, `version_output` what it printed; the version is that
    /// output, trimmed.
    pub fn new(installed: bool, version_output: Option<String>) -> (r: Self)
        ensures
            r.available_view() == installed,
            r.version_view() == (if installed {
                match version_output {
                    Some(o) => Some(trim(o@)),
                    None => None,
                }
            } else {
                None
            }),
    {
        let version = if installed {
            match version_output {
                Some(o) => Some(trim_str(o.as_str())),
                None => None,
            }
        } else {
            None
        };
        BoltRuntime { available: installed, version }
    }

    pub fn is_available(&self) -> (r: bool)
        ensures
            r == self.available_view(),
    {
        self.available
    }

    pub fn name(&self) -> (r: &str)
        ensures
            r@ == "Bolt"@,
    {
        "Bolt"
    }

    /// The program that runs Bolt's calls.
    pub fn program(&self) -> (r: &str)
        ensures
            r@ == "bolt"@,
    {
        "bolt"
    }

    /// The version, when known.
    pub fn version(&self) -> (r: Result<String, ContainerRuntimeError>)
        ensures
            match self.version_view() {
                Some(v) => r matches Ok(s) && s@ == v,
                None => r matches Err(ContainerRuntimeError::RuntimeNotAvailable(m)) && m@ == "Bolt version unknown"@,
            },
    {
        match clone_opt(&self.version) {
            Some(v) => Ok(v),
            None => Err(ContainerRuntimeError::RuntimeNotAvailable("Bolt version unknown".to_owned())),
        }
    }

    /// The arguments of `bolt run` for `config`.
    pub fn build_bolt_args(&self, name: Option<&str>, config: &ContainerConfig) -> (r: Vec<String>)
        ensures
            views(r@) == run_args_of(
                match name {
                    Some(n) => Some(n@),
                    None => None,
                },
                *config,
                bolt_gpu_args(),
            ),
    {
        run_args(name, config, &bolt_gpu_args_exec())
    }

    /// The arguments of `bolt run` for `image` with `config`, or
    /// `RuntimeNotAvailable` when Bolt is not installed.
    pub fn run_container_args(&self, image: &str, name: Option<&str>, config: &ContainerConfig) -> (r: Result<
        Vec<String>,
        ContainerRuntimeError,
    >)
        ensures
            !self.available_view() ==> (r matches Err(ContainerRuntimeError::RuntimeNotAvailable(m)) && m@
                == "Bolt is not installed"@),
            self.available_view() ==> (r matches Ok(a) && views(a@) == run_args_of(
                match name {
                    Some(n) => Some(n@),
                    None => None,
                },
                *config,
                bolt_gpu_args(),
            ).drop_last().push(image@)),
    {
        if !self.available {
            return Err(ContainerRuntimeError::RuntimeNotAvailable("Bolt is not installed".to_owned()));
        }
        let mut a = self.build_bolt_args(name, config);
        let ghost a0 = views(a@);
        a.pop();
        a.push(image.to_owned());
        assert(views(a@) =~= a0.drop_last().push(image@));
        Ok(a)
    }

    /// The status a Bolt status word shows, read after lower-casing it.
    pub fn parse_status(status_str: &str) -> (r: ContainerStatus)
        ensures
            r == bolt_status_of_lower(lowercase_of(status_str@)),
    {
        let lower = to_lowercase(status_str);
        bolt_status_from_lowercase(lower.as_str())
    }

    /// A `bolt ps` line (id, name, image, status, ...), read into a record.
    pub fn parse_bolt_ps_line(&self, line: &str) -> (r: Option<ContainerInfo>)
        ensures
            match bolt_row(line@) {
                Some(row) => r matches Some(i) && info_from_row(i, row),
                None => r is None,
            },
    {
        let parts = words_exec(line);
        if parts.len() < 4 {
            return None;
        }
        let status = Self::parse_status(parts[3].as_str());
        Some(info_of(parts[0].clone(), parts[1].clone(), parts[2].clone(), status))
    }

    /// The arguments of `bolt ps`: `ps`, and `-a` to list stopped containers too.
    pub fn list_containers_args(&self, all: bool) -> (r: Vec<String>)
        ensures
            views(r@) == seq!["ps"@] + (if all {
                seq!["-a"@]
            } else {
                Seq::<Seq<char>>::empty()
            }),
    {
        let mut v: Vec<String> = Vec::new();
        v.push("ps".to_owned());
        if all {
            v.push("-a".to_owned());
        }
        assert(views(v@) =~= seq!["ps"@] + (if all {
            seq!["-a"@]
        } else {
            Seq::<Seq<char>>::empty()
        }));
        v
    }

    /// The outcome of `bolt ps`: the containers of the lines after the
    /// header; a call that failed lists none.
    pub fn list_containers_outcome(&self, out: Result<CommandOutput, String>) -> (r: Result<
        Vec<ContainerInfo>,
        ContainerRuntimeError,
    >)
        ensures
            match out {
                Err(e) => r matches Err(ContainerRuntimeError::Other(m)) && m@ == exec_failure("bolt ps"@, e@),
                Ok(o) => if o.success {
                    r matches Ok(v) && infos_from_rows(v@, rows_of(after_first(lines(o.stdout@)), |l: Seq<char>| bolt_row(l)))
                } else {
                    r matches Ok(v) && v@.len() == 0
                },
            },
    {
        match out {
            Err(e) => Err(ContainerRuntimeError::Other(exec_failure_text("bolt ps", e.as_str()))),
            Ok(o) => {
                if !o.success {
                    return Ok(Vec::new());
                }
                let ls = lines_exec(o.stdout.as_str());
                let ghost lv = views(ls@);
                let ghost f = |l: Seq<char>| bolt_row(l);
                let mut v: Vec<ContainerInfo> = Vec::new();
                let mut i: usize = 1;
                if ls.len() == 0 {
                    return Ok(v);
                }
                assert(lv.subrange(1, 1) =~= Seq::<Seq<char>>::empty());
                while i < ls.len()
                    invariant
                        lv == views(ls@),
                        forall|l: Seq<char>| #[trigger] f(l) == bolt_row(l),
                        1 <= i <= ls.len(),
                        infos_from_rows(v@, rows_of(lv.subrange(1, i as int), f)),
                    decreases ls.len() - i,
                {
                    let ghost v0 = v@;
                    let ghost rs0 = rows_of(lv.subrange(1, i as int), f);
                    assert(lv.subrange(1, i + 1).drop_last() =~= lv.subrange(1, i as int));
                    assert(lv.subrange(1, i + 1).last() == ls@[i as int]@);
                    let ghost rs1 = rows_of(lv.subrange(1, i + 1), f);
                    assert(rs1 == rs0 + match f(ls@[i as int]@) {
                        Some(r) => seq![r],
                        None => Seq::<PsRow>::empty(),
                    });
                    assert(f(ls@[i as int]@) == bolt_row(ls@[i as int]@));
                    match self.parse_bolt_ps_line(ls[i].as_str()) {
                        Some(info) => {
                            v.push(info);
                            assert(rs1 =~= rs0.push(bolt_row(ls@[i as int]@)->0));
                            assert forall|k: int| 0 <= k < rs1.len() implies info_from_row(#[trigger] v@[k], rs1[k]) by {
                                if k < v0.len() {
                                    assert(v@[k] == v0[k]);
                                }
                            }
                        },
                        None => {
                            assert(rs1 =~= rs0);
                        },
                    }
                    i += 1;
                }
                assert(lv.subrange(1, ls.len() as int) =~= after_first(lv));
                Ok(v)
            },
        }
    }

    /// The outcome of `bolt inspect <id>`: a failed call means the container
    /// was not found; otherwise `parsed` is its JSON output read (or the
    /// reason it could not be), and a missing creation time reads as now.
    pub fn inspect_container_outcome(
        &self,
        id_or_name: &str,
        out: Result<CommandOutput, String>,
        parsed: Result<BoltInspectData, String>,
    ) -> (r: Result<ContainerInfo, ContainerRuntimeError>)
        ensures
            match out {
                Err(e) => r matches Err(ContainerRuntimeError::Other(m)) && m@ == exec_failure("bolt inspect"@, e@),
                Ok(o) => if !o.success {
                    r matches Err(ContainerRuntimeError::ContainerNotFound(m)) && m@ == id_or_name@
                } else {
                    match parsed {
                        Err(msg) => r matches Err(ContainerRuntimeError::Serialization(m)) && m@ == msg@,
                        Ok(d) => r matches Ok(i) && i.id == d.id && i.name == d.name && i.image == d.image
                            && i.status == bolt_status_of_lower(lowercase_of(d.status@))
                            && (d.created matches Some(t) ==> i.created == t) && i.ports@.len() == 0
                            && i.network == d.network && i.pid == d.pid && i.ip_address == d.ip_address,
                    }
                },
            },
    {
        match out {
            Err(e) => Err(ContainerRuntimeError::Other(exec_failure_text("bolt inspect", e.as_str()))),
            Ok(o) => {
                if !o.success {
                    return Err(ContainerRuntimeError::ContainerNotFound(id_or_name.to_owned()));
                }
                match parsed {
                    Err(msg) => Err(ContainerRuntimeError::Serialization(msg)),
                    Ok(d) => {
                        let status = Self::parse_status(d.status.as_str());
                        let created = match d.created {
                            Some(t) => t,
                            None => crate::ids::now_timestamp(),
                        };
                        Ok(
                            ContainerInfo {
                                id: d.id,
                                name: d.name,
                                image: d.image,
                                status,
                                created,
                                ports: Vec::new(),
                                network: d.network,
                                pid: d.pid,
                                ip_address: d.ip_address,
                            },
                        )
                    },
                }
            },
        }
    }

    /// The outcome of `bolt images`: no images are read from it.
    pub fn list_images_outcome(&self, out: Result<CommandOutput, String>) -> (r: Result<
        Vec<crate::container_runtime::ImageInfo>,
        ContainerRuntimeError,
    >)
        ensures
            match out {
                Err(e) => r matches Err(ContainerRuntimeError::Other(m)) && m@ == exec_failure("bolt images"@, e@),
                Ok(_) => r matches Ok(v) && v@.len() == 0,
            },
    {
        match out {
            Err(e) => Err(ContainerRuntimeError::Other(exec_failure_text("bolt images", e.as_str()))),
            Ok(_) => Ok(Vec::new()),
        }
    }
}

} // verus!

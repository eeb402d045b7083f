use nova::bolt_runtime::BoltRuntime;
use nova::config::ContainerConfig as NovaContainerConfig;
use nova::container::{instance_status, ContainerManager};
use nova::container_runtime::{
    logs_args, plain_outcome, remove_args, run_outcome, stop_outcome, CommandOutput,
    ContainerConfig, ContainerInfo, ContainerRuntimeError, ContainerStatus, RestartPolicy,
};
use nova::docker_runtime::DockerRuntime;
use nova::instance::{InstanceStatus, InstanceType};
use nova::NovaError;

fn ok(stdout: &str) -> Result<CommandOutput, String> {
    Ok(CommandOutput { success: true, stdout: stdout.to_string(), stderr: String::new() })
}

fn failed(stderr: &str) -> Result<CommandOutput, String> {
    Ok(CommandOutput { success: false, stdout: String::new(), stderr: stderr.to_string() })
}

fn full_config() -> ContainerConfig {
    ContainerConfig {
        capsule: "nginx".to_string(),
        ports: vec!["8080:80".to_string()],
        volumes: vec!["/data:/data".to_string()],
        env: vec![("A".to_string(), "1".to_string())],
        network: Some("net".to_string()),
        gpu_passthrough: true,
        memory_mb: Some(512),
        cpus: Some(2),
        restart_policy: RestartPolicy::Always,
        detach: true,
    }
}

#[test]
fn bolt_run_arguments() {
    let bolt = BoltRuntime::new(true, Some("bolt 0.5.0\n".to_string()));
    assert_eq!(bolt.version(), Ok("bolt 0.5.0".to_string()));
    assert_eq!(
        bolt.build_bolt_args(Some("web"), &full_config()),
        vec![
            "run", "--name", "web", "-d", "-p", "8080:80", "-v", "/data:/data", "-e", "A=1",
            "--network", "net", "--gpu", "all", "--gpu-runtime", "nvbind", "--memory", "512m",
            "--cpus", "2", "--restart", "always", "nginx"
        ]
    );
}

#[test]
fn docker_run_arguments_and_image() {
    let docker = DockerRuntime::new(true, None);
    let mut cfg = ContainerConfig::default();
    cfg.restart_policy = RestartPolicy::OnFailure;
    cfg.gpu_passthrough = true;
    assert_eq!(
        docker.run_container_args("redis:7", None, &cfg),
        Ok(vec!["run".to_string(), "-d".into(), "--gpus".into(), "all".into(), "--restart".into(), "on-failure".into(), "redis:7".into()])
    );
    assert_eq!(
        docker.version(),
        Err(ContainerRuntimeError::RuntimeNotAvailable("Docker version unknown".to_string()))
    );
}

#[test]
fn missing_runtime_refuses_to_run() {
    let bolt = BoltRuntime::new(false, Some("ignored".to_string()));
    assert!(!bolt.is_available());
    assert_eq!(
        bolt.run_container_args("nginx", None, &ContainerConfig::default()),
        Err(ContainerRuntimeError::RuntimeNotAvailable("Bolt is not installed".to_string()))
    );
}

#[test]
fn status_words_are_read_case_insensitively() {
    assert_eq!(BoltRuntime::parse_status("Running"), ContainerStatus::Running);
    assert_eq!(BoltRuntime::parse_status("UP"), ContainerStatus::Running);
    assert_eq!(BoltRuntime::parse_status("Exited"), ContainerStatus::Stopped);
    assert_eq!(BoltRuntime::parse_status("created"), ContainerStatus::Starting);
    assert_eq!(BoltRuntime::parse_status("odd"), ContainerStatus::Unknown);
    assert_eq!(DockerRuntime::parse_status("Up 5 minutes"), ContainerStatus::Running);
    assert_eq!(DockerRuntime::parse_status("Exited (0) 2 hours ago"), ContainerStatus::Stopped);
    assert_eq!(DockerRuntime::parse_status("Created"), ContainerStatus::Starting);
    assert_eq!(DockerRuntime::parse_status("Dead"), ContainerStatus::Dead);
}

#[test]
fn ps_lines_are_read() {
    let bolt = BoltRuntime::new(true, None);
    let info = bolt.parse_bolt_ps_line("abc123 web nginx running 80/tcp").unwrap();
    assert_eq!((info.id.as_str(), info.name.as_str(), info.image.as_str()), ("abc123", "web", "nginx"));
    assert_eq!(info.status, ContainerStatus::Running);
    assert!(bolt.parse_bolt_ps_line("abc web nginx").is_none());
    let listed = bolt
        .list_containers_outcome(ok("ID NAME IMAGE STATUS\nabc web nginx running\nshort\nxyz db postgres exited\n"))
        .unwrap();
    let names: Vec<&str> = listed.iter().map(|c| c.name.as_str()).collect();
    assert_eq!(names, vec!["web", "db"]);
    assert_eq!(listed[1].status, ContainerStatus::Stopped);
    assert!(bolt.list_containers_outcome(failed("boom")).unwrap().is_empty());
    assert_eq!(
        bolt.list_containers_outcome(Err("not found".to_string())).unwrap_err(),
        ContainerRuntimeError::Other("Failed to execute bolt ps: not found".to_string())
    );
    let docker = DockerRuntime::new(true, None);
    let d = docker.list_containers_outcome(ok("1|web|nginx|Up 2 hours\nbad|line\n")).unwrap();
    assert_eq!(d.len(), 1);
    assert_eq!(d[0].status, ContainerStatus::Running);
    assert_eq!(
        docker.list_containers_args(true),
        vec!["ps", "--format", "{{.ID}}|{{.Names}}|{{.Image}}|{{.Status}}", "-a"]
    );
}

#[test]
fn docker_inspect_finds_by_id_or_name() {
    let docker = DockerRuntime::new(true, None);
    let listed = docker.list_containers_outcome(ok("1|web|nginx|Up\n2|db|pg|Exited\n")).unwrap();
    let found = docker.inspect_container_outcome("db", Ok(listed.clone())).unwrap();
    assert_eq!(found.id, "2");
    let by_id = docker.inspect_container_outcome("1", Ok(listed.clone())).unwrap();
    assert_eq!(by_id.name, "web");
    assert_eq!(
        docker.inspect_container_outcome("cache", Ok(listed)).unwrap_err(),
        ContainerRuntimeError::ContainerNotFound("cache".to_string())
    );
}

#[test]
fn command_outcomes() {
    assert_eq!(run_outcome("bolt", ok("  id42\n")), Ok("id42".to_string()));
    assert_eq!(
        run_outcome("docker", failed("no such image")),
        Err(ContainerRuntimeError::StartFailed("no such image".to_string()))
    );
    assert_eq!(
        run_outcome("docker", Err("denied".to_string())),
        Err(ContainerRuntimeError::StartFailed("Failed to execute docker: denied".to_string()))
    );
    assert_eq!(
        stop_outcome("bolt stop", failed("x")),
        Err(ContainerRuntimeError::StopFailed("x".to_string()))
    );
    assert_eq!(plain_outcome("bolt rm", ok("")), Ok(()));
    assert_eq!(remove_args("web", true), vec!["rm", "-f", "web"]);
    assert_eq!(logs_args("web", 50), vec!["logs", "--tail", "50", "web"]);
    assert_eq!(
        ContainerRuntimeError::GpuError("no gpu".to_string()).message(),
        "GPU configuration error: no gpu"
    );
}

#[test]
fn manager_picks_bolt_then_docker() {
    let m = ContainerManager::new(BoltRuntime::new(true, None), DockerRuntime::new(true, None));
    assert_eq!(m.get_runtime_name(), "Bolt");
    let m = ContainerManager::new(BoltRuntime::new(false, None), DockerRuntime::new(true, None));
    assert_eq!(m.get_runtime_name(), "Docker");
    assert_eq!(m.program(), "docker");
    let m = ContainerManager::new(BoltRuntime::new(false, None), DockerRuntime::new(false, None));
    assert_eq!(m.check_container_runtime(), "None");
    assert_eq!(m.start_container_args("x", None), Err(NovaError::SystemCommandFailed));
    assert_eq!(m.start_container("x", None, ok("")), Err(NovaError::SystemCommandFailed));
}

#[test]
fn manager_starts_with_defaults_or_configuration() {
    let m = ContainerManager::new(BoltRuntime::new(false, None), DockerRuntime::new(true, None));
    assert_eq!(
        m.start_container_args("api", None),
        Ok(vec!["run".to_string(), "--name".into(), "api".into(), "-d".into(), "ubuntu:latest".into()])
    );
    let mut cfg = NovaContainerConfig::default();
    cfg.capsule = Some("alpine".to_string());
    cfg.volumes = vec!["/a:/b".to_string()];
    cfg.network = Some("lan".to_string());
    assert_eq!(
        m.start_container_args("api", Some(&cfg)),
        Ok(vec![
            "run".to_string(), "--name".into(), "api".into(), "-d".into(), "-v".into(), "/a:/b".into(),
            "--network".into(), "lan".into(), "alpine".into()
        ])
    );
    assert_eq!(m.start_container("api", Some(&cfg), ok("id\n")), Ok(()));
    assert_eq!(m.start_container("api", Some(&cfg), failed("bad")), Err(NovaError::SystemCommandFailed));
}

#[test]
fn listed_containers_become_instances() {
    let m = ContainerManager::new(BoltRuntime::new(true, None), DockerRuntime::new(false, None));
    let instances = m.list_containers_async(ok("HEADER\nabc web nginx paused\ndef job busybox dead\n"));
    assert_eq!(instances.len(), 2);
    assert_eq!(instances[0].name, "web");
    assert_eq!(instances[0].status, InstanceStatus::Suspended);
    assert_eq!(instances[0].instance_type, InstanceType::Container);
    assert_eq!(instances[1].status, InstanceStatus::Error);
    assert!(m.list_containers_async(Err("gone".to_string())).is_empty());
}

#[test]
fn inspected_container_status_and_errors() {
    let m = ContainerManager::new(BoltRuntime::new(true, None), DockerRuntime::new(false, None));
    let info = ContainerInfo {
        id: "1".to_string(),
        name: "web".to_string(),
        image: "nginx".to_string(),
        status: ContainerStatus::Restarting,
        created: 0,
        ports: vec![],
        network: Some("lan".to_string()),
        pid: Some(42),
        ip_address: None,
    };
    assert_eq!(m.get_container_status("web", Ok(info.clone())), Ok(InstanceStatus::Starting));
    let inst = m.get_container("web", Ok(info)).unwrap();
    assert_eq!(inst.pid, Some(42));
    assert_eq!(inst.network, Some("lan".to_string()));
    assert_eq!(
        m.inspect_container("web", Err(ContainerRuntimeError::Other("x".to_string()))).unwrap_err(),
        NovaError::ContainerNotFound("web".to_string())
    );
    assert_eq!(instance_status(ContainerStatus::Unknown), InstanceStatus::Error);
    assert_eq!(m.get_container_logs("web", 2, ok("a\nb\n")), Ok(vec!["a".to_string(), "b".to_string()]));
    assert_eq!(m.get_container_logs("web", 2, failed("")), Err(NovaError::SystemCommandFailed));
}

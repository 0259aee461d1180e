use davy::compose::compose_final_command;
use davy::errors::LaunchError;
use davy::invoke::docker_run_args;
use davy::resolve::FsNode;
use davy::settings::{
    build_runtime_settings, resolve_ssh_port, HostProbes, LaunchRequest, SocketCheck,
};
use davy::socket::SocketProbe;
use davy::{try_main, Action};

fn plain_request() -> LaunchRequest {
    LaunchRequest {
        project_dir: Some("/proj".to_owned()),
        name: Some("sandbox".to_owned()),
        with_docker_sock: false,
        docker_sock: None,
        rebuild: false,
        no_build: false,
        keep: false,
        expose_ssh: None,
        extra_env: vec![],
        pass_env: vec![],
        with_pi_auth: false,
        with_codex_auth: false,
        with_gemini_auth: false,
        with_agent_auth: false,
        auth_all: false,
        image: "davy-sandbox:latest".to_owned(),
        dockerfile: Some("/c/rocky.Dockerfile".to_owned()),
        local_dockerfile: false,
        extra_docker_args: vec![],
        cmd: vec!["echo".to_owned(), "ok".to_owned()],
    }
}

fn plain_probes() -> HostProbes {
    HostProbes {
        project_node: FsNode::Directory,
        dockerfile_exists: vec![true],
        pi_node: FsNode::Missing,
        codex_node: FsNode::Missing,
        gemini_node: FsNode::Missing,
        skills_node: FsNode::Missing,
        socket: None,
    }
}

#[test]
fn expose_ssh_defaults_to_222() {
    assert_eq!(resolve_ssh_port(None), None);
    assert_eq!(resolve_ssh_port(Some(None)), Some(222));
    assert_eq!(resolve_ssh_port(Some(Some(2022))), Some(2022));
}

#[test]
fn plain_launch_runs_the_command_untouched() {
    let s = build_runtime_settings(
        plain_request(),
        "/cwd".to_owned(),
        &"/home/u".to_owned(),
        None,
        None,
        &plain_probes(),
    )
    .unwrap();
    assert_eq!(s.project_dir, "/proj");
    assert_eq!(s.dockerfile, "/c/rocky.Dockerfile");
    assert_eq!(s.context_dir, "/c");
    assert_eq!(s.name, "sandbox");
    assert!(!s.with_agent_auth);
    assert_eq!(s.expose_ssh, None);
    assert_eq!(s.docker_sock, None);
    assert_eq!(
        s.warnings,
        vec![
            "davy: warning: agents skills mount source not found at /home/u/.agents/skills; skipping.".to_owned(),
            "davy: warning: continuing without host skills mount.".to_owned(),
        ]
    );

    let final_cmd = compose_final_command(s.cmd.clone(), s.with_agent_auth, s.expose_ssh.is_some());
    assert_eq!(final_cmd, vec!["echo".to_owned(), "ok".to_owned()]);
    let args = docker_run_args(&s, &final_cmd);
    assert_eq!(&args[args.len() - 2..], &["echo".to_owned(), "ok".to_owned()]);
    assert!(!args.contains(&"-lc".to_owned()));
    assert!(!args.contains(&"--mount".to_owned()));
}

#[test]
fn project_directory_is_checked_first() {
    let mut probes = plain_probes();
    probes.project_node = FsNode::Missing;
    probes.dockerfile_exists = vec![false];
    match build_runtime_settings(
        plain_request(),
        "/cwd".to_owned(),
        &"/home/u".to_owned(),
        None,
        None,
        &probes,
    ) {
        Err(LaunchError::Configuration(m)) => assert_eq!(m, "project dir not found: /proj"),
        other => panic!("expected a configuration error, got {:?}", label(&other)),
    }
}

#[test]
fn explicit_dockerfile_must_exist_as_a_file() {
    let mut probes = plain_probes();
    probes.dockerfile_exists = vec![false];
    match build_runtime_settings(
        plain_request(),
        "/cwd".to_owned(),
        &"/home/u".to_owned(),
        None,
        None,
        &probes,
    ) {
        Err(LaunchError::Configuration(m)) => {
            assert_eq!(m, "Dockerfile not found at: /c/rocky.Dockerfile");
        }
        other => panic!("expected a configuration error, got {:?}", label(&other)),
    }
}

#[test]
fn socket_request_resolves_path_and_group() {
    let mut req = plain_request();
    req.with_docker_sock = true;
    let mut probes = plain_probes();
    probes.socket = Some(SocketCheck { probe: SocketProbe::UnixSocket, gid: Some(986) });
    let s = build_runtime_settings(
        req,
        "/cwd".to_owned(),
        &"/home/u".to_owned(),
        None,
        Some("unix:///run/docker.sock".to_owned()),
        &probes,
    )
    .unwrap();
    assert_eq!(s.docker_sock, Some("/run/docker.sock".to_owned()));
    assert_eq!(s.docker_sock_gid, Some(986));
}

#[test]
fn environment_entries_keep_their_order() {
    let mut req = plain_request();
    req.extra_env = vec!["A=1".to_owned()];
    req.pass_env = vec![("HOME_KEY".to_owned(), "v".to_owned())];
    req.with_codex_auth = true;
    let mut probes = plain_probes();
    probes.codex_node = FsNode::Directory;
    let s = build_runtime_settings(
        req,
        "/cwd".to_owned(),
        &"/home/u".to_owned(),
        None,
        None,
        &probes,
    )
    .unwrap();
    assert_eq!(
        s.extra_env_args,
        vec![
            "-e".to_owned(),
            "A=1".to_owned(),
            "-e".to_owned(),
            "HOME_KEY=v".to_owned(),
            "-e".to_owned(),
            "CODEX_HOME=/home/dev/.codex".to_owned(),
        ]
    );
    assert_eq!(
        s.extra_docker_args,
        vec!["-v".to_owned(), "/home/u/.codex:/home/dev/.codex".to_owned()]
    );
}

#[test]
fn volume_name_override_reaches_the_settings() {
    let mut req = plain_request();
    req.with_agent_auth = true;
    let s = build_runtime_settings(
        req,
        "/cwd".to_owned(),
        &"/home/u".to_owned(),
        Some("custom-volume".to_owned()),
        None,
        &plain_probes(),
    )
    .unwrap();
    assert!(s.with_agent_auth);
    assert_eq!(s.agent_auth_volume, "custom-volume");
}

#[test]
fn reset_subcommand_dispatches_away_from_launch() {
    assert_eq!(try_main(true), Action::ResetAgentAuthVolume);
    assert_eq!(try_main(false), Action::LaunchSandbox);
}

fn label(r: &Result<davy::settings::RuntimeSettings, LaunchError>) -> &'static str {
    match r {
        Ok(_) => "settings",
        Err(_) => "error",
    }
}

use davy::errors::{command_failure, run_status_outcome, LaunchError, RunOutcome};
use davy::invoke::{
    agent_volume_name, decide_build, docker_build_args, docker_run_args, image_inspect_args,
    missing_image_error, needs_image_check, ssh_keys_env_entry, volume_create_args,
    volume_init_args, volume_inspect_args, volume_rm_args, BuildAction,
};
use davy::settings::RuntimeSettings;
use davy::textfmt::u32_to_decimal;

fn plain_settings() -> RuntimeSettings {
    RuntimeSettings {
        project_dir: "/proj".to_owned(),
        dockerfile: "/c/rocky.Dockerfile".to_owned(),
        context_dir: "/c".to_owned(),
        image: "davy-sandbox:latest".to_owned(),
        name: "davy-proj-20260102-030405".to_owned(),
        host_uid: 1000,
        host_gid: 1000,
        keep: false,
        rebuild: false,
        no_build: false,
        docker_sock: None,
        docker_sock_gid: None,
        expose_ssh: None,
        with_agent_auth: false,
        agent_auth_volume: "davy-agent-auth-1000-v1".to_owned(),
        extra_docker_args: vec![],
        extra_env_args: vec![],
        warnings: vec![],
        cmd: vec!["echo".to_owned(), "ok".to_owned()],
    }
}

#[test]
fn build_decision_covers_every_mode() {
    assert_eq!(decide_build(false, true, true), BuildAction::Skip);
    assert_eq!(decide_build(false, true, false), BuildAction::FailMissingImage);
    assert_eq!(decide_build(true, false, false), BuildAction::RebuildFull);
    assert_eq!(decide_build(true, false, true), BuildAction::RebuildFull);
    assert_eq!(decide_build(false, false, true), BuildAction::Skip);
    assert_eq!(decide_build(false, false, false), BuildAction::BuildFresh);
    assert!(needs_image_check(false, false));
    assert!(needs_image_check(true, true));
    assert!(!needs_image_check(true, false));
}

#[test]
fn missing_image_in_no_build_mode_names_the_image() {
    match missing_image_error(&"img:1".to_owned()) {
        LaunchError::Validation(m) => {
            assert_eq!(m, "image 'img:1' not found (and --no-build was set)");
        }
        other => panic!("expected a validation error, got {:?}", other),
    }
}

#[test]
fn build_args_follow_the_fixed_order() {
    let s = plain_settings();
    assert_eq!(
        docker_build_args(&s, true, true),
        vec![
            "build".to_owned(),
            "--pull".to_owned(),
            "--no-cache".to_owned(),
            "--build-arg".to_owned(),
            "USER_UID=1000".to_owned(),
            "--build-arg".to_owned(),
            "USER_GID=1000".to_owned(),
            "-f".to_owned(),
            "/c/rocky.Dockerfile".to_owned(),
            "-t".to_owned(),
            "davy-sandbox:latest".to_owned(),
            "/c".to_owned(),
        ]
    );
    assert_eq!(
        docker_build_args(&s, false, false),
        vec![
            "build".to_owned(),
            "--build-arg".to_owned(),
            "USER_UID=1000".to_owned(),
            "--build-arg".to_owned(),
            "USER_GID=1000".to_owned(),
            "-f".to_owned(),
            "/c/rocky.Dockerfile".to_owned(),
            "-t".to_owned(),
            "davy-sandbox:latest".to_owned(),
            "/c".to_owned(),
        ]
    );
}

#[test]
fn plain_run_keeps_the_trailing_command_unwrapped() {
    let s = plain_settings();
    let final_cmd = davy::compose::compose_final_command(s.cmd.clone(), false, false);
    let args = docker_run_args(&s, &final_cmd);
    assert_eq!(
        args,
        vec![
            "run".to_owned(),
            "-it".to_owned(),
            "--rm".to_owned(),
            "--name".to_owned(),
            "davy-proj-20260102-030405".to_owned(),
            "-v".to_owned(),
            "/proj:/project".to_owned(),
            "-w".to_owned(),
            "/project".to_owned(),
            "davy-sandbox:latest".to_owned(),
            "echo".to_owned(),
            "ok".to_owned(),
        ]
    );
    assert_eq!(&args[args.len() - 2..], &["echo".to_owned(), "ok".to_owned()]);
}

#[test]
fn full_run_orders_every_flag_group() {
    let mut s = plain_settings();
    s.keep = true;
    s.with_agent_auth = true;
    s.docker_sock = Some("/run/docker.sock".to_owned());
    s.docker_sock_gid = Some(986);
    s.expose_ssh = Some(2022);
    s.extra_env_args = vec!["-e".to_owned(), "A=1".to_owned()];
    s.extra_docker_args = vec!["--privileged".to_owned()];
    let final_cmd = vec!["bash".to_owned()];
    assert_eq!(
        docker_run_args(&s, &final_cmd),
        vec![
            "run".to_owned(),
            "-it".to_owned(),
            "--name".to_owned(),
            "davy-proj-20260102-030405".to_owned(),
            "-v".to_owned(),
            "/proj:/project".to_owned(),
            "-w".to_owned(),
            "/project".to_owned(),
            "--mount".to_owned(),
            "type=volume,src=davy-agent-auth-1000-v1,dst=/home/dev/.agent-auth".to_owned(),
            "-v".to_owned(),
            "/run/docker.sock:/var/run/docker.sock".to_owned(),
            "--group-add".to_owned(),
            "986".to_owned(),
            "-p".to_owned(),
            "2022:22".to_owned(),
            "-e".to_owned(),
            "A=1".to_owned(),
            "--privileged".to_owned(),
            "davy-sandbox:latest".to_owned(),
            "bash".to_owned(),
        ]
    );
}

#[test]
fn volume_lifecycle_invocations_are_exact() {
    let v = "davy-agent-auth-1000-v1".to_owned();
    assert_eq!(
        volume_create_args(&v),
        vec!["volume".to_owned(), "create".to_owned(), v.clone()]
    );
    assert_eq!(
        volume_inspect_args(&v),
        vec!["volume".to_owned(), "inspect".to_owned(), v.clone()]
    );
    assert_eq!(
        volume_rm_args(&v),
        vec!["volume".to_owned(), "rm".to_owned(), "-f".to_owned(), v.clone()]
    );
    assert_eq!(
        volume_init_args(&v, &"img".to_owned(), 1000, 984),
        vec![
            "run".to_owned(),
            "--rm".to_owned(),
            "--user".to_owned(),
            "0:0".to_owned(),
            "-v".to_owned(),
            "davy-agent-auth-1000-v1:/auth".to_owned(),
            "img".to_owned(),
            "bash".to_owned(),
            "-lc".to_owned(),
            "mkdir -p /auth/.agent && touch /auth/.agent.json && chown -R 1000:984 /auth"
                .to_owned(),
        ]
    );
    assert_eq!(
        image_inspect_args(&"img".to_owned()),
        vec!["image".to_owned(), "inspect".to_owned(), "img".to_owned()]
    );
}

#[test]
fn volume_name_uses_the_uid_unless_overridden() {
    assert_eq!(agent_volume_name(None, 1000), "davy-agent-auth-1000-v1");
    assert_eq!(agent_volume_name(Some("custom".to_owned()), 1000), "custom");
}

#[test]
fn decimal_rendering_is_exact() {
    assert_eq!(u32_to_decimal(0), "0");
    assert_eq!(u32_to_decimal(207), "207");
    assert_eq!(u32_to_decimal(u32::MAX), "4294967295");
}

#[test]
fn command_failures_carry_code_or_signal() {
    match command_failure("docker build", Some(3)) {
        LaunchError::ExternalCommand(m) => {
            assert_eq!(m, "docker build exited with status code 3");
        }
        other => panic!("expected an external-command error, got {:?}", other),
    }
    match command_failure("docker build", Some(-5)) {
        LaunchError::ExternalCommand(m) => {
            assert_eq!(m, "docker build exited with status code -5");
        }
        other => panic!("expected an external-command error, got {:?}", other),
    }
    match command_failure("docker run", None) {
        LaunchError::ExternalCommand(m) => assert_eq!(m, "docker run terminated by signal"),
        other => panic!("expected an external-command error, got {:?}", other),
    }
}

#[test]
fn exit_status_is_propagated_exactly() {
    assert_eq!(run_status_outcome(true, Some(0)), RunOutcome::Success);
    assert_eq!(run_status_outcome(false, Some(7)), RunOutcome::ExitCode(7));
    assert_eq!(run_status_outcome(false, None), RunOutcome::SignalFailure);
}

#[test]
fn ssh_env_entry_carries_the_payload() {
    assert_eq!(ssh_keys_env_entry(&"Zm9v".to_owned()), "DAVY_SSH_AUTH_KEYS_B64=Zm9v");
}

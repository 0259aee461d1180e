use davy::compose::{
    compose_final_command, container_name_at, default_container_name, format_timestamp,
    path_basename, wrap_bash_script, AGENT_LINK_SCRIPT, SSH_BOOTSTRAP_SCRIPT,
};

#[test]
fn default_name_has_prefix() {
    let name = default_container_name(&"/tmp/my-project".to_owned());
    assert!(name.starts_with("davy-my-project-"));
    assert_eq!(name.len(), "davy-my-project-YYYYMMDD-HHMMSS".len());
}

#[test]
fn wrap_script_prefixes_command() {
    let wrapped = wrap_bash_script("echo hi", vec!["bash".to_owned()]);
    let expected = vec![
        "bash".to_owned(),
        "-lc".to_owned(),
        "echo hi".to_owned(),
        "--".to_owned(),
        "bash".to_owned(),
    ];
    assert_eq!(wrapped, expected);
}

#[test]
fn timestamp_is_zero_padded() {
    assert_eq!(format_timestamp(2026, 1, 2, 3, 4, 5), "20260102-030405");
    assert_eq!(format_timestamp(987, 12, 31, 23, 59, 58), "09871231-235958");
}

#[test]
fn container_name_combines_basename_and_timestamp() {
    let name = container_name_at(&"/tmp/my-project".to_owned(), 2026, 1, 2, 3, 4, 5);
    assert_eq!(name, "davy-my-project-20260102-030405");
}

#[test]
fn basename_falls_back_to_project() {
    assert_eq!(path_basename(&"/tmp/my-project".to_owned()), "my-project");
    assert_eq!(path_basename(&"/a/b/".to_owned()), "b");
    assert_eq!(path_basename(&"plain".to_owned()), "plain");
    assert_eq!(path_basename(&"/".to_owned()), "project");
    assert_eq!(path_basename(&"".to_owned()), "project");
}

#[test]
fn empty_command_defaults_to_a_shell() {
    let cmd = compose_final_command(vec![], false, false);
    assert_eq!(cmd, vec!["bash".to_owned()]);
}

#[test]
fn unwrapped_command_passes_through() {
    let cmd = compose_final_command(vec!["echo".to_owned(), "ok".to_owned()], false, false);
    assert_eq!(cmd, vec!["echo".to_owned(), "ok".to_owned()]);
}

#[test]
fn ssh_prelude_wraps_outside_the_credential_prelude() {
    let cmd = compose_final_command(vec!["echo".to_owned(), "ok".to_owned()], true, true);
    assert_eq!(cmd[0], "bash");
    assert_eq!(cmd[1], "-lc");
    assert_eq!(cmd[2], SSH_BOOTSTRAP_SCRIPT);
    assert_eq!(cmd[3], "--");
    assert_eq!(cmd[4], "bash");
    assert_eq!(cmd[5], "-lc");
    assert_eq!(cmd[6], AGENT_LINK_SCRIPT);
    assert_eq!(cmd[7], "--");
    assert_eq!(&cmd[8..], &["echo".to_owned(), "ok".to_owned()]);
}

#[test]
fn credential_prelude_alone_wraps_once() {
    let cmd = compose_final_command(vec!["agent".to_owned()], true, false);
    assert_eq!(
        cmd,
        vec![
            "bash".to_owned(),
            "-lc".to_owned(),
            AGENT_LINK_SCRIPT.to_owned(),
            "--".to_owned(),
            "agent".to_owned(),
        ]
    );
}

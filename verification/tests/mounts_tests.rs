use davy::errors::LaunchError;
use davy::mounts::{plan_auth_mounts, plan_one_mount, MountOutcome};
use davy::resolve::FsNode;

#[test]
fn file_source_fails_regardless_of_requiredness() {
    for allow_missing in [false, true] {
        match plan_one_mount(
            "/h/.codex".to_owned(),
            "/home/dev/.codex",
            "Codex auth",
            FsNode::RegularFile,
            allow_missing,
        ) {
            Err(LaunchError::Validation(m)) => {
                assert_eq!(m, "Codex auth mount source is not a directory: /h/.codex");
            }
            other => panic!("expected a validation error, got {:?}", kind(&other)),
        }
    }
}

#[test]
fn optional_missing_source_is_skipped_with_a_warning() {
    match plan_one_mount(
        "/h/.gemini".to_owned(),
        "/home/dev/.gemini",
        "Gemini auth",
        FsNode::Missing,
        true,
    ) {
        Ok(MountOutcome::SkippedMissing(w)) => {
            assert_eq!(w, "davy: warning: Gemini auth mount source not found at /h/.gemini; skipping.");
        }
        other => panic!("expected a skip, got {:?}", kind(&other)),
    }
}

#[test]
fn required_missing_source_is_fatal() {
    match plan_one_mount(
        "/h/.pi/agent".to_owned(),
        "/home/dev/.pi/agent",
        "Pi auth",
        FsNode::Missing,
        false,
    ) {
        Err(LaunchError::Validation(m)) => {
            assert_eq!(m, "Pi auth mount source not found: /h/.pi/agent");
        }
        other => panic!("expected a validation error, got {:?}", kind(&other)),
    }
}

#[test]
fn directory_source_becomes_a_bind_mount() {
    match plan_one_mount(
        "/h/.codex".to_owned(),
        "/home/dev/.codex",
        "Codex auth",
        FsNode::Directory,
        false,
    ) {
        Ok(MountOutcome::Mounted(d)) => {
            assert_eq!(d.host, "/h/.codex");
            assert_eq!(d.container, "/home/dev/.codex");
            assert_eq!(d.label, "Codex auth");
        }
        other => panic!("expected a mount, got {:?}", kind(&other)),
    }
}

#[test]
fn codex_mount_injects_its_environment_directive() {
    let home = "/h".to_owned();
    let plan = plan_auth_mounts(
        false,
        true,
        false,
        false,
        &home,
        FsNode::Missing,
        FsNode::Directory,
        FsNode::Missing,
        FsNode::Directory,
    )
    .unwrap();
    assert_eq!(
        plan.volume_args,
        vec![
            "-v".to_owned(),
            "/h/.codex:/home/dev/.codex".to_owned(),
            "-v".to_owned(),
            "/h/.agents/skills:/home/dev/.agents/skills".to_owned(),
        ]
    );
    assert_eq!(plan.env_args, vec!["-e".to_owned(), "CODEX_HOME=/home/dev/.codex".to_owned()]);
    assert!(plan.warnings.is_empty());
}

#[test]
fn enable_all_downgrades_missing_mounts_to_warnings() {
    let home = "/h".to_owned();
    let plan = plan_auth_mounts(
        true,
        true,
        true,
        true,
        &home,
        FsNode::Missing,
        FsNode::Missing,
        FsNode::Directory,
        FsNode::Missing,
    )
    .unwrap();
    assert_eq!(
        plan.volume_args,
        vec!["-v".to_owned(), "/h/.gemini:/home/dev/.gemini".to_owned()]
    );
    assert!(plan.env_args.is_empty());
    assert_eq!(
        plan.warnings,
        vec![
            "davy: warning: Pi auth mount source not found at /h/.pi/agent; skipping.".to_owned(),
            "davy: warning: Codex auth mount source not found at /h/.codex; skipping.".to_owned(),
            "davy: warning: agents skills mount source not found at /h/.agents/skills; skipping."
                .to_owned(),
            "davy: warning: continuing without host skills mount.".to_owned(),
        ]
    );
}

#[test]
fn first_blocked_mount_decides_the_error() {
    let home = "/h".to_owned();
    match plan_auth_mounts(
        true,
        true,
        false,
        false,
        &home,
        FsNode::Missing,
        FsNode::RegularFile,
        FsNode::Missing,
        FsNode::Missing,
    ) {
        Err(LaunchError::Validation(m)) => {
            assert_eq!(m, "Pi auth mount source not found: /h/.pi/agent");
        }
        other => panic!("expected the pi error first, got {:?}", planned(&other)),
    }
}

fn kind(r: &Result<MountOutcome, LaunchError>) -> &'static str {
    match r {
        Ok(MountOutcome::Mounted(_)) => "mounted",
        Ok(MountOutcome::SkippedMissing(_)) => "skipped",
        Err(_) => "error",
    }
}

fn planned(r: &Result<davy::mounts::MountPlan, LaunchError>) -> &'static str {
    match r {
        Ok(_) => "plan",
        Err(_) => "error",
    }
}

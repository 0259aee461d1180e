use davy::errors::LaunchError;
use davy::resolve::{
    check_dockerfile, check_project_dir, context_dir, dockerfile_candidates, project_dir_choice,
    resolve_dockerfile, resolve_home, FsNode,
};

#[test]
fn project_dir_defaults_to_cwd() {
    assert_eq!(project_dir_choice(None, "/cwd".to_owned()), "/cwd");
    assert_eq!(project_dir_choice(Some("/p".to_owned()), "/cwd".to_owned()), "/p");
}

#[test]
fn missing_project_dir_is_a_configuration_error() {
    match check_project_dir("/nope".to_owned(), FsNode::Missing) {
        Err(LaunchError::Configuration(m)) => assert_eq!(m, "project dir not found: /nope"),
        other => panic!("expected a configuration error, got {:?}", other),
    }
    assert_eq!(check_project_dir("/p".to_owned(), FsNode::Directory).unwrap(), "/p");
}

#[test]
fn candidates_follow_explicit_then_local_then_config() {
    let cwd = "/cwd".to_owned();
    let home = "/home/u".to_owned();
    assert_eq!(
        dockerfile_candidates(Some("/x/Dockerfile".to_owned()), false, &cwd, &home),
        vec!["/x/Dockerfile".to_owned()]
    );
    assert_eq!(
        dockerfile_candidates(None, true, &cwd, &home),
        vec!["/cwd/rocky.Dockerfile".to_owned(), "/cwd/debian.Dockerfile".to_owned()]
    );
    assert_eq!(
        dockerfile_candidates(None, false, &cwd, &home),
        vec![
            "/home/u/.config/davy/rocky.Dockerfile".to_owned(),
            "/home/u/.config/davy/debian.Dockerfile".to_owned(),
        ]
    );
}

#[test]
fn explicit_path_wins_without_an_existence_check() {
    let r = resolve_dockerfile(true, false, vec!["/x/Dockerfile".to_owned()], &vec![false]);
    assert_eq!(r.unwrap(), "/x/Dockerfile");
}

#[test]
fn first_existing_candidate_wins_in_order() {
    let cands = vec!["/c/rocky.Dockerfile".to_owned(), "/c/debian.Dockerfile".to_owned()];
    let r = resolve_dockerfile(false, true, cands.clone(), &vec![true, true]);
    assert_eq!(r.unwrap(), "/c/rocky.Dockerfile");
    let r = resolve_dockerfile(false, true, cands.clone(), &vec![false, true]);
    assert_eq!(r.unwrap(), "/c/debian.Dockerfile");
}

#[test]
fn no_candidate_names_every_path_checked() {
    let cands = vec!["/c/rocky.Dockerfile".to_owned(), "/c/debian.Dockerfile".to_owned()];
    match resolve_dockerfile(false, true, cands.clone(), &vec![false, false]) {
        Err(LaunchError::Configuration(m)) => assert_eq!(
            m,
            "no Dockerfile found in current directory (looked for /c/rocky.Dockerfile and /c/debian.Dockerfile)"
        ),
        other => panic!("expected a configuration error, got {:?}", other),
    }
    match resolve_dockerfile(false, false, cands, &vec![false, false]) {
        Err(LaunchError::Configuration(m)) => assert_eq!(
            m,
            "no Dockerfile found (looked for /c/rocky.Dockerfile and /c/debian.Dockerfile); use --dockerfile, --local-dockerfile, or DAVY_DOCKERFILE"
        ),
        other => panic!("expected a configuration error, got {:?}", other),
    }
}

#[test]
fn dockerfile_must_be_a_regular_file() {
    match check_dockerfile("/x".to_owned(), FsNode::Directory) {
        Err(LaunchError::Configuration(m)) => assert_eq!(m, "Dockerfile not found at: /x"),
        other => panic!("expected a configuration error, got {:?}", other),
    }
    assert_eq!(check_dockerfile("/x".to_owned(), FsNode::RegularFile).unwrap(), "/x");
}

#[test]
fn context_dir_is_the_containing_directory() {
    assert_eq!(context_dir(&"/a/b/rocky.Dockerfile".to_owned()), "/a/b");
    assert_eq!(context_dir(&"/rocky.Dockerfile".to_owned()), "/");
    assert_eq!(context_dir(&"rocky.Dockerfile".to_owned()), ".");
}

#[test]
fn home_prefers_the_environment_value() {
    assert_eq!(resolve_home(Some("/home/u".to_owned())).unwrap(), "/home/u");
}

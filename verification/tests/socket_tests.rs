use davy::errors::LaunchError;
use davy::socket::{
    check_docker_socket, parse_unix_socket_from_docker_host, resolve_docker_socket_path,
    SocketProbe,
};

#[test]
fn parse_unix_docker_host_extracts_socket_path() {
    let socket = parse_unix_socket_from_docker_host("unix:///run/user/1000/docker.sock");
    assert_eq!(socket, Some("/run/user/1000/docker.sock".to_owned()));
}

#[test]
fn parse_non_unix_docker_host_returns_none() {
    assert_eq!(parse_unix_socket_from_docker_host("tcp://127.0.0.1:2375"), None);
}

#[test]
fn parse_bare_unix_scheme_returns_none() {
    assert_eq!(parse_unix_socket_from_docker_host("unix://"), None);
    assert_eq!(parse_unix_socket_from_docker_host(""), None);
}

#[test]
fn socket_path_explicit_override_wins() {
    let r = resolve_docker_socket_path(
        Some("/custom.sock".to_owned()),
        Some("tcp://127.0.0.1:2375".to_owned()),
    );
    assert_eq!(r.unwrap(), "/custom.sock");
}

#[test]
fn socket_path_from_docker_host_url() {
    let r = resolve_docker_socket_path(None, Some("unix:///run/docker.sock".to_owned()));
    assert_eq!(r.unwrap(), "/run/docker.sock");
}

#[test]
fn socket_path_non_unix_docker_host_is_an_error() {
    let r = resolve_docker_socket_path(None, Some("tcp://127.0.0.1:2375".to_owned()));
    match r {
        Err(LaunchError::Configuration(m)) => {
            assert_eq!(
                m,
                "DOCKER_HOST is set to 'tcp://127.0.0.1:2375', but --docker needs a local unix socket. Set --docker-sock or DAVY_DOCKER_SOCK."
            );
        }
        other => panic!("expected a configuration error, got {:?}", other),
    }
}

#[test]
fn socket_path_defaults_without_docker_host() {
    let r = resolve_docker_socket_path(None, None);
    assert_eq!(r.unwrap(), "/var/run/docker.sock");
}

#[test]
fn socket_check_rejects_missing_and_wrong_type() {
    let path = "/run/docker.sock".to_owned();
    assert!(check_docker_socket(&path, SocketProbe::UnixSocket).is_ok());
    match check_docker_socket(&path, SocketProbe::Missing) {
        Err(LaunchError::Validation(m)) => {
            assert_eq!(m, "docker socket not found: /run/docker.sock");
        }
        other => panic!("expected a validation error, got {:?}", other),
    }
    match check_docker_socket(&path, SocketProbe::WrongType) {
        Err(LaunchError::Validation(m)) => {
            assert_eq!(m, "docker socket path is not a unix socket: /run/docker.sock");
        }
        other => panic!("expected a validation error, got {:?}", other),
    }
}

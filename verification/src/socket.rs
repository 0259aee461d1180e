//! Docker control-socket resolution: extracting a unix socket path from a
//! `DOCKER_HOST`-style URL, choosing the socket path by precedence, and
//! checking what the host shows at that path.

use vstd::prelude::*;

use crate::errors::LaunchError;
use crate::textfmt::{concat2, concat3};

verus! {

/// The unix socket path named by a `DOCKER_HOST`-style URL: the remainder
/// after a `unix://` scheme, provided it is non-empty; anything else names no
/// local socket.
pub open spec fn parsed_unix_socket(s: Seq<char>) -> Option<Seq<char>> {
    if s.len() > 7 && s.subrange(0, 7) == "unix://"@ {
        Some(s.skip(7))
    } else {
        None
    }
}

/// Character-by-character string equality.
pub fn str_eq(a: &str, b: &str) -> (r: bool)
    ensures
        r == (a@ == b@),
{
    let na = a.unicode_len();
    let nb = b.unicode_len();
    if na != nb {
        return false;
    }
    let mut i: usize = 0;
    while i < na
        invariant
            0 <= i <= na,
            na == a@.len(),
            na == b@.len(),
            forall|k: int| 0 <= k < i ==> a@[k] == b@[k],
        decreases na - i,
    {
        if a.get_char(i) != b.get_char(i) {
            return false;
        }
        i += 1;
    }
    proof {
        assert(a@ =~= b@);
    }
    true
}

/// Extracts the socket path from a `unix://` URL; any other scheme, and a
/// bare `unix://` with nothing after it, yields no path.
pub fn parse_unix_socket_from_docker_host(docker_host: &str) -> (r: Option<String>)
    ensures
        match parsed_unix_socket(docker_host@) {
            Some(p) => r matches Some(path) && path@ == p,
            None => r is None,
        },
{
    proof {
        reveal_strlit("unix://");
    }
    let n = docker_host.unicode_len();
    if n <= 7 {
        return None;
    }
    let head = docker_host.substring_char(0, 7);
    if !str_eq(head, "unix://") {
        return None;
    }
    Some(docker_host.substring_char(7, n).to_owned())
}

/// Whether a socket path can be chosen at all from the override and the
/// `DOCKER_HOST` value.
pub open spec fn socket_choice_ok(from_cli: Option<String>, docker_host_env: Option<String>)
    -> bool {
    from_cli is Some || match docker_host_env {
        Some(h) => parsed_unix_socket(h@) is Some,
        None => true,
    }
}

/// The chosen socket path, when one can be chosen: the override, then the
/// `unix://` path of `DOCKER_HOST`, then the conventional default.
pub open spec fn socket_choice_path(from_cli: Option<String>, docker_host_env: Option<String>)
    -> Seq<char> {
    match from_cli {
        Some(p) => p@,
        None => match docker_host_env {
            Some(h) => parsed_unix_socket(h@)->Some_0,
            None => "/var/run/docker.sock"@,
        },
    }
}

/// The message reported when `DOCKER_HOST` names no local unix socket.
pub open spec fn docker_host_error_msg(host: Seq<char>) -> Seq<char> {
    "DOCKER_HOST is set to '"@ + host
        + "', but --docker needs a local unix socket. Set --docker-sock or DAVY_DOCKER_SOCK."@
}

/// The socket path to mount, by precedence: an explicit override, then a
/// `unix://` path taken from the `DOCKER_HOST` value, then the conventional
/// default. A `DOCKER_HOST` of any other scheme is a configuration error,
/// since only a local unix socket can be bind-mounted.
pub fn resolve_docker_socket_path(from_cli: Option<String>, docker_host_env: Option<String>) -> (r:
    Result<String, LaunchError>)
    ensures
        socket_choice_ok(from_cli, docker_host_env) ==> (r matches Ok(path) && path@
            == socket_choice_path(from_cli, docker_host_env)),
        !socket_choice_ok(from_cli, docker_host_env) ==> (r matches Err(e)
            && e.is_configuration_with(docker_host_error_msg(docker_host_env->Some_0@))),
{
    match from_cli {
        Some(p) => Ok(p),
        None => match docker_host_env {
            Some(h) => match parse_unix_socket_from_docker_host(h.as_str()) {
                Some(path) => Ok(path),
                None => Err(
                    LaunchError::Configuration(
                        concat3(
                            "DOCKER_HOST is set to '",
                            h.as_str(),
                            "', but --docker needs a local unix socket. Set --docker-sock or DAVY_DOCKER_SOCK.",
                        ),
                    ),
                ),
            },
            None => Ok("/var/run/docker.sock".to_owned()),
        },
    }
}

/// What the host filesystem shows at the resolved socket path.
#[derive(PartialEq, Eq, Structural, Clone, Copy, Debug)]
pub enum SocketProbe {
    /// The path exists and is a unix socket.
    UnixSocket,
    /// The path exists but is not a unix socket.
    WrongType,
    /// Nothing exists at the path.
    Missing,
}

/// Accepts the socket path only when the host shows a unix socket there:
/// a missing or mistyped path would silently produce a useless mount.
pub fn check_docker_socket(path: &String, probe: SocketProbe) -> (r: Result<(), LaunchError>)
    ensures
        match probe {
            SocketProbe::UnixSocket => r is Ok,
            SocketProbe::Missing => r matches Err(e) && e.is_validation_with(
                "docker socket not found: "@ + path@,
            ),
            SocketProbe::WrongType => r matches Err(e) && e.is_validation_with(
                "docker socket path is not a unix socket: "@ + path@,
            ),
        },
{
    match probe {
        SocketProbe::UnixSocket => Ok(()),
        SocketProbe::Missing => Err(
            LaunchError::Validation(concat2("docker socket not found: ", path.as_str())),
        ),
        SocketProbe::WrongType => Err(
            LaunchError::Validation(
                concat2("docker socket path is not a unix socket: ", path.as_str()),
            ),
        ),
    }
}

} // verus!

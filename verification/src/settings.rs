//! The resolved launch plan: one pass that validates every host observation
//! and turns a launch request into concrete, fully-determined settings. Once
//! built, no further existence checks happen downstream.

use vstd::prelude::*;

use crate::compose::{basename_rep, default_container_name};
use crate::errors::LaunchError;
use crate::invoke::agent_volume_name;
use crate::mounts::{
    mounts_blocked_any, mounts_env_views, mounts_error_msg, mounts_volume_views,
    mounts_warning_views, plan_auth_mounts, MountPlan,
};
use crate::resolve::{
    check_dockerfile, check_project_dir, context_dir, context_dir_rep, dockerfile_candidates,
    no_dockerfile_msg, project_dir_choice, resolve_dockerfile, FsNode,
};
use crate::socket::{
    check_docker_socket, docker_host_error_msg, resolve_docker_socket_path, socket_choice_ok,
    socket_choice_path, SocketProbe,
};
use crate::textfmt::{concat3, dec_rep, str_views};

verus! {

/// A launch request as parsed from the command line: every option in plain
/// values, nothing validated yet.
pub struct LaunchRequest {
    /// Project directory to mount; the current directory when absent.
    pub project_dir: Option<String>,
    /// Container name; generated when absent.
    pub name: Option<String>,
    /// Mount the host docker socket.
    pub with_docker_sock: bool,
    /// Explicit docker socket path override.
    pub docker_sock: Option<String>,
    /// Force a pull and an uncached rebuild.
    pub rebuild: bool,
    /// Never build; fail if the image is missing.
    pub no_build: bool,
    /// Keep the container on exit.
    pub keep: bool,
    /// SSH exposure: absent, requested without a port, or with one.
    pub expose_ssh: Option<Option<u16>>,
    /// Extra `KEY=VALUE` environment entries, in order.
    pub extra_env: Vec<String>,
    /// Forwarded host environment entries, each already resolved to
    /// `(key, value)`.
    pub pass_env: Vec<(String, String)>,
    /// Mount host Pi auth.
    pub with_pi_auth: bool,
    /// Mount host Codex auth.
    pub with_codex_auth: bool,
    /// Mount host Gemini auth.
    pub with_gemini_auth: bool,
    /// Mount the persistent Agent auth volume.
    pub with_agent_auth: bool,
    /// Enable all auth mounts, downgrading missing ones to warnings.
    pub auth_all: bool,
    /// Image tag.
    pub image: String,
    /// Explicit build-definition path.
    pub dockerfile: Option<String>,
    /// Look for the build definition in the current directory.
    pub local_dockerfile: bool,
    /// Extra runtime arguments passed through unchanged.
    pub extra_docker_args: Vec<String>,
    /// The command to run inside the container.
    pub cmd: Vec<String>,
}

/// The stat result for the docker socket path, with the owning group id when
/// the path could be read.
pub struct SocketCheck {
    /// What the host shows at the socket path.
    pub probe: SocketProbe,
    /// The owning group id, when metadata was readable.
    pub gid: Option<u32>,
}

/// Every host observation the builder consumes, gathered by the caller for
/// exactly the paths the resolution helpers name.
pub struct HostProbes {
    /// What the host shows at the chosen project directory.
    pub project_node: FsNode,
    /// For each build-definition candidate, whether it is a regular file.
    pub dockerfile_exists: Vec<bool>,
    /// What the host shows at the Pi auth source.
    pub pi_node: FsNode,
    /// What the host shows at the Codex auth source.
    pub codex_node: FsNode,
    /// What the host shows at the Gemini auth source.
    pub gemini_node: FsNode,
    /// What the host shows at the skills source.
    pub skills_node: FsNode,
    /// The socket stat, present whenever a socket path could be chosen and
    /// the socket was requested.
    pub socket: Option<SocketCheck>,
}

/// The fully resolved, validated launch plan.
pub struct RuntimeSettings {
    /// Absolute project directory.
    pub project_dir: String,
    /// The build-definition file.
    pub dockerfile: String,
    /// Its containing directory, the build context.
    pub context_dir: String,
    /// The image tag.
    pub image: String,
    /// The container name.
    pub name: String,
    /// Host user id, passed as a build argument and used for volume
    /// ownership.
    pub host_uid: u32,
    /// Host group id.
    pub host_gid: u32,
    /// Keep the container on exit.
    pub keep: bool,
    /// Force a pull and an uncached rebuild.
    pub rebuild: bool,
    /// Never build.
    pub no_build: bool,
    /// The docker socket to mount, when requested.
    pub docker_sock: Option<String>,
    /// The socket's owning group id, when known.
    pub docker_sock_gid: Option<u32>,
    /// The host port published to the container's SSH port.
    pub expose_ssh: Option<u16>,
    /// Mount the persistent credential volume.
    pub with_agent_auth: bool,
    /// The credential volume name.
    pub agent_auth_volume: String,
    /// Pass-through runtime arguments: user extras first, then planned
    /// mounts.
    pub extra_docker_args: Vec<String>,
    /// `-e` flag/value pairs: user entries, forwarded entries, then
    /// mount-injected entries.
    pub extra_env_args: Vec<String>,
    /// Warnings recorded while planning, for reporting.
    pub warnings: Vec<String>,
    /// The user's command, not yet wrapped.
    pub cmd: Vec<String>,
}

/// The SSH publish port: nothing when exposure was not requested, the
/// conventional default when requested without a value, the given port
/// otherwise.
pub fn resolve_ssh_port(expose: Option<Option<u16>>) -> (r: Option<u16>)
    ensures
        expose is None ==> r is None,
        expose == Some(None::<u16>) ==> r == Some(222u16),
        expose matches Some(Some(p)) ==> r == Some(p),
{
    match expose {
        None => None,
        Some(None) => Some(222),
        Some(Some(p)) => Some(p),
    }
}

/// Relies on users' `get_current_uid`: the real user id of this process.
#[verifier::external_body]
pub(crate) fn current_uid() -> u32 {
    users::get_current_uid()
}

/// Relies on users' `get_current_gid`: the real group id of this process.
#[verifier::external_body]
fn current_gid() -> u32 {
    users::get_current_gid()
}

/// The `-e` flag/value pairs for a sequence of entry values, in order.
pub open spec fn env_pair_views(vals: Seq<Seq<char>>) -> Seq<Seq<char>>
    decreases vals.len(),
{
    if vals.len() == 0 {
        Seq::empty()
    } else {
        env_pair_views(vals.drop_last()) + seq!["-e"@, vals.last()]
    }
}

/// The `KEY=VALUE` entries of the forwarded host environment pairs.
pub open spec fn pass_entry_views(pass: Seq<(String, String)>) -> Seq<Seq<char>> {
    pass.map_values(|p: (String, String)| p.0@ + "="@ + p.1@)
}

/// Builds the runtime settings from the request and the host observations.
/// The checks run in a fixed order — project directory, build definition,
/// mounts, docker socket — and the first failure decides the error; when
/// everything holds, every field of the result is pinned to the request and
/// the observations (the user and group ids and the generated name's
/// timestamp come from the host and carry only their shape).
pub fn build_runtime_settings(
    req: LaunchRequest,
    cwd: String,
    home: &String,
    agent_volume_env: Option<String>,
    docker_host_env: Option<String>,
    probes: &HostProbes,
) -> (r: Result<RuntimeSettings, LaunchError>)
    requires
        probes.dockerfile_exists@.len() == (if req.dockerfile is Some {
            1int
        } else {
            2int
        }),
        (req.with_docker_sock && socket_choice_ok(req.docker_sock, docker_host_env))
            ==> probes.socket is Some,
    ensures
        ({
            let project = match req.project_dir {
                Some(p) => p@,
                None => cwd@,
            };
            let explicit = req.dockerfile is Some;
            let cand0 = if explicit {
                req.dockerfile->0@
            } else if req.local_dockerfile {
                cwd@ + "/rocky.Dockerfile"@
            } else {
                home@ + "/.config/davy/rocky.Dockerfile"@
            };
            let cand1 = if req.local_dockerfile {
                cwd@ + "/debian.Dockerfile"@
            } else {
                home@ + "/.config/davy/debian.Dockerfile"@
            };
            let ex = probes.dockerfile_exists@;
            let df = if explicit || ex[0] {
                cand0
            } else {
                cand1
            };
            let with_pi = req.with_pi_auth || req.auth_all;
            let with_codex = req.with_codex_auth || req.auth_all;
            let with_gemini = req.with_gemini_auth || req.auth_all;
            if probes.project_node != FsNode::Directory {
                r matches Err(e) && e.is_configuration_with("project dir not found: "@ + project)
            } else if !explicit && !ex[0] && !ex[1] {
                r matches Err(e) && e.is_configuration_with(
                    no_dockerfile_msg(req.local_dockerfile, cand0, cand1),
                )
            } else if explicit && !ex[0] {
                r matches Err(e) && e.is_configuration_with("Dockerfile not found at: "@ + df)
            } else if mounts_blocked_any(
                with_pi,
                with_codex,
                with_gemini,
                req.auth_all,
                probes.pi_node,
                probes.codex_node,
                probes.gemini_node,
                probes.skills_node,
            ) {
                r matches Err(e) && e.is_validation_with(
                    mounts_error_msg(
                        with_pi,
                        with_codex,
                        with_gemini,
                        req.auth_all,
                        home@,
                        probes.pi_node,
                        probes.codex_node,
                        probes.gemini_node,
                        probes.skills_node,
                    ),
                )
            } else if req.with_docker_sock && !socket_choice_ok(req.docker_sock, docker_host_env) {
                r matches Err(e) && e.is_configuration_with(
                    docker_host_error_msg(docker_host_env->0@),
                )
            } else if req.with_docker_sock && probes.socket->0.probe == SocketProbe::Missing {
                r matches Err(e) && e.is_validation_with(
                    "docker socket not found: "@ + socket_choice_path(
                        req.docker_sock,
                        docker_host_env,
                    ),
                )
            } else if req.with_docker_sock && probes.socket->0.probe == SocketProbe::WrongType {
                r matches Err(e) && e.is_validation_with(
                    "docker socket path is not a unix socket: "@ + socket_choice_path(
                        req.docker_sock,
                        docker_host_env,
                    ),
                )
            } else {
                r matches Ok(s) && s.project_dir@ == project && s.dockerfile@ == df
                    && s.context_dir@ == context_dir_rep(df) && s.image@ == req.image@ && (
                match req.name {
                    Some(n) => s.name@ == n@,
                    None => s.name@.len() > "davy-"@.len() + basename_rep(project).len() + 1
                        && s.name@.take(
                        ("davy-"@.len() + basename_rep(project).len() + 1) as int,
                    ) == "davy-"@ + basename_rep(project) + seq!['-'],
                }) && s.keep == req.keep && s.rebuild == req.rebuild && s.no_build == req.no_build
                    && s.agent_auth_volume@ == (match agent_volume_env {
                    Some(v) => v@,
                    None => "davy-agent-auth-"@ + dec_rep(s.host_uid as nat) + "-v1"@,
                }) && s.with_agent_auth == (req.with_agent_auth || req.auth_all) && s.expose_ssh
                    == (match req.expose_ssh {
                    None => None::<u16>,
                    Some(None) => Some(222u16),
                    Some(Some(p)) => Some(p),
                }) && (req.with_docker_sock ==> (s.docker_sock matches Some(sp) && sp@
                    == socket_choice_path(req.docker_sock, docker_host_env) && s.docker_sock_gid
                    == probes.socket->0.gid)) && (!req.with_docker_sock ==> s.docker_sock is None
                    && s.docker_sock_gid is None) && str_views(s.extra_docker_args@) == str_views(
                    req.extra_docker_args@,
                ) + mounts_volume_views(
                    with_pi,
                    with_codex,
                    with_gemini,
                    home@,
                    probes.pi_node,
                    probes.codex_node,
                    probes.gemini_node,
                    probes.skills_node,
                ) && str_views(s.extra_env_args@) == env_pair_views(str_views(req.extra_env@))
                    + env_pair_views(pass_entry_views(req.pass_env@)) + mounts_env_views(
                    with_codex,
                    probes.codex_node,
                ) && str_views(s.warnings@) == mounts_warning_views(
                    with_pi,
                    with_codex,
                    with_gemini,
                    home@,
                    probes.pi_node,
                    probes.codex_node,
                    probes.gemini_node,
                    probes.skills_node,
                ) && str_views(s.cmd@) == str_views(req.cmd@)
            }
        }),
{
    let uid = current_uid();
    let gid = current_gid();

    let chosen = project_dir_choice(req.project_dir, cwd.clone());
    let project = match check_project_dir(chosen, probes.project_node) {
        Ok(p) => p,
        Err(e) => {
            return Err(e);
        },
    };

    let explicit_given = req.dockerfile.is_some();
    let candidates = dockerfile_candidates(req.dockerfile, req.local_dockerfile, &cwd, home);
    proof {
        assert(candidates@.len() == str_views(candidates@).len());
        assert forall|q: int| 0 <= q < candidates@.len() implies str_views(candidates@)[q] == (
        #[trigger] candidates@[q])@ by {}
    }
    let dockerfile = match resolve_dockerfile(
        explicit_given,
        req.local_dockerfile,
        candidates,
        &probes.dockerfile_exists,
    ) {
        Ok(p) => p,
        Err(e) => {
            return Err(e);
        },
    };
    let dockerfile = if explicit_given {
        let node = if probes.dockerfile_exists[0] {
            FsNode::RegularFile
        } else {
            FsNode::Missing
        };
        match check_dockerfile(dockerfile, node) {
            Ok(p) => p,
            Err(e) => {
                return Err(e);
            },
        }
    } else {
        dockerfile
    };
    let context = context_dir(&dockerfile);

    let with_pi = req.with_pi_auth || req.auth_all;
    let with_codex = req.with_codex_auth || req.auth_all;
    let with_gemini = req.with_gemini_auth || req.auth_all;
    let with_agent = req.with_agent_auth || req.auth_all;

    let plan = match plan_auth_mounts(
        with_pi,
        with_codex,
        with_gemini,
        req.auth_all,
        home,
        probes.pi_node,
        probes.codex_node,
        probes.gemini_node,
        probes.skills_node,
    ) {
        Ok(p) => p,
        Err(e) => {
            return Err(e);
        },
    };
    let MountPlan { volume_args, env_args: mount_env_args, warnings } = plan;

    let mut env_args: Vec<String> = Vec::new();
    let mut i: usize = 0;
    while i < req.extra_env.len()
        invariant
            0 <= i <= req.extra_env@.len(),
            str_views(env_args@) == env_pair_views(str_views(req.extra_env@.take(i as int))),
        decreases req.extra_env@.len() - i,
    {
        crate::invoke::push_env_arg(&mut env_args, req.extra_env[i].clone());
        proof {
            let vals = str_views(req.extra_env@);
            assert(str_views(req.extra_env@.take(i + 1)) =~= str_views(
                req.extra_env@.take(i as int),
            ).push(req.extra_env@[i as int]@));
            assert(str_views(req.extra_env@.take(i + 1)).drop_last() =~= str_views(
                req.extra_env@.take(i as int),
            ));
        }
        i += 1;
    }
    proof {
        assert(req.extra_env@.take(req.extra_env@.len() as int) =~= req.extra_env@);
    }
    let ghost extras_done = env_pair_views(str_views(req.extra_env@));
    let mut j: usize = 0;
    while j < req.pass_env.len()
        invariant
            0 <= j <= req.pass_env@.len(),
            str_views(env_args@) == extras_done + env_pair_views(
                pass_entry_views(req.pass_env@.take(j as int)),
            ),
        decreases req.pass_env@.len() - j,
    {
        let entry = concat3(req.pass_env[j].0.as_str(), "=", req.pass_env[j].1.as_str());
        crate::invoke::push_env_arg(&mut env_args, entry);
        proof {
            assert(pass_entry_views(req.pass_env@.take(j + 1)) =~= pass_entry_views(
                req.pass_env@.take(j as int),
            ).push(req.pass_env@[j as int].0@ + "="@ + req.pass_env@[j as int].1@));
            assert(pass_entry_views(req.pass_env@.take(j + 1)).drop_last() =~= pass_entry_views(
                req.pass_env@.take(j as int),
            ));
        }
        j += 1;
    }
    proof {
        assert(req.pass_env@.take(req.pass_env@.len() as int) =~= req.pass_env@);
    }
    let ghost env_before_mounts = extras_done + env_pair_views(pass_entry_views(req.pass_env@));
    let mut mount_env = mount_env_args;
    env_args.append(&mut mount_env);
    proof {
        assert(str_views(env_args@) =~= env_before_mounts + mounts_env_views(
            with_codex,
            probes.codex_node,
        ));
    }

    let mut extra_docker = req.extra_docker_args;
    let ghost user_extras = str_views(extra_docker@);
    let mut vol = volume_args;
    extra_docker.append(&mut vol);
    proof {
        assert(str_views(extra_docker@) =~= user_extras + mounts_volume_views(
            with_pi,
            with_codex,
            with_gemini,
            home@,
            probes.pi_node,
            probes.codex_node,
            probes.gemini_node,
            probes.skills_node,
        ));
    }

    let (docker_sock, docker_sock_gid): (Option<String>, Option<u32>) = if req.with_docker_sock {
        let path = match resolve_docker_socket_path(req.docker_sock, docker_host_env) {
            Ok(p) => p,
            Err(e) => {
                return Err(e);
            },
        };
        match &probes.socket {
            Some(sc) => {
                match check_docker_socket(&path, sc.probe) {
                    Ok(u) => u,
                    Err(e) => {
                        return Err(e);
                    },
                };
                (Some(path), sc.gid)
            },
            None => vstd::pervasive::unreached(),
        }
    } else {
        (None, None)
    };

    let expose = resolve_ssh_port(req.expose_ssh);
    let volume = agent_volume_name(agent_volume_env, uid);
    let name = match req.name {
        Some(n) => n,
        None => default_container_name(&project),
    };

    Ok(
        RuntimeSettings {
            project_dir: project,
            dockerfile,
            context_dir: context,
            image: req.image,
            name,
            host_uid: uid,
            host_gid: gid,
            keep: req.keep,
            rebuild: req.rebuild,
            no_build: req.no_build,
            docker_sock,
            docker_sock_gid,
            expose_ssh: expose,
            with_agent_auth: with_agent,
            agent_auth_volume: volume,
            extra_docker_args: extra_docker,
            extra_env_args: env_args,
            warnings,
            cmd: req.cmd,
        },
    )
}

} // verus!

//! Invocation composition: deciding whether to build, and assembling the
//! argument vectors of every external runtime call — build, image inspect,
//! volume lifecycle, and the final run — in a fixed flag order.

use vstd::prelude::*;

use crate::errors::LaunchError;
use crate::settings::RuntimeSettings;
use crate::textfmt::{concat2, concat3, dec_rep, str_views, u32_to_decimal};

verus! {

/// Whether and how the image is (re)built before the run.
#[derive(PartialEq, Eq, Structural, Clone, Copy, Debug)]
pub enum BuildAction {
    /// The image is present and nothing is built.
    Skip,
    /// Build the image, using cached layers.
    BuildFresh,
    /// Pull base layers and rebuild without cache.
    RebuildFull,
    /// No-build mode with the image absent: the launch fails.
    FailMissingImage,
}

/// Whether deciding the build action requires knowing if the image already
/// exists: an unconditional rebuild is the one case that does not ask.
pub fn needs_image_check(rebuild: bool, no_build: bool) -> (r: bool)
    ensures
        r == (no_build || !rebuild),
{
    no_build || !rebuild
}

/// Decides the build step: no-build mode skips when the image is present and
/// fails when it is not; an explicit rebuild forces a pull and an uncached
/// build; otherwise the image is built only when it is absent.
pub fn decide_build(rebuild: bool, no_build: bool, image_exists: bool) -> (r: BuildAction)
    ensures
        no_build && image_exists ==> r == BuildAction::Skip,
        no_build && !image_exists ==> r == BuildAction::FailMissingImage,
        !no_build && rebuild ==> r == BuildAction::RebuildFull,
        !no_build && !rebuild && image_exists ==> r == BuildAction::Skip,
        !no_build && !rebuild && !image_exists ==> r == BuildAction::BuildFresh,
{
    if no_build {
        if image_exists {
            BuildAction::Skip
        } else {
            BuildAction::FailMissingImage
        }
    } else if rebuild {
        BuildAction::RebuildFull
    } else if image_exists {
        BuildAction::Skip
    } else {
        BuildAction::BuildFresh
    }
}

/// The error reported when no-build mode finds no image.
pub fn missing_image_error(image: &String) -> (r: LaunchError)
    ensures
        r.is_validation_with("image '"@ + image@ + "' not found (and --no-build was set)"@),
{
    LaunchError::Validation(
        concat3("image '", image.as_str(), "' not found (and --no-build was set)"),
    )
}

/// The `docker build` arguments: optional pull and cache-busting flags, the
/// host user and group ids as build arguments so in-image ownership matches
/// the host, the build definition, the tag, and the context directory.
pub open spec fn build_args_rep(
    dockerfile: Seq<char>,
    context_dir: Seq<char>,
    image: Seq<char>,
    uid: nat,
    gid: nat,
    pull: bool,
    no_cache: bool,
) -> Seq<Seq<char>> {
    seq!["build"@] + (if pull {
        seq!["--pull"@]
    } else {
        Seq::empty()
    }) + (if no_cache {
        seq!["--no-cache"@]
    } else {
        Seq::empty()
    }) + seq![
        "--build-arg"@,
        "USER_UID="@ + dec_rep(uid),
        "--build-arg"@,
        "USER_GID="@ + dec_rep(gid),
        "-f"@,
        dockerfile,
        "-t"@,
        image,
        context_dir,
    ]
}

/// Assembles the `docker build` argument vector.
pub fn docker_build_args(s: &RuntimeSettings, pull: bool, no_cache: bool) -> (r: Vec<String>)
    ensures
        str_views(r@) == build_args_rep(
            s.dockerfile@,
            s.context_dir@,
            s.image@,
            s.host_uid as nat,
            s.host_gid as nat,
            pull,
            no_cache,
        ),
{
    let mut r: Vec<String> = Vec::new();
    r.push("build".to_owned());
    if pull {
        r.push("--pull".to_owned());
    }
    if no_cache {
        r.push("--no-cache".to_owned());
    }
    r.push("--build-arg".to_owned());
    r.push(concat2("USER_UID=", u32_to_decimal(s.host_uid).as_str()));
    r.push("--build-arg".to_owned());
    r.push(concat2("USER_GID=", u32_to_decimal(s.host_gid).as_str()));
    r.push("-f".to_owned());
    r.push(s.dockerfile.clone());
    r.push("-t".to_owned());
    r.push(s.image.clone());
    r.push(s.context_dir.clone());
    proof {
        assert(str_views(r@) =~= build_args_rep(
            s.dockerfile@,
            s.context_dir@,
            s.image@,
            s.host_uid as nat,
            s.host_gid as nat,
            pull,
            no_cache,
        ));
    }
    r
}

/// The `docker image inspect` arguments used to test image presence.
pub fn image_inspect_args(image: &String) -> (r: Vec<String>)
    ensures
        str_views(r@) == seq!["image"@, "inspect"@, image@],
{
    let mut r: Vec<String> = Vec::new();
    r.push("image".to_owned());
    r.push("inspect".to_owned());
    r.push(image.clone());
    proof {
        assert(str_views(r@) =~= seq!["image"@, "inspect"@, image@]);
    }
    r
}

/// The `docker volume create` arguments; creation is idempotent on the
/// runtime's side.
pub fn volume_create_args(volume: &String) -> (r: Vec<String>)
    ensures
        str_views(r@) == seq!["volume"@, "create"@, volume@],
{
    let mut r: Vec<String> = Vec::new();
    r.push("volume".to_owned());
    r.push("create".to_owned());
    r.push(volume.clone());
    proof {
        assert(str_views(r@) =~= seq!["volume"@, "create"@, volume@]);
    }
    r
}

/// The `docker volume inspect` arguments used to test volume presence.
pub fn volume_inspect_args(volume: &String) -> (r: Vec<String>)
    ensures
        str_views(r@) == seq!["volume"@, "inspect"@, volume@],
{
    let mut r: Vec<String> = Vec::new();
    r.push("volume".to_owned());
    r.push("inspect".to_owned());
    r.push(volume.clone());
    proof {
        assert(str_views(r@) =~= seq!["volume"@, "inspect"@, volume@]);
    }
    r
}

/// The `docker volume rm` arguments for the reset subcommand.
pub fn volume_rm_args(volume: &String) -> (r: Vec<String>)
    ensures
        str_views(r@) == seq!["volume"@, "rm"@, "-f"@, volume@],
{
    let mut r: Vec<String> = Vec::new();
    r.push("volume".to_owned());
    r.push("rm".to_owned());
    r.push("-f".to_owned());
    r.push(volume.clone());
    proof {
        assert(str_views(r@) =~= seq!["volume"@, "rm"@, "-f"@, volume@]);
    }
    r
}

/// The shell command that initializes the credential volume's skeleton and
/// hands its ownership to the host user, so the next unprivileged mount is
/// immediately writable.
pub open spec fn volume_init_script_rep(uid: nat, gid: nat) -> Seq<char> {
    "mkdir -p /auth/.agent && touch /auth/.agent.json && chown -R "@ + dec_rep(uid) + ":"@
        + dec_rep(gid) + " /auth"@
}

/// The one-shot privileged `docker run` that initializes the credential
/// volume.
pub fn volume_init_args(volume: &String, image: &String, uid: u32, gid: u32) -> (r: Vec<String>)
    ensures
        str_views(r@) == seq![
            "run"@,
            "--rm"@,
            "--user"@,
            "0:0"@,
            "-v"@,
            volume@ + ":/auth"@,
            image@,
            "bash"@,
            "-lc"@,
            volume_init_script_rep(uid as nat, gid as nat),
        ],
{
    let mut r: Vec<String> = Vec::new();
    r.push("run".to_owned());
    r.push("--rm".to_owned());
    r.push("--user".to_owned());
    r.push("0:0".to_owned());
    r.push("-v".to_owned());
    r.push(concat2(volume.as_str(), ":/auth"));
    r.push(image.clone());
    r.push("bash".to_owned());
    r.push("-lc".to_owned());
    let mut script = "mkdir -p /auth/.agent && touch /auth/.agent.json && chown -R ".to_owned();
    script.append(u32_to_decimal(uid).as_str());
    script.append(":");
    script.append(u32_to_decimal(gid).as_str());
    script.append(" /auth");
    r.push(script);
    proof {
        assert(str_views(r@) =~= seq![
            "run"@,
            "--rm"@,
            "--user"@,
            "0:0"@,
            "-v"@,
            volume@ + ":/auth"@,
            image@,
            "bash"@,
            "-lc"@,
            volume_init_script_rep(uid as nat, gid as nat),
        ]);
    }
    r
}

/// The default name of the persistent credential volume for this host user,
/// unless an environment override names another.
pub fn agent_volume_name(override_env: Option<String>, uid: u32) -> (r: String)
    ensures
        match override_env {
            Some(v) => r@ == v@,
            None => r@ == "davy-agent-auth-"@ + dec_rep(uid as nat) + "-v1"@,
        },
{
    match override_env {
        Some(v) => v,
        None => {
            let mut s = "davy-agent-auth-".to_owned();
            s.append(u32_to_decimal(uid).as_str());
            s.append("-v1");
            s
        },
    }
}

/// Appends one `-e KEY=VALUE` pair to an environment argument vector.
pub fn push_env_arg(args: &mut Vec<String>, value: String)
    ensures
        str_views(final(args)@) == str_views(old(args)@) + seq!["-e"@, value@],
{
    let ghost v = value@;
    args.push("-e".to_owned());
    args.push(value);
    proof {
        assert(str_views(args@) =~= str_views(old(args)@) + seq!["-e"@, v]);
    }
}

/// The environment entry that delivers the encoded authorized-keys payload
/// into the container.
pub fn ssh_keys_env_entry(encoded: &String) -> (r: String)
    ensures
        r@ == "DAVY_SSH_AUTH_KEYS_B64="@ + encoded@,
{
    concat2("DAVY_SSH_AUTH_KEYS_B64=", encoded.as_str())
}

/// The `docker run` arguments, in their fixed order: interactive terminal
/// mode, auto-removal unless the container is kept, the container name, the
/// project bind-mount used as working directory, the optional credential
/// volume, the optional docker socket (with supplementary group when its
/// owning group is known), the optional SSH port publish, environment
/// directives, pass-through arguments (user extras first, then planned
/// mounts), the image, and the final command.
pub fn docker_run_args(s: &RuntimeSettings, final_cmd: &Vec<String>) -> (r: Vec<String>)
    ensures
        str_views(r@) == seq!["run"@, "-it"@] + (if s.keep {
            Seq::<Seq<char>>::empty()
        } else {
            seq!["--rm"@]
        }) + seq![
            "--name"@,
            s.name@,
            "-v"@,
            s.project_dir@ + ":/project"@,
            "-w"@,
            "/project"@,
        ] + (if s.with_agent_auth {
            seq![
                "--mount"@,
                "type=volume,src="@ + s.agent_auth_volume@ + ",dst=/home/dev/.agent-auth"@,
            ]
        } else {
            Seq::<Seq<char>>::empty()
        }) + (match s.docker_sock {
            Some(sock) => seq!["-v"@, sock@ + ":/var/run/docker.sock"@] + (
            match s.docker_sock_gid {
                Some(g) => seq!["--group-add"@, dec_rep(g as nat)],
                None => Seq::<Seq<char>>::empty(),
            }),
            None => Seq::<Seq<char>>::empty(),
        }) + (match s.expose_ssh {
            Some(port) => seq!["-p"@, dec_rep(port as nat) + ":22"@],
            None => Seq::<Seq<char>>::empty(),
        }) + str_views(s.extra_env_args@) + str_views(s.extra_docker_args@) + seq![s.image@]
            + str_views(final_cmd@),
{
    let ghost p0 = seq!["run"@, "-it"@];
    let ghost p1 = p0 + (if s.keep {
        Seq::<Seq<char>>::empty()
    } else {
        seq!["--rm"@]
    });
    let ghost p2 = p1 + seq![
        "--name"@,
        s.name@,
        "-v"@,
        s.project_dir@ + ":/project"@,
        "-w"@,
        "/project"@,
    ];
    let ghost p3 = p2 + (if s.with_agent_auth {
        seq![
            "--mount"@,
            "type=volume,src="@ + s.agent_auth_volume@ + ",dst=/home/dev/.agent-auth"@,
        ]
    } else {
        Seq::<Seq<char>>::empty()
    });
    let ghost p4 = p3 + (match &s.docker_sock {
        Some(sock) => seq!["-v"@, sock@ + ":/var/run/docker.sock"@] + (match s.docker_sock_gid {
            Some(g) => seq!["--group-add"@, dec_rep(g as nat)],
            None => Seq::<Seq<char>>::empty(),
        }),
        None => Seq::<Seq<char>>::empty(),
    });
    let ghost p5 = p4 + (match s.expose_ssh {
        Some(port) => seq!["-p"@, dec_rep(port as nat) + ":22"@],
        None => Seq::<Seq<char>>::empty(),
    });
    let ghost p6 = p5 + str_views(s.extra_env_args@);
    let ghost p7 = p6 + str_views(s.extra_docker_args@);
    let ghost p8 = p7 + seq![s.image@];

    let mut r: Vec<String> = Vec::new();
    r.push("run".to_owned());
    r.push("-it".to_owned());
    if !s.keep {
        r.push("--rm".to_owned());
    }
    proof {
        assert(str_views(r@) =~= p1);
    }
    r.push("--name".to_owned());
    r.push(s.name.clone());
    r.push("-v".to_owned());
    r.push(concat2(s.project_dir.as_str(), ":/project"));
    r.push("-w".to_owned());
    r.push("/project".to_owned());
    proof {
        assert(str_views(r@) =~= p2);
    }
    if s.with_agent_auth {
        r.push("--mount".to_owned());
        r.push(concat3("type=volume,src=", s.agent_auth_volume.as_str(), ",dst=/home/dev/.agent-auth"));
    }
    proof {
        assert(str_views(r@) =~= p3);
    }
    match &s.docker_sock {
        Some(sock) => {
            r.push("-v".to_owned());
            r.push(concat2(sock.as_str(), ":/var/run/docker.sock"));
            match s.docker_sock_gid {
                Some(g) => {
                    r.push("--group-add".to_owned());
                    r.push(u32_to_decimal(g));
                },
                None => {},
            }
        },
        None => {},
    }
    proof {
        assert(str_views(r@) =~= p4);
    }
    match s.expose_ssh {
        Some(port) => {
            r.push("-p".to_owned());
            let mut publish = String::new();
            crate::textfmt::push_decimal_u32(&mut publish, port as u32);
            publish.append(":22");
            proof {
                assert(publish@ =~= dec_rep(port as nat) + ":22"@);
            }
            r.push(publish);
        },
        None => {},
    }
    proof {
        assert(str_views(r@) =~= p5);
    }
    let mut i: usize = 0;
    while i < s.extra_env_args.len()
        invariant
            0 <= i <= s.extra_env_args@.len(),
            str_views(r@) == p5 + str_views(s.extra_env_args@.take(i as int)),
        decreases s.extra_env_args@.len() - i,
    {
        let ghost prev = r@;
        r.push(s.extra_env_args[i].clone());
        proof {
            assert(str_views(r@) =~= str_views(prev).push(s.extra_env_args@[i as int]@));
            assert(str_views(s.extra_env_args@.take(i + 1)) =~= str_views(
                s.extra_env_args@.take(i as int),
            ).push(s.extra_env_args@[i as int]@));
            assert(str_views(r@) =~= p5 + str_views(s.extra_env_args@.take(i + 1)));
        }
        i += 1;
    }
    proof {
        assert(s.extra_env_args@.take(s.extra_env_args@.len() as int) =~= s.extra_env_args@);
        assert(str_views(r@) =~= p6);
    }
    let mut j: usize = 0;
    while j < s.extra_docker_args.len()
        invariant
            0 <= j <= s.extra_docker_args@.len(),
            str_views(r@) == p6 + str_views(s.extra_docker_args@.take(j as int)),
        decreases s.extra_docker_args@.len() - j,
    {
        let ghost prev = r@;
        r.push(s.extra_docker_args[j].clone());
        proof {
            assert(str_views(r@) =~= str_views(prev).push(s.extra_docker_args@[j as int]@));
            assert(str_views(s.extra_docker_args@.take(j + 1)) =~= str_views(
                s.extra_docker_args@.take(j as int),
            ).push(s.extra_docker_args@[j as int]@));
            assert(str_views(r@) =~= p6 + str_views(s.extra_docker_args@.take(j + 1)));
        }
        j += 1;
    }
    proof {
        assert(s.extra_docker_args@.take(s.extra_docker_args@.len() as int)
            =~= s.extra_docker_args@);
        assert(str_views(r@) =~= p7);
    }
    r.push(s.image.clone());
    proof {
        assert(str_views(r@) =~= p8);
    }
    let mut k: usize = 0;
    while k < final_cmd.len()
        invariant
            0 <= k <= final_cmd@.len(),
            str_views(r@) == p8 + str_views(final_cmd@.take(k as int)),
        decreases final_cmd@.len() - k,
    {
        let ghost prev = r@;
        r.push(final_cmd[k].clone());
        proof {
            assert(str_views(r@) =~= str_views(prev).push(final_cmd@[k as int]@));
            assert(str_views(final_cmd@.take(k + 1)) =~= str_views(final_cmd@.take(k as int)).push(
                final_cmd@[k as int]@,
            ));
            assert(str_views(r@) =~= p8 + str_views(final_cmd@.take(k + 1)));
        }
        k += 1;
    }
    proof {
        assert(final_cmd@.take(final_cmd@.len() as int) =~= final_cmd@);
        assert(str_views(r@) =~= p8 + str_views(final_cmd@));
    }
    r
}

} // verus!

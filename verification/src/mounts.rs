//! Mount planning: turning auth/feature switches into concrete bind-mount
//! directives, with a per-mount presence policy. A source that exists but is
//! not a directory always fails, whatever the policy: it indicates host
//! misconfiguration rather than absence.

use vstd::prelude::*;

use crate::errors::LaunchError;
use crate::resolve::FsNode;
use crate::textfmt::{concat2, concat3, concat4, str_views};

verus! {

/// Whether a missing mount source is fatal or only worth a warning.
#[derive(PartialEq, Eq, Structural, Clone, Copy, Debug)]
pub enum Requiredness {
    /// A missing source fails the launch.
    Required,
    /// A missing source is skipped with a warning.
    OptionalWarn,
}

/// One planned bind mount.
pub struct MountDirective {
    /// The host path to bind.
    pub host: String,
    /// The in-container path it appears at.
    pub container: String,
    /// The human-readable name used in messages.
    pub label: String,
    /// The presence policy the mount was planned under.
    pub required: Requiredness,
}

/// The outcome of planning one mount that did not fail.
pub enum MountOutcome {
    /// The source is a directory; the mount is applied.
    Mounted(MountDirective),
    /// The source is absent and the policy tolerates that; the directive is
    /// omitted and this warning is recorded.
    SkippedMissing(String),
}

/// A source that exists but is not a directory.
pub open spec fn not_dir(node: FsNode) -> bool {
    node == FsNode::RegularFile || node == FsNode::OtherKind
}

/// The warning recorded when an optional mount source is absent.
pub open spec fn skip_warning(label: Seq<char>, source: Seq<char>) -> Seq<char> {
    "davy: warning: "@ + label + " mount source not found at "@ + source + "; skipping."@
}

/// The error message for a mount that cannot be applied.
pub open spec fn mount_fail_msg(label: Seq<char>, source: Seq<char>, node: FsNode) -> Seq<char> {
    if not_dir(node) {
        label + " mount source is not a directory: "@ + source
    } else {
        label + " mount source not found: "@ + source
    }
}

/// A mount that can neither be applied nor skipped under its policy.
pub open spec fn mount_blocked(node: FsNode, allow_missing: bool) -> bool {
    !(node == FsNode::Directory || (node == FsNode::Missing && allow_missing))
}

/// Plans one bind mount. A directory source is mounted; a missing source is
/// skipped with a warning when the policy allows and fails otherwise; a
/// source of any other kind fails regardless of the policy.
pub fn plan_one_mount(
    source: String,
    target: &str,
    label: &str,
    node: FsNode,
    allow_missing: bool,
) -> (r: Result<MountOutcome, LaunchError>)
    ensures
        node == FsNode::Directory ==> (r matches Ok(MountOutcome::Mounted(d)) && d.host@
            == source@ && d.container@ == target@ && d.label@ == label@ && d.required == (
        if allow_missing {
            Requiredness::OptionalWarn
        } else {
            Requiredness::Required
        })),
        not_dir(node) ==> (r matches Err(e) && e.is_validation_with(
            mount_fail_msg(label@, source@, node),
        )),
        node == FsNode::Missing && allow_missing ==> (r matches Ok(
            MountOutcome::SkippedMissing(w),
        ) && w@ == skip_warning(label@, source@)),
        node == FsNode::Missing && !allow_missing ==> (r matches Err(e) && e.is_validation_with(
            mount_fail_msg(label@, source@, node),
        )),
{
    match node {
        FsNode::Directory => Ok(
            MountOutcome::Mounted(
                MountDirective {
                    host: source,
                    container: target.to_owned(),
                    label: label.to_owned(),
                    required: if allow_missing {
                        Requiredness::OptionalWarn
                    } else {
                        Requiredness::Required
                    },
                },
            ),
        ),
        FsNode::RegularFile | FsNode::OtherKind => Err(
            LaunchError::Validation(
                concat3(label, " mount source is not a directory: ", source.as_str()),
            ),
        ),
        FsNode::Missing => {
            if allow_missing {
                let mut w = concat4(
                    "davy: warning: ",
                    label,
                    " mount source not found at ",
                    source.as_str(),
                );
                w.append("; skipping.");
                Ok(MountOutcome::SkippedMissing(w))
            } else {
                Err(
                    LaunchError::Validation(
                        concat3(label, " mount source not found: ", source.as_str()),
                    ),
                )
            }
        },
    }
}

/// The `-v` argument value binding a host path into the container.
pub open spec fn bind_arg(source: Seq<char>, target: Seq<char>) -> Seq<char> {
    source + ":"@ + target
}

/// The host source paths of the standard mounts.
pub open spec fn pi_source(home: Seq<char>) -> Seq<char> {
    home + "/.pi/agent"@
}

pub open spec fn codex_source(home: Seq<char>) -> Seq<char> {
    home + "/.codex"@
}

pub open spec fn gemini_source(home: Seq<char>) -> Seq<char> {
    home + "/.gemini"@
}

pub open spec fn skills_source(home: Seq<char>) -> Seq<char> {
    home + "/.agents/skills"@
}

/// The runtime-argument contribution of one applied mount.
pub open spec fn vol_part(on: bool, source: Seq<char>, target: Seq<char>) -> Seq<Seq<char>> {
    if on {
        seq!["-v"@, bind_arg(source, target)]
    } else {
        Seq::empty()
    }
}

/// The warning contribution of one skipped mount.
pub open spec fn warn_part(on: bool, label: Seq<char>, source: Seq<char>) -> Seq<Seq<char>> {
    if on {
        seq![skip_warning(label, source)]
    } else {
        Seq::empty()
    }
}

/// Whether any planned mount fails, under the stated policies.
pub open spec fn mounts_blocked_any(
    with_pi: bool,
    with_codex: bool,
    with_gemini: bool,
    allow_missing_auth: bool,
    pi_node: FsNode,
    codex_node: FsNode,
    gemini_node: FsNode,
    skills_node: FsNode,
) -> bool {
    (with_pi && mount_blocked(pi_node, allow_missing_auth)) || (with_codex && mount_blocked(
        codex_node,
        allow_missing_auth,
    )) || (with_gemini && mount_blocked(gemini_node, allow_missing_auth)) || mount_blocked(
        skills_node,
        true,
    )
}

/// The message of the first mount that fails, in planning order.
pub open spec fn mounts_error_msg(
    with_pi: bool,
    with_codex: bool,
    with_gemini: bool,
    allow_missing_auth: bool,
    home: Seq<char>,
    pi_node: FsNode,
    codex_node: FsNode,
    gemini_node: FsNode,
    skills_node: FsNode,
) -> Seq<char> {
    if with_pi && mount_blocked(pi_node, allow_missing_auth) {
        mount_fail_msg("Pi auth"@, pi_source(home), pi_node)
    } else if with_codex && mount_blocked(codex_node, allow_missing_auth) {
        mount_fail_msg("Codex auth"@, codex_source(home), codex_node)
    } else if with_gemini && mount_blocked(gemini_node, allow_missing_auth) {
        mount_fail_msg("Gemini auth"@, gemini_source(home), gemini_node)
    } else {
        mount_fail_msg("agents skills"@, skills_source(home), skills_node)
    }
}

/// The `-v` contributions of the applied mounts, in planning order.
pub open spec fn mounts_volume_views(
    with_pi: bool,
    with_codex: bool,
    with_gemini: bool,
    home: Seq<char>,
    pi_node: FsNode,
    codex_node: FsNode,
    gemini_node: FsNode,
    skills_node: FsNode,
) -> Seq<Seq<char>> {
    vol_part(with_pi && pi_node == FsNode::Directory, pi_source(home), "/home/dev/.pi/agent"@)
        + vol_part(
        with_codex && codex_node == FsNode::Directory,
        codex_source(home),
        "/home/dev/.codex"@,
    ) + vol_part(
        with_gemini && gemini_node == FsNode::Directory,
        gemini_source(home),
        "/home/dev/.gemini"@,
    ) + vol_part(skills_node == FsNode::Directory, skills_source(home), "/home/dev/.agents/skills"@)
}

/// The environment directives injected by the applied mounts.
pub open spec fn mounts_env_views(with_codex: bool, codex_node: FsNode) -> Seq<Seq<char>> {
    if with_codex && codex_node == FsNode::Directory {
        seq!["-e"@, "CODEX_HOME=/home/dev/.codex"@]
    } else {
        Seq::empty()
    }
}

/// The warnings of the skipped mounts, in planning order.
pub open spec fn mounts_warning_views(
    with_pi: bool,
    with_codex: bool,
    with_gemini: bool,
    home: Seq<char>,
    pi_node: FsNode,
    codex_node: FsNode,
    gemini_node: FsNode,
    skills_node: FsNode,
) -> Seq<Seq<char>> {
    warn_part(with_pi && pi_node == FsNode::Missing, "Pi auth"@, pi_source(home)) + warn_part(
        with_codex && codex_node == FsNode::Missing,
        "Codex auth"@,
        codex_source(home),
    ) + warn_part(with_gemini && gemini_node == FsNode::Missing, "Gemini auth"@, gemini_source(home))
        + (if skills_node == FsNode::Missing {
        seq![
            skip_warning("agents skills"@, skills_source(home)),
            "davy: warning: continuing without host skills mount."@,
        ]
    } else {
        Seq::empty()
    })
}

/// The planned mounts: runtime arguments, environment directives injected by
/// mounts, and warnings for everything skipped, all in planning order.
pub struct MountPlan {
    /// `-v` flag/value pairs, in the order pi, codex, gemini, skills.
    pub volume_args: Vec<String>,
    /// `-e` flag/value pairs injected by mounts (the codex configuration
    /// root).
    pub env_args: Vec<String>,
    /// One warning per skipped mount; a skipped skills mount adds a second,
    /// summarizing one.
    pub warnings: Vec<String>,
}

/// Plans the auth mounts and the skills mount in their fixed order. Enabled
/// auth mounts are required unless `allow_missing_auth` downgrades them to
/// warn-and-skip; the skills mount is always optional. The first mount that
/// can neither be applied nor skipped decides the error.
#[verifier::rlimit(50)]
pub fn plan_auth_mounts(
    with_pi: bool,
    with_codex: bool,
    with_gemini: bool,
    allow_missing_auth: bool,
    home: &String,
    pi_node: FsNode,
    codex_node: FsNode,
    gemini_node: FsNode,
    skills_node: FsNode,
) -> (r: Result<MountPlan, LaunchError>)
    ensures
        mounts_blocked_any(
            with_pi,
            with_codex,
            with_gemini,
            allow_missing_auth,
            pi_node,
            codex_node,
            gemini_node,
            skills_node,
        ) ==> (r matches Err(e) && e.is_validation_with(
            mounts_error_msg(
                with_pi,
                with_codex,
                with_gemini,
                allow_missing_auth,
                home@,
                pi_node,
                codex_node,
                gemini_node,
                skills_node,
            ),
        )),
        !mounts_blocked_any(
            with_pi,
            with_codex,
            with_gemini,
            allow_missing_auth,
            pi_node,
            codex_node,
            gemini_node,
            skills_node,
        ) ==> (r matches Ok(plan) && str_views(plan.volume_args@) == mounts_volume_views(
            with_pi,
            with_codex,
            with_gemini,
            home@,
            pi_node,
            codex_node,
            gemini_node,
            skills_node,
        ) && str_views(plan.env_args@) == mounts_env_views(with_codex, codex_node) && str_views(
            plan.warnings@,
        ) == mounts_warning_views(
            with_pi,
            with_codex,
            with_gemini,
            home@,
            pi_node,
            codex_node,
            gemini_node,
            skills_node,
        )),
{
    let mut volume_args: Vec<String> = Vec::new();
    let mut env_args: Vec<String> = Vec::new();
    let mut warnings: Vec<String> = Vec::new();

    if with_pi {
        let source = concat2(home.as_str(), "/.pi/agent");
        match plan_one_mount(source, "/home/dev/.pi/agent", "Pi auth", pi_node, allow_missing_auth)
        {
            Ok(MountOutcome::Mounted(d)) => {
                volume_args.push("-v".to_owned());
                volume_args.push(concat3(d.host.as_str(), ":", d.container.as_str()));
            },
            Ok(MountOutcome::SkippedMissing(w)) => {
                warnings.push(w);
            },
            Err(e) => {
                return Err(e);
            },
        }
    }
    if with_codex {
        let source = concat2(home.as_str(), "/.codex");
        match plan_one_mount(source, "/home/dev/.codex", "Codex auth", codex_node, allow_missing_auth)
        {
            Ok(MountOutcome::Mounted(d)) => {
                volume_args.push("-v".to_owned());
                volume_args.push(concat3(d.host.as_str(), ":", d.container.as_str()));
                env_args.push("-e".to_owned());
                env_args.push("CODEX_HOME=/home/dev/.codex".to_owned());
            },
            Ok(MountOutcome::SkippedMissing(w)) => {
                warnings.push(w);
            },
            Err(e) => {
                return Err(e);
            },
        }
    }
    if with_gemini {
        let source = concat2(home.as_str(), "/.gemini");
        match plan_one_mount(
            source,
            "/home/dev/.gemini",
            "Gemini auth",
            gemini_node,
            allow_missing_auth,
        ) {
            Ok(MountOutcome::Mounted(d)) => {
                volume_args.push("-v".to_owned());
                volume_args.push(concat3(d.host.as_str(), ":", d.container.as_str()));
            },
            Ok(MountOutcome::SkippedMissing(w)) => {
                warnings.push(w);
            },
            Err(e) => {
                return Err(e);
            },
        }
    }
    {
        let source = concat2(home.as_str(), "/.agents/skills");
        match plan_one_mount(source, "/home/dev/.agents/skills", "agents skills", skills_node, true)
        {
            Ok(MountOutcome::Mounted(d)) => {
                volume_args.push("-v".to_owned());
                volume_args.push(concat3(d.host.as_str(), ":", d.container.as_str()));
            },
            Ok(MountOutcome::SkippedMissing(w)) => {
                warnings.push(w);
                warnings.push("davy: warning: continuing without host skills mount.".to_owned());
            },
            Err(e) => {
                return Err(e);
            },
        }
    }
    let plan = MountPlan { volume_args, env_args, warnings };
    proof {
        assert(str_views(plan.volume_args@) =~= vol_part(
            with_pi && pi_node == FsNode::Directory,
            pi_source(home@),
            "/home/dev/.pi/agent"@,
        ) + vol_part(
            with_codex && codex_node == FsNode::Directory,
            codex_source(home@),
            "/home/dev/.codex"@,
        ) + vol_part(
            with_gemini && gemini_node == FsNode::Directory,
            gemini_source(home@),
            "/home/dev/.gemini"@,
        ) + vol_part(
            skills_node == FsNode::Directory,
            skills_source(home@),
            "/home/dev/.agents/skills"@,
        ));
        assert(str_views(plan.env_args@) =~= (
        if with_codex && codex_node == FsNode::Directory {
            seq!["-e"@, "CODEX_HOME=/home/dev/.codex"@]
        } else {
            Seq::<Seq<char>>::empty()
        }));
        assert(str_views(plan.warnings@) =~= warn_part(
            with_pi && pi_node == FsNode::Missing,
            "Pi auth"@,
            pi_source(home@),
        ) + warn_part(
            with_codex && codex_node == FsNode::Missing,
            "Codex auth"@,
            codex_source(home@),
        ) + warn_part(
            with_gemini && gemini_node == FsNode::Missing,
            "Gemini auth"@,
            gemini_source(home@),
        ) + (
        if skills_node == FsNode::Missing {
            seq![
                skip_warning("agents skills"@, skills_source(home@)),
                "davy: warning: continuing without host skills mount."@,
            ]
        } else {
            Seq::<Seq<char>>::empty()
        }));
    }
    Ok(plan)
}

} // verus!

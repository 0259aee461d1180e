//! Launch-configuration composer for disposable containerized development
//! sandboxes.
//!
//! The library resolves a partially specified launch request into a fully
//! determined container invocation plan: it resolves the project directory and
//! the build-definition file on the host, aggregates and deduplicates SSH
//! public keys, plans bind mounts with per-mount presence policy, wraps the
//! user command in privileged bootstrap preludes, and composes the final
//! `docker build` / `docker run` argument vectors in a fixed order.
//!
//! All host observations (stat results, environment values, user ids) enter
//! through explicit parameters or narrow trusted wrappers, so every decision
//! the composer makes is a verified function of plain values.

use vstd::prelude::*;

pub mod compose;
pub mod errors;
pub mod keys;
pub mod mounts;
pub mod invoke;
pub mod resolve;
pub mod settings;
pub mod socket;
pub mod textfmt;

verus! {

/// Which top-level action a parsed command line asks for.
#[derive(PartialEq, Eq, Structural, Clone, Copy, Debug)]
pub enum Action {
    /// Delete the persistent credential volume and exit.
    ResetAgentAuthVolume,
    /// Resolve a launch request and run a sandbox container.
    LaunchSandbox,
}

/// Top-level dispatch: the credential-volume reset subcommand takes the place
/// of a sandbox launch; everything else is a launch.
pub fn try_main(reset_requested: bool) -> (action: Action)
    ensures
        action == (if reset_requested {
            Action::ResetAgentAuthVolume
        } else {
            Action::LaunchSandbox
        }),
{
    if reset_requested {
        Action::ResetAgentAuthVolume
    } else {
        Action::LaunchSandbox
    }
}

} // verus!

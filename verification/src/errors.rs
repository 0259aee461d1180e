//! Error model of the launcher. Every fatal failure is one of three kinds,
//! each carrying a finished human-readable message; warnings are not errors
//! and travel as plain strings in the plans that record them.

use vstd::prelude::*;

use crate::textfmt::{concat2, dec_rep_i32, push_decimal_i32};

verus! {

/// A fatal failure detected before or while invoking the container runtime.
#[derive(Debug)]
pub enum LaunchError {
    /// Missing or invalid inputs: unresolved paths, a missing build
    /// definition, an unusable environment setting.
    Configuration(String),
    /// A host precondition does not hold: a mount source of the wrong type,
    /// empty credential material.
    Validation(String),
    /// The container runtime itself failed or could not be invoked.
    ExternalCommand(String),
}

impl LaunchError {
    /// The message carried by the error, whatever its kind.
    pub open spec fn msg(self) -> Seq<char> {
        match self {
            LaunchError::Configuration(m) => m@,
            LaunchError::Validation(m) => m@,
            LaunchError::ExternalCommand(m) => m@,
        }
    }

    /// A configuration error with exactly this message.
    pub open spec fn is_configuration_with(self, m: Seq<char>) -> bool {
        self is Configuration && self.msg() == m
    }

    /// A validation error with exactly this message.
    pub open spec fn is_validation_with(self, m: Seq<char>) -> bool {
        self is Validation && self.msg() == m
    }

    /// An external-command error with exactly this message.
    pub open spec fn is_external_with(self, m: Seq<char>) -> bool {
        self is ExternalCommand && self.msg() == m
    }

    /// The message, for reporting.
    pub fn message(&self) -> (r: &String)
        ensures
            r@ == self.msg(),
    {
        match self {
            LaunchError::Configuration(m) => m,
            LaunchError::Validation(m) => m,
            LaunchError::ExternalCommand(m) => m,
        }
    }
}

/// The message of a failed external command: its exit code when the child
/// exited, or a signal-termination note when it did not.
pub open spec fn command_failure_msg(name: Seq<char>, code: Option<i32>) -> Seq<char> {
    match code {
        Some(c) => name + " exited with status code "@ + dec_rep_i32(c as int),
        None => name + " terminated by signal"@,
    }
}

/// The error reported when an external command ran but did not succeed.
pub fn command_failure(name: &str, code: Option<i32>) -> (r: LaunchError)
    ensures
        r.is_external_with(command_failure_msg(name@, code)),
{
    match code {
        Some(c) => {
            let mut m = concat2(name, " exited with status code ");
            push_decimal_i32(&mut m, c);
            LaunchError::ExternalCommand(m)
        },
        None => LaunchError::ExternalCommand(concat2(name, " terminated by signal")),
    }
}

/// What the process should do once the sandbox container has exited.
#[derive(PartialEq, Eq, Structural, Clone, Copy, Debug)]
pub enum RunOutcome {
    /// The container exited successfully; finish normally.
    Success,
    /// The container exited with this non-zero code; propagate it unchanged.
    ExitCode(i32),
    /// The container was terminated by a signal; report an internal failure.
    SignalFailure,
}

/// Maps the observed exit status of the sandbox run onto the action the
/// launcher owes its caller: success passes through, a code is propagated
/// exactly, and termination by signal is a failure without a code.
pub fn run_status_outcome(success: bool, code: Option<i32>) -> (r: RunOutcome)
    ensures
        success ==> r == RunOutcome::Success,
        !success ==> match code {
            Some(c) => r == RunOutcome::ExitCode(c),
            None => r == RunOutcome::SignalFailure,
        },
{
    if success {
        RunOutcome::Success
    } else {
        match code {
            Some(c) => RunOutcome::ExitCode(c),
            None => RunOutcome::SignalFailure,
        }
    }
}

/// The message reported when the sandbox run ends by signal.
pub fn run_signal_failure() -> (r: LaunchError)
    ensures
        r.is_external_with("docker run terminated by signal"@),
{
    LaunchError::ExternalCommand("docker run terminated by signal".to_owned())
}

} // verus!

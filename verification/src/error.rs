//! The kinds of failure, across the parts of the host.

use crate::host::HostError;
use crate::plan::{ApplyFault, PlanError, PlanState};
use crate::resolver::{ResolveError, VersionFault};
use crate::sandbox::SandboxError;
use crate::text::{decimal, decimal_text, owned};
use vstd::prelude::*;

verus! {

/// What went wrong, whatever part reported it.
#[derive(Debug, Clone, Copy, PartialEq, Eq, Structural)]
pub enum ErrorKind {
    /// An extension, a version or an entry point is not there.
    NotFound,
    /// A version is not the one that is asked for or declared.
    VersionMismatch,
    /// A path lies outside the sandbox.
    AccessDenied,
    /// A proposal names a path outside the sandbox.
    ProposalOutOfSandbox,
    /// Two proposals ask for different things at one path.
    ConflictingProposals,
    /// The script failed while it ran.
    ExtensionRuntimeError,
    /// A proposal failed while the plan was applied.
    ApplyFailed,
    /// The working tree holds changes that are not committed.
    DirtyWorkingTree,
    /// A text could not be read as what it should be.
    InvalidInput,
    /// The operator did not accept the plan.
    Declined,
    /// A step was tried in a state that does not allow it.
    InvalidState,
}

impl ResolveError {
    /// The kind of the failure.
    pub fn kind(&self) -> (k: ErrorKind)
        ensures
            k == match self {
                ResolveError::NoVersionsInstalled { .. } => ErrorKind::NotFound,
                ResolveError::InvalidConstraint { .. } => ErrorKind::InvalidInput,
            },
    {
        match self {
            ResolveError::NoVersionsInstalled { .. } => ErrorKind::NotFound,
            ResolveError::InvalidConstraint { .. } => ErrorKind::InvalidInput,
        }
    }
}

impl VersionFault {
    /// The kind of the failure.
    pub fn kind(&self) -> (k: ErrorKind)
        ensures
            k == match self {
                VersionFault::Incomparable { .. } => ErrorKind::InvalidInput,
                _ => ErrorKind::VersionMismatch,
            },
    {
        match self {
            VersionFault::Incomparable { .. } => ErrorKind::InvalidInput,
            _ => ErrorKind::VersionMismatch,
        }
    }
}

impl SandboxError {
    /// The kind of the failure.
    pub fn kind(&self) -> (k: ErrorKind)
        ensures
            k == ErrorKind::AccessDenied,
    {
        ErrorKind::AccessDenied
    }
}

impl HostError {
    /// The kind of the failure.
    pub fn kind(&self) -> (k: ErrorKind)
        ensures
            k == match self {
                HostError::ExtensionRuntimeError { .. } => ErrorKind::ExtensionRuntimeError,
                _ => ErrorKind::NotFound,
            },
    {
        match self {
            HostError::ExtensionRuntimeError { .. } => ErrorKind::ExtensionRuntimeError,
            _ => ErrorKind::NotFound,
        }
    }
}

/// The name of a state of a plan.
pub open spec fn state_name(state: PlanState) -> Seq<char> {
    match state {
        PlanState::Empty => "empty"@,
        PlanState::Populated => "populated"@,
        PlanState::Validated => "validated"@,
        PlanState::Applied => "applied"@,
        PlanState::Discarded => "discarded"@,
    }
}

/// The words for a fault.
pub open spec fn fault_text(fault: ApplyFault) -> Seq<char> {
    match fault {
        ApplyFault::AlreadyExists => "the file exists already"@,
        ApplyFault::Missing => "the file does not exist"@,
        ApplyFault::CommandFailed => "the command failed"@,
    }
}

impl PlanState {
    /// The name of the state.
    pub fn name(&self) -> (n: &'static str)
        ensures
            n@ == state_name(*self),
    {
        match self {
            PlanState::Empty => "empty",
            PlanState::Populated => "populated",
            PlanState::Validated => "validated",
            PlanState::Applied => "applied",
            PlanState::Discarded => "discarded",
        }
    }
}

impl ApplyFault {
    /// The words for the fault.
    pub fn text(&self) -> (t: &'static str)
        ensures
            t@ == fault_text(*self),
    {
        match self {
            ApplyFault::AlreadyExists => "the file exists already",
            ApplyFault::Missing => "the file does not exist",
            ApplyFault::CommandFailed => "the command failed",
        }
    }
}

impl PlanError {
    /// The kind of the failure.
    pub fn kind(&self) -> (k: ErrorKind)
        ensures
            k == match self {
                PlanError::ProposalOutOfSandbox { .. } => ErrorKind::ProposalOutOfSandbox,
                PlanError::ConflictingProposals { .. } => ErrorKind::ConflictingProposals,
                PlanError::ApplyFailed { .. } => ErrorKind::ApplyFailed,
                PlanError::DirtyWorkingTree => ErrorKind::DirtyWorkingTree,
                PlanError::Declined => ErrorKind::Declined,
                PlanError::WrongState { .. } => ErrorKind::InvalidState,
            },
    {
        match self {
            PlanError::ProposalOutOfSandbox { .. } => ErrorKind::ProposalOutOfSandbox,
            PlanError::ConflictingProposals { .. } => ErrorKind::ConflictingProposals,
            PlanError::ApplyFailed { .. } => ErrorKind::ApplyFailed,
            PlanError::DirtyWorkingTree => ErrorKind::DirtyWorkingTree,
            PlanError::Declined => ErrorKind::Declined,
            PlanError::WrongState { .. } => ErrorKind::InvalidState,
        }
    }

    /// The text shown to the operator: it names the proposal at fault by
    /// its place in the plan, counted from 0.
    pub open spec fn message_text(self) -> Seq<char> {
        match self {
            PlanError::ProposalOutOfSandbox { index, path } => "Proposal "@ + decimal(index as nat)
                + " is outside the sandbox: "@ + path@,
            PlanError::ConflictingProposals { first, second } => "Proposals "@ + decimal(
                first as nat,
            ) + " and "@ + decimal(second as nat) + " ask for different things at one path"@,
            PlanError::ApplyFailed { index, fault } => "Proposal "@ + decimal(index as nat)
                + " could not be applied: "@ + fault_text(fault),
            PlanError::DirtyWorkingTree =>
                "Working tree not clean. Commit or stash changes first, or use --allow-dirty."@,
            PlanError::Declined => "The plan was not accepted"@,
            PlanError::WrongState { state } => "The plan is "@ + state_name(state),
        }
    }

    /// Words the error for the operator.
    pub fn message(&self) -> (m: String)
        ensures
            m@ == self.message_text(),
    {
        match self {
            PlanError::ProposalOutOfSandbox { index, path } => {
                let mut m = owned("Proposal ");
                m.append(decimal_text(*index).as_str());
                m.append(" is outside the sandbox: ");
                m.append(path.as_str());
                m
            },
            PlanError::ConflictingProposals { first, second } => {
                let mut m = owned("Proposals ");
                m.append(decimal_text(*first).as_str());
                m.append(" and ");
                m.append(decimal_text(*second).as_str());
                m.append(" ask for different things at one path");
                m
            },
            PlanError::ApplyFailed { index, fault } => {
                let mut m = owned("Proposal ");
                m.append(decimal_text(*index).as_str());
                m.append(" could not be applied: ");
                m.append(fault.text());
                m
            },
            PlanError::DirtyWorkingTree => owned(
                "Working tree not clean. Commit or stash changes first, or use --allow-dirty.",
            ),
            PlanError::Declined => owned("The plan was not accepted"),
            PlanError::WrongState { state } => {
                let mut m = owned("The plan is ");
                m.append(state.name());
                m
            },
        }
    }
}

} // verus!

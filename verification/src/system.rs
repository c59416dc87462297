//! What the probes of the system report to an extension. The probes
//! themselves are run by the caller; they change nothing.

use crate::text::{owned, trim, trimmed};
use vstd::prelude::*;

verus! {

/// How the attempt to ask a command for its version ended.
#[derive(Debug)]
pub enum ProbeOutcome {
    /// The command ran and ended well.
    Succeeded { stdout: String },
    /// The command ran and ended badly.
    Failed { stderr: String },
    /// The command could not be started.
    NotStarted { error: String },
}

/// The flag that asks a command for its version where the extension names
/// none.
pub fn version_flag(flag: Option<String>) -> (chosen: String)
    ensures
        match flag {
            Some(f) => chosen == f,
            None => chosen@ == "--version"@,
        },
{
    match flag {
        Some(f) => f,
        None => owned("--version"),
    }
}

/// Whether a command counts as present: the lookup ran and ended well.
pub fn command_found(lookup: Option<bool>) -> (found: bool)
    ensures
        found == (lookup == Some(true)),
{
    match lookup {
        Some(ok) => ok,
        None => false,
    }
}

/// What an extension is told of a version probe.
pub open spec fn probe_text(command: Seq<char>, flag: Seq<char>, outcome: ProbeOutcome) -> Seq<char> {
    match outcome {
        ProbeOutcome::Succeeded { stdout } => trimmed(stdout@),
        ProbeOutcome::Failed { stderr } => "(error) "@ + trimmed(stderr@),
        ProbeOutcome::NotStarted { error } => "(failed to run '"@ + command + " "@ + flag + "': "@
            + error@ + ")"@,
    }
}

/// Words the outcome of a version probe for the extension.
pub fn describe_probe(command: &str, flag: &str, outcome: &ProbeOutcome) -> (text: String)
    ensures
        text@ == probe_text(command@, flag@, *outcome),
{
    match outcome {
        ProbeOutcome::Succeeded { stdout } => trim(stdout.as_str()),
        ProbeOutcome::Failed { stderr } => {
            let mut text = owned("(error) ");
            text.append(trim(stderr.as_str()).as_str());
            text
        },
        ProbeOutcome::NotStarted { error } => {
            let mut text = owned("(failed to run '");
            text.append(command);
            text.append(" ");
            text.append(flag);
            text.append("': ");
            text.append(error.as_str());
            text.append(")");
            text
        },
    }
}

} // verus!

//! The commands of the tool and their flags, as plain values, and what each
//! command needs before it runs.

use crate::host::EntryPoint;
use crate::text::owned;
use vstd::prelude::*;

verus! {

/// The flags that every plugin command takes.
#[derive(Debug, Clone, Copy, PartialEq, Eq, Structural)]
pub struct CommonFlags {
    /// Accept the plan without asking.
    pub accept_all: bool,
    /// Go on where the working tree holds changes that are not committed.
    pub allow_dirty: bool,
}

/// What the tool is asked to do.
#[derive(Debug)]
#[allow(inconsistent_fields)]
pub enum Commands {
    Init { name: String, template: Option<String> },
    Install { plugin: Option<String>, version: Option<String> },
    Update { plugin: Option<String>, version: Option<String> },
    Plugin { plugin: String, command: PluginCommands },
}

/// What a plugin is asked to do.
#[derive(Debug)]
pub enum PluginCommands {
    Create { name: String, flags: CommonFlags },
    Extend { args: Vec<String>, flags: CommonFlags },
    Migrate { flags: CommonFlags },
    Info,
}

impl PluginCommands {
    /// The entry point of the extension that serves the command.
    pub fn entry_point(&self) -> (entry: EntryPoint)
        ensures
            entry == match self {
                PluginCommands::Create { .. } => EntryPoint::Create,
                PluginCommands::Extend { .. } => EntryPoint::Extend,
                PluginCommands::Migrate { .. } => EntryPoint::Migrate,
                PluginCommands::Info => EntryPoint::Info,
            },
    {
        match self {
            PluginCommands::Create { .. } => EntryPoint::Create,
            PluginCommands::Extend { .. } => EntryPoint::Extend,
            PluginCommands::Migrate { .. } => EntryPoint::Migrate,
            PluginCommands::Info => EntryPoint::Info,
        }
    }

    /// The flags of the command; `Info` changes nothing and has none.
    pub fn flags(&self) -> (flags: Option<CommonFlags>)
        ensures
            flags == match self {
                PluginCommands::Create { flags, .. } => Some(*flags),
                PluginCommands::Extend { flags, .. } => Some(*flags),
                PluginCommands::Migrate { flags } => Some(*flags),
                PluginCommands::Info => None,
            },
    {
        match self {
            PluginCommands::Create { flags, .. } => Some(*flags),
            PluginCommands::Extend { flags, .. } => Some(*flags),
            PluginCommands::Migrate { flags } => Some(*flags),
            PluginCommands::Info => None,
        }
    }
}

impl Commands {
    /// Tells whether the command works on a project that exists: every
    /// command but `Init` does.
    pub fn needs_project(&self) -> (r: bool)
        ensures
            r == !(self is Init),
    {
        match self {
            Commands::Init { .. } => false,
            _ => true,
        }
    }
}

/// What has to hold before a command runs: `Init` runs anywhere; every
/// other command runs in the root of a project, which holds the manifest,
/// and with the state of the project opened.
pub fn pre_command_checks(command: &Commands, manifest_exists: bool, db_connected: bool) -> (r:
    Result<(), String>)
    ensures
        command is Init ==> r is Ok,
        !(command is Init) && !manifest_exists ==> (r matches Err(m) && m@
            == "This command must be run inside a managed directory with 'monorepo.toml'"@),
        !(command is Init) && manifest_exists && !db_connected ==> (r matches Err(m) && m@
            == "Failed to connect to the DB"@),
        !(command is Init) && manifest_exists && db_connected ==> r is Ok,
{
    if !command.needs_project() {
        return Ok(());
    }
    if !manifest_exists {
        return Err(owned("This command must be run inside a managed directory with 'monorepo.toml'"));
    }
    if !db_connected {
        return Err(owned("Failed to connect to the DB"));
    }
    Ok(())
}

/// Whether the working tree counts as clean: neither the check of the
/// unstaged changes nor that of the staged ones found any. A check that
/// could not be run counts as clean.
pub fn working_tree_clean(unstaged: Option<bool>, staged: Option<bool>) -> (clean: bool)
    ensures
        clean == (unstaged != Some(false) && staged != Some(false)),
{
    let first = match unstaged {
        Some(ok) => ok,
        None => true,
    };
    let second = match staged {
        Some(ok) => ok,
        None => true,
    };
    first && second
}

} // verus!

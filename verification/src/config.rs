//! Settings of the tool and the manifest of a plugin, as plain values.

use crate::text::owned;
use vstd::prelude::*;

verus! {

/// The settings of the tool.
#[derive(Debug)]
pub struct Config {
    pub db_path: String,
}

/// Where the state of a project is kept, relative to its root.
pub open spec fn default_db_path() -> Seq<char> {
    ".apix/state.db"@
}

impl Config {
    /// The settings that the tool starts with.
    pub fn new() -> (config: Config)
        ensures
            config.db_path@ == default_db_path(),
    {
        Config { db_path: owned(".apix/state.db") }
    }
}

/// The settings of the tool.
pub fn get_config() -> (config: Config)
    ensures
        config.db_path@ == default_db_path(),
{
    Config::new()
}

/// The manifest of one version of a plugin.
#[derive(Debug)]
pub struct PluginConfig {
    pub name: String,
    pub version: String,
    pub description: String,
    pub supported: Supported,
}

/// What a plugin supports.
#[derive(Debug)]
pub struct Supported {
    pub actions: Vec<String>,
    pub languages: Vec<String>,
    pub features: Vec<String>,
}

/// Why the state of a project could not be opened.
#[derive(Debug)]
pub enum DbConnectError {
    ConnectError(String),
    AlreadyConnected,
}

impl DbConnectError {
    /// The text shown to the operator.
    pub open spec fn message_text(self) -> Seq<char> {
        match self {
            DbConnectError::ConnectError(why) => "Failed to connect to DB: "@ + why@,
            DbConnectError::AlreadyConnected => "DB is already connected"@,
        }
    }

    /// Words the error for the operator.
    pub fn message(&self) -> (m: String)
        ensures
            m@ == self.message_text(),
    {
        match self {
            DbConnectError::ConnectError(why) => {
                let mut m = owned("Failed to connect to DB: ");
                m.append(why.as_str());
                m
            },
            DbConnectError::AlreadyConnected => owned("DB is already connected"),
        }
    }
}

} // verus!

//! Extension host and staged-mutation engine.
//!
//! Extension scripts never touch the project tree. Every effect they ask for
//! is recorded as a proposal, the proposals of one invocation form a plan, and
//! a plan is validated against the sandbox before it is applied as a unit.

pub mod cli;
pub mod config;
pub mod error;
pub mod events;
pub mod file_tree;
pub mod host;
pub mod info;
pub mod internal_dir;
pub mod logger;
pub mod monorepo;
pub mod plan;
pub mod plugin;
pub mod plugin_ctx;
pub mod proposal;
pub mod resolver;
pub mod sandbox;
pub mod system;
pub mod text;
pub mod version;

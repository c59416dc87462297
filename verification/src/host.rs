//! The contract between the host and an extension: where the extension's
//! source lies, which entry points it must define, and how a call into it
//! ends. Running the script is the caller's part.

use crate::text::{owned, str_eq, texts};
use vstd::prelude::*;

verus! {

/// The four functions that an extension defines.
#[derive(Debug, Clone, Copy, PartialEq, Eq, Structural)]
pub enum EntryPoint {
    Create,
    Extend,
    Migrate,
    Info,
}

/// The name under which the script defines an entry point.
pub open spec fn entry_point_name(entry: EntryPoint) -> Seq<char> {
    match entry {
        EntryPoint::Create => "create"@,
        EntryPoint::Extend => "extend"@,
        EntryPoint::Migrate => "migrate"@,
        EntryPoint::Info => "info"@,
    }
}

/// The entry points in the order in which they are looked for.
pub open spec fn required_entry_points() -> Seq<EntryPoint> {
    seq![EntryPoint::Create, EntryPoint::Extend, EntryPoint::Migrate, EntryPoint::Info]
}

/// Why an extension could not be loaded or called.
#[derive(Debug)]
pub enum HostError {
    /// No source file lies where the extension's source is looked for.
    ExtensionNotFound { name: String, lua: String, luau: String },
    /// The script does not define the entry point.
    EntryPointMissing { name: String },
    /// The script failed while it ran.
    ExtensionRuntimeError { message: String },
}

impl EntryPoint {
    /// The name under which the script defines the entry point.
    pub fn name(&self) -> (name: &'static str)
        ensures
            name@ == entry_point_name(*self),
    {
        match self {
            EntryPoint::Create => "create",
            EntryPoint::Extend => "extend",
            EntryPoint::Migrate => "migrate",
            EntryPoint::Info => "info",
        }
    }
}

/// Tells whether the script exports a function of the given name. The list
/// stands for the set of the names in it: a name that occurs twice counts
/// once.
pub fn has_command(available_exports: &Vec<String>, command_name: &str) -> (r: bool)
    ensures
        r == texts(available_exports@).contains(command_name@),
{
    let mut i: usize = 0;
    while i < available_exports.len()
        invariant
            0 <= i <= available_exports@.len(),
            forall|k: int| 0 <= k < i ==> #[trigger] texts(available_exports@)[k] != command_name@,
        decreases available_exports@.len() - i,
    {
        if str_eq(available_exports[i].as_str(), command_name) {
            assert(texts(available_exports@)[i as int] == command_name@);
            return true;
        }
        i += 1;
    }
    false
}

/// The words that report a missing entry point.
pub open spec fn missing_export_text(plugin_name: Seq<char>, command: Seq<char>) -> Seq<char> {
    "Plugin '"@ + plugin_name + "' is missing required command '"@ + command + "'"@
}

/// The first of the required entry points, from the `from`-th on, that the
/// exports lack.
pub open spec fn first_missing(exports: Seq<Seq<char>>, from: int) -> Option<EntryPoint>
    decreases required_entry_points().len() - from,
{
    if from < 0 || from >= required_entry_points().len() {
        None
    } else if !exports.contains(entry_point_name(required_entry_points()[from])) {
        Some(required_entry_points()[from])
    } else {
        first_missing(exports, from + 1)
    }
}

/// Checks that the script exports all four entry points; the error names
/// the first one that is missing.
pub fn validate_required_exports(available_exports: &Vec<String>, plugin_name: &str) -> (r: Result<
    (),
    String,
>)
    ensures
        match first_missing(texts(available_exports@), 0) {
            None => r is Ok,
            Some(entry) => r matches Err(message) && message@ == missing_export_text(
                plugin_name@,
                entry_point_name(entry),
            ),
        },
{
    let required = [EntryPoint::Create, EntryPoint::Extend, EntryPoint::Migrate, EntryPoint::Info];
    let ghost exports = texts(available_exports@);
    let mut i: usize = 0;
    while i < 4
        invariant
            0 <= i <= 4,
            exports == texts(available_exports@),
            required@ == required_entry_points(),
            first_missing(exports, 0) == first_missing(exports, i as int),
        decreases 4 - i,
    {
        let entry = required[i];
        if !has_command(available_exports, entry.name()) {
            let mut message = owned("Plugin '");
            message.append(plugin_name);
            message.append("' is missing required command '");
            message.append(entry.name());
            message.append("'");
            return Err(message);
        }
        i += 1;
    }
    Ok(())
}

/// Checks that an entry point is defined before it is called.
pub fn check_entry_point(available_exports: &Vec<String>, entry: EntryPoint) -> (r: Result<
    (),
    HostError,
>)
    ensures
        texts(available_exports@).contains(entry_point_name(entry)) ==> r is Ok,
        !texts(available_exports@).contains(entry_point_name(entry)) ==> (r matches Err(
            HostError::EntryPointMissing { name },
        ) && name@ == entry_point_name(entry)),
{
    if has_command(available_exports, entry.name()) {
        Ok(())
    } else {
        Err(HostError::EntryPointMissing { name: owned(entry.name()) })
    }
}

/// What a call into the script comes to: the status that the script
/// returned, or the fault with the script's own words.
pub fn call_result(outcome: Result<i32, String>) -> (r: Result<i32, HostError>)
    ensures
        match outcome {
            Ok(status) => r == Ok::<i32, HostError>(status),
            Err(fault) => r matches Err(HostError::ExtensionRuntimeError { message }) && message
                == fault,
        },
{
    match outcome {
        Ok(status) => Ok(status),
        Err(message) => Err(HostError::ExtensionRuntimeError { message }),
    }
}

/// The directory of one version of an extension.
pub open spec fn extension_dir_text(root: Seq<char>, name: Seq<char>, version: Seq<char>) -> Seq<char> {
    root + "/"@ + name + "/"@ + version
}

/// The directory of one version of an extension: `root/name/version`.
pub fn extension_dir(root: &str, name: &str, version: &str) -> (dir: String)
    ensures
        dir@ == extension_dir_text(root@, name@, version@),
{
    let mut dir = owned(root);
    dir.append("/");
    dir.append(name);
    dir.append("/");
    dir.append(version);
    dir
}

/// The directory in which an extension keeps its own data: `root/name/data`.
pub fn data_dir(root: &str, name: &str) -> (dir: String)
    ensures
        dir@ == root@ + "/"@ + name@ + "/data"@,
{
    let mut dir = owned(root);
    dir.append("/");
    dir.append(name);
    dir.append("/data");
    dir
}

/// The two places where the source of an extension may lie:
/// `root/name/version/name.lua` and `root/name/version/name.luau`.
pub fn source_candidates(root: &str, name: &str, version: &str) -> (found: (String, String))
    ensures
        found.0@ == extension_dir_text(root@, name@, version@) + "/"@ + name@ + ".lua"@,
        found.1@ == extension_dir_text(root@, name@, version@) + "/"@ + name@ + ".luau"@,
{
    let mut lua = extension_dir(root, name, version);
    lua.append("/");
    lua.append(name);
    let mut luau = lua.clone();
    lua.append(".lua");
    luau.append(".luau");
    (lua, luau)
}

/// Picks the source file of an extension: the `.lua` file where it exists,
/// else the `.luau` file, else none.
pub fn choose_source(name: &str, lua: String, lua_exists: bool, luau: String, luau_exists: bool) -> (r:
    Result<String, HostError>)
    ensures
        lua_exists ==> r == Ok::<String, HostError>(lua),
        !lua_exists && luau_exists ==> r == Ok::<String, HostError>(luau),
        !lua_exists && !luau_exists ==> (r matches Err(
            HostError::ExtensionNotFound { name: n, lua: a, luau: b },
        ) && n@ == name@ && a == lua && b == luau),
{
    if lua_exists {
        Ok(lua)
    } else if luau_exists {
        Ok(luau)
    } else {
        Err(HostError::ExtensionNotFound { name: owned(name), lua, luau })
    }
}

impl HostError {
    /// The text shown to the operator.
    pub open spec fn message_text(self) -> Seq<char> {
        match self {
            HostError::ExtensionNotFound { name, lua, luau } => "Plugin "@ + name@
                + " does not exist at either "@ + lua@ + " or "@ + luau@,
            HostError::EntryPointMissing { name } => "Function '"@ + name@ + "' not found in plugin"@,
            HostError::ExtensionRuntimeError { message } => message@,
        }
    }

    /// Words the error for the operator.
    pub fn message(&self) -> (m: String)
        ensures
            m@ == self.message_text(),
    {
        match self {
            HostError::ExtensionNotFound { name, lua, luau } => {
                let mut m = owned("Plugin ");
                m.append(name.as_str());
                m.append(" does not exist at either ");
                m.append(lua.as_str());
                m.append(" or ");
                m.append(luau.as_str());
                m
            },
            HostError::EntryPointMissing { name } => {
                let mut m = owned("Function '");
                m.append(name.as_str());
                m.append("' not found in plugin");
                m
            },
            HostError::ExtensionRuntimeError { message } => message.clone(),
        }
    }
}

} // verus!

//! The directories that the tool keeps under the home of the user.

use crate::text::{owned, str_eq};
use vstd::prelude::*;

verus! {

/// The directories of the tool: templates, migrations and plugins.
#[derive(Debug)]
pub struct InternalDir {
    templates_dir: String,
    migrations_dir: String,
    plugins_dir: String,
}

/// The directory of the tool under a home directory.
pub open spec fn tool_dir(home: Seq<char>) -> Seq<char> {
    home + "/.apix"@
}

/// The directory that a folder name stands for, if the name is known.
pub open spec fn folder_of(dir: InternalDir, folder: Seq<char>) -> Option<Seq<char>> {
    if folder == "templates"@ {
        Some(dir.templates())
    } else if folder == "migrations"@ {
        Some(dir.migrations())
    } else if folder == "plugins"@ {
        Some(dir.plugins())
    } else {
        None
    }
}

impl InternalDir {
    /// The directory of the templates.
    pub closed spec fn templates(self) -> Seq<char> {
        self.templates_dir@
    }

    /// The directory of the migrations.
    pub closed spec fn migrations(self) -> Seq<char> {
        self.migrations_dir@
    }

    /// The directory of the plugins.
    pub closed spec fn plugins(self) -> Seq<char> {
        self.plugins_dir@
    }

    /// The directories of the tool under the given home directory.
    pub fn under(home: &str) -> (dir: InternalDir)
        ensures
            dir.templates() == tool_dir(home@) + "/templates"@,
            dir.migrations() == tool_dir(home@) + "/migrations"@,
            dir.plugins() == tool_dir(home@) + "/plugins"@,
    {
        let mut base = owned(home);
        base.append("/.apix");
        let mut templates_dir = base.clone();
        templates_dir.append("/templates");
        let mut migrations_dir = base.clone();
        migrations_dir.append("/migrations");
        let mut plugins_dir = base;
        plugins_dir.append("/plugins");
        InternalDir { templates_dir, migrations_dir, plugins_dir }
    }

    /// The directory of the migrations.
    pub fn get_migrations_dir(&self) -> (dir: &String)
        ensures
            dir@ == self.migrations(),
    {
        &self.migrations_dir
    }

    /// The directory of the templates.
    pub fn get_templates_dir(&self) -> (dir: &String)
        ensures
            dir@ == self.templates(),
    {
        &self.templates_dir
    }

    /// The directory of the plugins.
    pub fn get_plugins_dir(&self) -> (dir: &String)
        ensures
            dir@ == self.plugins(),
    {
        &self.plugins_dir
    }

    /// The path of a file in one of the three folders, which are named
    /// `templates`, `migrations` and `plugins`. Any other folder name is an
    /// error.
    pub fn file_path(&self, folder: &str, file_name: &str) -> (r: Result<String, String>)
        ensures
            match folder_of(*self, folder@) {
                Some(dir) => r matches Ok(path) && path@ == dir + "/"@ + file_name@,
                None => r matches Err(message) && message@ == "Unknown folder: "@ + folder@,
            },
    {
        let base = if str_eq(folder, "templates") {
            &self.templates_dir
        } else if str_eq(folder, "migrations") {
            &self.migrations_dir
        } else if str_eq(folder, "plugins") {
            &self.plugins_dir
        } else {
            let mut message = owned("Unknown folder: ");
            message.append(folder);
            return Err(message);
        };
        let mut path = base.clone();
        path.append("/");
        path.append(file_name);
        Ok(path)
    }
}

} // verus!

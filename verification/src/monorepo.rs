//! The manifest of a project: what it holds and which plugins it asks for.

use crate::text::{distinct_names, names_are_distinct, optional_str, owned, str_eq, texts};
use vstd::prelude::*;

verus! {

/// The manifest of a project. Each list is keyed by the name in front, and
/// in a well-formed manifest no name occurs twice in a list.
#[derive(Debug)]
pub struct MonorepoConfig {
    pub repo: RepoConfig,
    pub projects: Vec<(String, ProjectConfig)>,
    pub packages: Vec<(String, PackageConfig)>,
    pub plugins: Vec<(String, PluginMeta)>,
}

/// What the project says of itself.
#[derive(Debug)]
pub struct RepoConfig {
    pub name: String,
    pub version: String,
    pub template: String,
}

/// One project of the repository: where it lies, its language, and what
/// each plugin may do in it.
#[derive(Debug)]
pub struct ProjectConfig {
    pub path: String,
    pub language: String,
    pub permissions: Vec<(String, Vec<String>)>,
}

/// One package of the repository: where it lies, its language, and what
/// each plugin may do in it.
#[derive(Debug)]
pub struct PackageConfig {
    pub path: String,
    pub language: String,
    pub permissions: Vec<(String, Vec<String>)>,
}

/// How a project asks for a plugin: by a version alone, or by a table that
/// holds the version.
#[derive(Debug)]
pub enum PluginMeta {
    Simple(String),
    Detailed { version: String },
}

impl PluginMeta {
    /// The version that is asked for.
    pub open spec fn version_text(self) -> Seq<char> {
        match self {
            PluginMeta::Simple(v) => v@,
            PluginMeta::Detailed { version } => version@,
        }
    }

    /// The version that is asked for.
    pub fn version(&self) -> (v: &str)
        ensures
            v@ == self.version_text(),
    {
        match self {
            PluginMeta::Simple(v) => v.as_str(),
            PluginMeta::Detailed { version } => version.as_str(),
        }
    }
}

impl MonorepoConfig {
    /// No project, no package and no plugin is named twice.
    pub open spec fn wf(&self) -> bool {
        &&& distinct_names(self.projects@)
        &&& distinct_names(self.packages@)
        &&& distinct_names(self.plugins@)
    }

    /// A manifest of the given parts, where no name occurs twice in a list;
    /// nothing where one does.
    pub fn new(
        repo: RepoConfig,
        projects: Vec<(String, ProjectConfig)>,
        packages: Vec<(String, PackageConfig)>,
        plugins: Vec<(String, PluginMeta)>,
    ) -> (made: Option<MonorepoConfig>)
        ensures
            made is Some <==> distinct_names(projects@) && distinct_names(packages@)
                && distinct_names(plugins@),
            made matches Some(config) ==> config.wf() && config.repo == repo && config.projects
                == projects && config.packages == packages && config.plugins == plugins,
    {
        if names_are_distinct(&projects) && names_are_distinct(&packages) && names_are_distinct(
            &plugins,
        ) {
            Some(MonorepoConfig { repo, projects, packages, plugins })
        } else {
            None
        }
    }

    /// Tells whether the manifest is well formed.
    pub fn is_well_formed(&self) -> (r: bool)
        ensures
            r == self.wf(),
    {
        names_are_distinct(&self.projects) && names_are_distinct(&self.packages)
            && names_are_distinct(&self.plugins)
    }

    /// The version of a plugin that the project asks for: that of the first
    /// entry under the plugin's name, which in a well-formed manifest is the
    /// only one. A plugin without an entry is not registered with the
    /// project.
    pub fn required_version(&self, plugin: &str) -> (found: Option<&str>)
        ensures
            match found {
                Some(v) => exists|i: int|
                    0 <= i < self.plugins@.len() && (#[trigger] self.plugins@[i]).0@ == plugin@
                        && v@ == self.plugins@[i].1.version_text() && forall|k: int|
                        0 <= k < i ==> (#[trigger] self.plugins@[k]).0@ != plugin@,
                None => forall|i: int|
                    0 <= i < self.plugins@.len() ==> (#[trigger] self.plugins@[i]).0@ != plugin@,
            },
            self.wf() ==> forall|i: int|
                0 <= i < self.plugins@.len() && (#[trigger] self.plugins@[i]).0@ == plugin@
                    ==> found is Some && found->0@ == self.plugins@[i].1.version_text(),
    {
        let mut i: usize = 0;
        while i < self.plugins.len()
            invariant
                0 <= i <= self.plugins@.len(),
                forall|k: int| 0 <= k < i ==> (#[trigger] self.plugins@[k]).0@ != plugin@,
            decreases self.plugins@.len() - i,
        {
            if str_eq(self.plugins[i].0.as_str(), plugin) {
                return Some(self.plugins[i].1.version());
            }
            i += 1;
        }
        None
    }
}

/// The template that a request stands for: no request and the request
/// `default` both stand for the default template.
pub open spec fn template_name(requested: Option<Seq<char>>, default: Seq<char>) -> Seq<char> {
    match requested {
        Some(name) => if name == "default"@ {
            default
        } else {
            name
        },
        None => default,
    }
}

/// Picks the template of a new project among the known ones. The error
/// names the template that is not known.
pub fn select_template(requested: Option<&str>, default: &str, templates: &Vec<String>) -> (r: Result<
    String,
    String,
>)
    ensures
        match r {
            Ok(name) => name@ == template_name(optional_str(requested), default@) && texts(
                templates@,
            ).contains(name@),
            Err(message) => message@ == "Template '"@ + template_name(
                optional_str(requested),
                default@,
            ) + "' not found"@ && !texts(templates@).contains(
                template_name(optional_str(requested), default@),
            ),
        },
{
    let name = match requested {
        Some(name) => if str_eq(name, "default") {
            default
        } else {
            name
        },
        None => default,
    };
    let mut i: usize = 0;
    while i < templates.len()
        invariant
            0 <= i <= templates@.len(),
            name@ == template_name(optional_str(requested), default@),
            forall|k: int| 0 <= k < i ==> #[trigger] texts(templates@)[k] != name@,
        decreases templates@.len() - i,
    {
        if str_eq(templates[i].as_str(), name) {
            assert(texts(templates@)[i as int] == name@);
            return Ok(owned(name));
        }
        i += 1;
    }
    let mut message = owned("Template '");
    message.append(name);
    message.append("' not found");
    Err(message)
}

} // verus!

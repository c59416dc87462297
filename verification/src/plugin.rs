//! What a plugin declares of itself.

use crate::text::{distinct_names, names_are_distinct, owned, str_eq, texts};
use vstd::prelude::*;

verus! {

/// The version that a plugin declares, as three numbers.
#[derive(Debug, Clone, Copy, PartialEq, Eq, Structural)]
pub struct PluginVersion {
    pub major: u32,
    pub minor: u32,
    pub patch: u32,
}

/// Where a template keeps its projects and its packages.
#[derive(Debug, Clone)]
pub struct TemplatePaths {
    pub projects: String,
    pub packages: String,
}

/// The declaration of a plugin: its name and version, the templates it
/// brings, each under its name, and the commands it supports. In a
/// well-formed declaration no template is named twice; a command that is
/// listed twice counts once.
#[derive(Debug, Clone)]
pub struct PluginInfo {
    pub name: String,
    pub version: PluginVersion,
    pub monorepo_templates: Option<Vec<(String, TemplatePaths)>>,
    pub supports: Vec<String>,
}

impl PluginInfo {
    /// No template is named twice.
    pub open spec fn wf(&self) -> bool {
        self.monorepo_templates matches Some(list) ==> distinct_names(list@)
    }

    /// Tells whether the declaration is well formed.
    pub fn is_well_formed(&self) -> (r: bool)
        ensures
            r == self.wf(),
    {
        match &self.monorepo_templates {
            Some(list) => names_are_distinct(list),
            None => true,
        }
    }

    /// Tells whether the plugin supports a command.
    pub fn supports_command(&self, command: &str) -> (r: bool)
        ensures
            r == texts(self.supports@).contains(command@),
    {
        let mut i: usize = 0;
        while i < self.supports.len()
            invariant
                0 <= i <= self.supports@.len(),
                forall|k: int| 0 <= k < i ==> #[trigger] texts(self.supports@)[k] != command@,
            decreases self.supports@.len() - i,
        {
            if str_eq(self.supports[i].as_str(), command) {
                assert(texts(self.supports@)[i as int] == command@);
                return true;
            }
            i += 1;
        }
        false
    }

    /// The first template of the given name.
    pub fn template(&self, name: &str) -> (found: Option<&TemplatePaths>)
        ensures
            match self.monorepo_templates {
                Some(list) => is_first_template(list@, name@, found),
                None => found is None,
            },
            self.wf() && self.monorepo_templates is Some ==> forall|i: int|
                0 <= i < self.monorepo_templates->0@.len() && (
                #[trigger] self.monorepo_templates->0@[i]).0@ == name@ ==> found is Some
                    && *found->0 == self.monorepo_templates->0@[i].1,
    {
        match &self.monorepo_templates {
            Some(list) => find_template(list, name),
            None => None,
        }
    }
}

/// Why a plugin cannot set a project up from a template.
pub open spec fn template_refusal(info: PluginInfo, template: Seq<char>) -> Option<Seq<char>> {
    if !texts(info.supports@).contains("create_monorepo"@) || info.monorepo_templates is None {
        Some("Plugin does not support 'create_monorepo' command"@)
    } else if forall|i: int|
        0 <= i < info.monorepo_templates->0@.len() ==> (#[trigger] info.monorepo_templates->0@[i]).0@
            != template {
        Some("Plugin '"@ + info.name@ + "' does not support template '"@ + template + "'"@)
    } else {
        None
    }
}

impl PluginInfo {
    /// Checks that the plugin can set a project up from the given template:
    /// it must support `create_monorepo` and bring the template.
    pub fn check_template(&self, template: &str) -> (r: Result<(), String>)
        ensures
            match template_refusal(*self, template@) {
                Some(message) => r matches Err(m) && m@ == message,
                None => r is Ok,
            },
    {
        if !self.supports_command("create_monorepo") || self.monorepo_templates.is_none() {
            return Err(owned("Plugin does not support 'create_monorepo' command"));
        }
        if self.template(template).is_none() {
            let mut message = owned("Plugin '");
            message.append(self.name.as_str());
            message.append("' does not support template '");
            message.append(template);
            message.append("'");
            return Err(message);
        }
        Ok(())
    }
}

/// `found` is the first template of the given name in the list, or nothing
/// where the list holds none of that name.
pub open spec fn is_first_template(
    list: Seq<(String, TemplatePaths)>,
    name: Seq<char>,
    found: Option<&TemplatePaths>,
) -> bool {
    match found {
        Some(paths) => exists|i: int|
            0 <= i < list.len() && (#[trigger] list[i]).0@ == name && list[i].1 == *paths
                && forall|k: int| 0 <= k < i ==> (#[trigger] list[k]).0@ != name,
        None => forall|i: int| 0 <= i < list.len() ==> (#[trigger] list[i]).0@ != name,
    }
}

/// Looks a template up by its name.
pub fn find_template<'a>(list: &'a Vec<(String, TemplatePaths)>, name: &str) -> (found: Option<
    &'a TemplatePaths,
>)
    ensures
        is_first_template(list@, name@, found),
{
    let mut i: usize = 0;
    while i < list.len()
        invariant
            0 <= i <= list@.len(),
            forall|k: int| 0 <= k < i ==> (#[trigger] list@[k]).0@ != name@,
        decreases list@.len() - i,
    {
        if str_eq(list[i].0.as_str(), name) {
            return Some(&list[i].1);
        }
        i += 1;
    }
    None
}

} // verus!

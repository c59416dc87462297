//! Choosing the installed version that answers a requested one.

use crate::text::{owned, str_eq, texts};
use crate::version::{
    check_plugin_version, parses_to, plugin_version_check, semver_parse, sort_versions,
    version_order, views,
    SemVer, SemVerView, VersionCheck,
};
use vstd::prelude::*;

verus! {

/// Why no version could be chosen.
#[derive(Debug)]
pub enum ResolveError {
    /// Nothing is installed under the plugin's name.
    NoVersionsInstalled { plugin: String },
    /// The requested text is neither `*` nor a semantic version.
    InvalidConstraint { text: String },
}

/// `chosen` is the greatest of `installed`.
pub open spec fn is_greatest(installed: Seq<SemVerView>, chosen: SemVerView) -> bool {
    forall|i: int| 0 <= i < installed.len() ==> version_order(#[trigger] installed[i], chosen) <= 0
}

/// `chosen` is the smallest of the installed versions above `requested`.
pub open spec fn is_next_higher(
    installed: Seq<SemVerView>,
    requested: SemVerView,
    chosen: SemVerView,
) -> bool {
    &&& version_order(chosen, requested) > 0
    &&& forall|i: int|
        0 <= i < installed.len() && version_order(#[trigger] installed[i], requested) > 0
            ==> version_order(chosen, installed[i]) <= 0
}

/// `chosen` is the greatest of the installed versions below `requested`.
pub open spec fn is_next_lower(
    installed: Seq<SemVerView>,
    requested: SemVerView,
    chosen: SemVerView,
) -> bool {
    &&& version_order(chosen, requested) < 0
    &&& forall|i: int|
        0 <= i < installed.len() && version_order(#[trigger] installed[i], requested) < 0
            ==> version_order(installed[i], chosen) <= 0
}

/// Some installed version is above `requested`.
pub open spec fn has_higher(installed: Seq<SemVerView>, requested: SemVerView) -> bool {
    exists|i: int| 0 <= i < installed.len() && version_order(#[trigger] installed[i], requested) > 0
}

/// The rule by which a version is chosen. Without a requested version the
/// greatest installed one is taken. A requested version that is installed is
/// taken as it is. Otherwise the nearest higher one is taken, and the nearest
/// lower one where none is higher.
pub open spec fn is_selected(
    requested: Option<SemVerView>,
    installed: Seq<SemVerView>,
    chosen: SemVerView,
) -> bool {
    &&& installed.contains(chosen)
    &&& match requested {
        None => is_greatest(installed, chosen),
        Some(wanted) => if installed.contains(wanted) {
            chosen == wanted
        } else if has_higher(installed, wanted) {
            is_next_higher(installed, wanted, chosen)
        } else {
            is_next_lower(installed, wanted, chosen)
        },
    }
}

proof fn lemma_same_members(a: Seq<SemVer>, b: Seq<SemVer>)
    requires
        a.to_multiset() == b.to_multiset(),
    ensures
        a.len() == b.len(),
        forall|i: int| 0 <= i < a.len() ==> views(b).contains(#[trigger] views(a)[i]),
{
    a.to_multiset_ensures();
    b.to_multiset_ensures();
    assert forall|i: int| 0 <= i < a.len() implies views(b).contains(#[trigger] views(a)[i]) by {
        assert(a.contains(a[i]));
        assert(b.to_multiset().count(a[i]) > 0);
        assert(b.contains(a[i]));
        let j = choose|j: int| 0 <= j < b.len() && b[j] == a[i];
        assert(views(b)[j] == views(a)[i]);
    }
}

/// Chooses among the installed versions; `None` for `requested` stands for
/// the wildcard. Nothing is chosen only where nothing is installed.
pub fn select_version(requested: Option<&SemVer>, installed: Vec<SemVer>) -> (chosen: Option<SemVer>)
    ensures
        chosen is None <==> installed@.len() == 0,
        chosen matches Some(v) ==> is_selected(
            match requested {
                Some(wanted) => Some(wanted@),
                None => None,
            },
            views(installed@),
            v@,
        ),
{
    let n = installed.len();
    if n == 0 {
        return None;
    }
    let ghost given = installed@;
    let mut sorted = installed;
    sort_versions(&mut sorted);
    proof {
        lemma_same_members(given, sorted@);
        lemma_same_members(sorted@, given);
    }
    match requested {
        None => {
            let v = sorted[n - 1].duplicate();
            proof {
                assert(views(sorted@)[n - 1] == v@);
                assert forall|i: int| 0 <= i < given.len() implies version_order(
                    #[trigger] views(given)[i],
                    v@,
                ) <= 0 by {
                    let j = choose|j: int|
                        0 <= j < views(sorted@).len() && views(sorted@)[j] == views(given)[i];
                    assert(version_order(sorted@[j]@, sorted@[n - 1]@) <= 0);
                }
            }
            Some(v)
        },
        Some(wanted) => {
            let mut same: Option<usize> = None;
            let mut higher: Option<usize> = None;
            let mut lower: Option<usize> = None;
            let mut i: usize = 0;
            while i < n
                invariant
                    0 <= i <= n,
                    n == sorted@.len(),
                    same matches Some(k) ==> k < i && sorted@[k as int]@ == wanted@,
                    same is None ==> forall|k: int|
                        0 <= k < i ==> (#[trigger] sorted@[k])@ != wanted@ && version_order(
                            sorted@[k]@,
                            wanted@,
                        ) != 0,
                    higher matches Some(k) ==> k < i && version_order(sorted@[k as int]@, wanted@) > 0
                        && forall|m: int|
                        0 <= m < k ==> version_order(#[trigger] sorted@[m]@, wanted@) <= 0,
                    higher is None ==> forall|m: int|
                        0 <= m < i ==> version_order(#[trigger] sorted@[m]@, wanted@) <= 0,
                    lower matches Some(k) ==> k < i && version_order(sorted@[k as int]@, wanted@) < 0
                        && forall|m: int|
                        k < m < i ==> version_order(#[trigger] sorted@[m]@, wanted@) >= 0,
                    lower is None ==> forall|m: int|
                        0 <= m < i ==> version_order(#[trigger] sorted@[m]@, wanted@) >= 0,
                decreases n - i,
            {
                let r = sorted[i].compare(wanted);
                if r == 0 {
                    if same.is_none() {
                        same = Some(i);
                    }
                } else if r > 0 {
                    if higher.is_none() {
                        higher = Some(i);
                    }
                } else {
                    lower = Some(i);
                }
                i += 1;
            }
            let ghost sv = views(sorted@);
            let ghost gv = views(given);
            proof {
                assert forall|m: int| 0 <= m < n implies #[trigger] sv[m] == sorted@[m]@ by {}
            }
            if let Some(k) = same {
                let v = sorted[k].duplicate();
                proof {
                    assert(sv[k as int] == v@);
                    assert(sv.contains(wanted@));
                    let j = choose|j: int| 0 <= j < gv.len() && gv[j] == sv[k as int];
                    assert(gv.contains(wanted@));
                }
                return Some(v);
            }
            proof {
                if gv.contains(wanted@) {
                    let j = choose|j: int| 0 <= j < gv.len() && gv[j] == wanted@;
                    let m = choose|m: int| 0 <= m < sv.len() && sv[m] == gv[j];
                    assert(sorted@[m]@ == wanted@);
                    assert(false);
                }
            }
            if let Some(k) = higher {
                let v = sorted[k].duplicate();
                proof {
                    assert(sv[k as int] == v@);
                    let j0 = choose|j: int| 0 <= j < gv.len() && gv[j] == sv[k as int];
                    assert(version_order(gv[j0], wanted@) > 0);
                    assert(has_higher(gv, wanted@));
                    assert forall|i: int|
                        0 <= i < gv.len() && version_order(#[trigger] gv[i], wanted@) > 0 implies version_order(
                        v@,
                        gv[i],
                    ) <= 0 by {
                        let m = choose|m: int| 0 <= m < sv.len() && sv[m] == gv[i];
                        assert(sorted@[m]@ == gv[i]);
                        assert(m >= k);
                        assert(version_order(sorted@[k as int]@, sorted@[m]@) <= 0);
                    }
                }
                return Some(v);
            }
            proof {
                if has_higher(gv, wanted@) {
                    let j = choose|j: int| 0 <= j < gv.len() && version_order(#[trigger] gv[j], wanted@) > 0;
                    let m = choose|m: int| 0 <= m < sv.len() && sv[m] == gv[j];
                    assert(version_order(sorted@[m]@, wanted@) <= 0);
                    assert(false);
                }
            }
            match lower {
                Some(k) => {
                    let v = sorted[k].duplicate();
                    proof {
                        assert(sv[k as int] == v@);
                        let j0 = choose|j: int| 0 <= j < gv.len() && gv[j] == sv[k as int];
                        assert forall|i: int|
                            0 <= i < gv.len() && version_order(#[trigger] gv[i], wanted@) < 0 implies version_order(
                            gv[i],
                            v@,
                        ) <= 0 by {
                            let m = choose|m: int| 0 <= m < sv.len() && sv[m] == gv[i];
                            assert(sorted@[m]@ == gv[i]);
                            assert(m <= k);
                            assert(version_order(sorted@[m]@, sorted@[k as int]@) <= 0);
                        }
                    }
                    Some(v)
                },
                None => {
                    proof {
                        // the first version is neither equal to the requested
                        // one, nor above it, nor below it
                        assert(version_order(sorted@[0]@, wanted@) != 0);
                        assert(version_order(sorted@[0]@, wanted@) <= 0);
                        assert(version_order(sorted@[0]@, wanted@) >= 0);
                    }
                    None
                },
            }
        },
    }
}

/// The versions that a list of directory names stands for: each name that
/// parses as a version, in the order of the names.
pub open spec fn parsed_names(names: Seq<Seq<char>>) -> Seq<SemVerView>
    decreases names.len(),
{
    if names.len() == 0 {
        Seq::empty()
    } else {
        match semver_parse(names.last()) {
            Ok(v) => parsed_names(names.drop_last()).push(v),
            Err(_) => parsed_names(names.drop_last()),
        }
    }
}

/// Reads the names of the version directories of a plugin; a name that is no
/// version is passed over.
pub fn installed_versions(names: &Vec<String>) -> (installed: Vec<SemVer>)
    ensures
        views(installed@) == parsed_names(texts(names@)),
{
    let mut installed: Vec<SemVer> = Vec::new();
    let mut i: usize = 0;
    assert(texts(names@).take(0) =~= Seq::<Seq<char>>::empty());
    while i < names.len()
        invariant
            0 <= i <= names@.len(),
            views(installed@) == parsed_names(texts(names@).take(i as int)),
        decreases names@.len() - i,
    {
        let ghost before = installed@;
        let parsed = SemVer::parse(names[i].as_str());
        proof {
            let t = texts(names@);
            assert(t.take(i + 1).drop_last() =~= t.take(i as int));
            assert(t.take(i + 1).last() == names@[i as int]@);
        }
        match parsed {
            Ok(v) => {
                installed.push(v);
                assert(views(installed@) =~= views(before).push(v@));
            },
            Err(_) => {},
        }
        i += 1;
    }
    assert(texts(names@).take(i as int) =~= texts(names@));
    installed
}

/// The version that answers `constraint` among the installed ones: `*`,
/// which is no version, asks for the greatest; a version asks for itself or
/// its nearest neighbour.
pub open spec fn selects(constraint: Seq<char>, installed: Seq<SemVerView>, chosen: SemVerView) -> bool {
    if constraint == "*"@ {
        is_selected(None, installed, chosen)
    } else {
        semver_parse(constraint) matches Ok(wanted) && is_selected(Some(wanted), installed, chosen)
    }
}

/// Why nothing is chosen. The installed set is looked at first: where it is
/// empty nothing else is tried.
pub open spec fn refuses(
    plugin_name: Seq<char>,
    constraint: Seq<char>,
    installed: Seq<SemVerView>,
    error: ResolveError,
) -> bool {
    match error {
        ResolveError::NoVersionsInstalled { plugin } => installed.len() == 0 && plugin@
            == plugin_name,
        ResolveError::InvalidConstraint { text } => installed.len() > 0 && constraint != "*"@
            && semver_parse(constraint) is Err && text@ == constraint,
    }
}

/// A version is chosen wherever something is installed and the constraint
/// can be read.
pub open spec fn resolvable(constraint: Seq<char>, installed: Seq<SemVerView>) -> bool {
    installed.len() > 0 && (constraint == "*"@ || semver_parse(constraint) is Ok)
}

/// Chooses the installed version of a plugin that answers `constraint`,
/// which is `*` or a semantic version. An exact match is returned as it is;
/// otherwise the nearest higher version, or the nearest lower one where none
/// is higher: the result need not be the requested version.
pub fn resolve(plugin_name: &str, constraint: &str, installed: Vec<SemVer>) -> (r: Result<
    SemVer,
    ResolveError,
>)
    ensures
        r is Ok <==> resolvable(constraint@, views(installed@)),
        match r {
            Ok(v) => views(installed@).contains(v@) && selects(constraint@, views(installed@), v@),
            Err(error) => refuses(plugin_name@, constraint@, views(installed@), error),
        },
        constraint@ == "*"@ ==> semver_parse(constraint@) is Err,
{
    let wanted = SemVer::parse(constraint);
    if installed.len() == 0 {
        return Err(ResolveError::NoVersionsInstalled { plugin: owned(plugin_name) });
    }
    let chosen = match wanted {
        Ok(version) => select_version(Some(&version), installed),
        Err(_) => {
            if str_eq(constraint, "*") {
                select_version(None, installed)
            } else {
                return Err(ResolveError::InvalidConstraint { text: owned(constraint) });
            }
        },
    };
    match chosen {
        Some(v) => Ok(v),
        None => Err(ResolveError::NoVersionsInstalled { plugin: owned(plugin_name) }),
    }
}

/// Chooses among the version directories that were found for a plugin.
pub fn resolve_installed(plugin_name: &str, constraint: &str, names: &Vec<String>) -> (r: Result<
    SemVer,
    ResolveError,
>)
    ensures
        r is Ok <==> resolvable(constraint@, parsed_names(texts(names@))),
        match r {
            Ok(v) => selects(constraint@, parsed_names(texts(names@)), v@),
            Err(error) => refuses(plugin_name@, constraint@, parsed_names(texts(names@)), error),
        },
        constraint@ == "*"@ ==> semver_parse(constraint@) is Err,
{
    resolve(plugin_name, constraint, installed_versions(names))
}

/// Every version that was read from the names was read from one of them.
pub proof fn lemma_parsed_name_has_source(names: Seq<Seq<char>>, v: SemVerView)
    requires
        parsed_names(names).contains(v),
    ensures
        exists|i: int| 0 <= i < names.len() && parses_to(#[trigger] names[i], v),
    decreases names.len(),
{
    let parsed = parsed_names(names);
    let k = choose|k: int| 0 <= k < parsed.len() && parsed[k] == v;
    if names.len() > 0 {
        let rest = names.drop_last();
        let last_is_v = semver_parse(names.last()) is Ok && k == parsed.len() - 1;
        if last_is_v {
            assert(parses_to(names[names.len() - 1], v));
        } else {
            assert(parsed_names(rest)[k] == v);
            lemma_parsed_name_has_source(rest, v);
            let i = choose|i: int| 0 <= i < rest.len() && parses_to(#[trigger] rest[i], v);
            assert(names[i] == rest[i]);
        }
    }
}

/// Chooses the version directory of a plugin to load. The directory that
/// comes out is one of the given names, and it names the chosen version.
pub fn resolve_directory(plugin_name: &str, constraint: &str, names: &Vec<String>) -> (r: Result<
    String,
    ResolveError,
>)
    ensures
        r is Ok <==> resolvable(constraint@, parsed_names(texts(names@))),
        match r {
            Ok(dir) => {
                &&& texts(names@).contains(dir@)
                &&& semver_parse(dir@) matches Ok(v)
                &&& selects(constraint@, parsed_names(texts(names@)), v)
            },
            Err(error) => refuses(plugin_name@, constraint@, parsed_names(texts(names@)), error),
        },
        constraint@ == "*"@ ==> semver_parse(constraint@) is Err,
{
    match resolve_installed(plugin_name, constraint, names) {
        Ok(v) => {
            let dir = v.to_text();
            proof {
                let all = texts(names@);
                assert(parsed_names(all).contains(v@));
                lemma_parsed_name_has_source(all, v@);
                let i = choose|i: int| 0 <= i < all.len() && parses_to(#[trigger] all[i], v@);
                assert(dir@ == all[i]);
            }
            Ok(dir)
        },
        Err(error) => Err(error),
    }
}

impl ResolveError {
    /// The text shown to the operator.
    pub open spec fn message_text(self) -> Seq<char> {
        match self {
            ResolveError::NoVersionsInstalled { plugin } => "No installed versions found for plugin '"@
                + plugin@ + "'"@,
            ResolveError::InvalidConstraint { text } => "Invalid version string '"@ + text@ + "'"@,
        }
    }

    /// Words the error for the operator.
    pub fn message(&self) -> (m: String)
        ensures
            m@ == self.message_text(),
    {
        match self {
            ResolveError::NoVersionsInstalled { plugin } => {
                let mut m = owned("No installed versions found for plugin '");
                m.append(plugin.as_str());
                m.append("'");
                m
            },
            ResolveError::InvalidConstraint { text } => {
                let mut m = owned("Invalid version string '");
                m.append(text.as_str());
                m.append("'");
                m
            },
        }
    }
}

/// Why an installed plugin may not be run for this project.
#[derive(Debug)]
pub enum VersionFault {
    /// The installed version is above the required one.
    PluginNewer,
    /// The installed version is below the required one.
    PluginOutdated,
    /// One of the two versions could not be read.
    Incomparable { message: String },
    /// The version that the plugin declares is not that of its directory.
    VersionMismatch,
}

impl VersionFault {
    /// The text shown to the operator.
    pub open spec fn message_text(
        self,
        plugin: Seq<char>,
        config_version: Seq<char>,
        resolved_version: Seq<char>,
        required_version: Seq<char>,
    ) -> Seq<char> {
        match self {
            VersionFault::PluginNewer => "Installed plugin '"@ + plugin + "' (v"@ + resolved_version
                + ") is newer than required '"@ + required_version + "'"@,
            VersionFault::PluginOutdated => "Installed plugin '"@ + plugin + "' (v"@
                + resolved_version + ") is older than required '"@ + required_version + "'"@,
            VersionFault::Incomparable { message } => "Failed to compare versions for plugin '"@
                + plugin + "': "@ + message@,
            VersionFault::VersionMismatch => "Plugin '"@ + plugin + "' folder name version '"@
                + resolved_version + "' does not match plugin.toml '"@ + config_version + "'"@,
        }
    }

    /// Words the fault for the operator.
    pub fn message(
        &self,
        plugin: &str,
        config_version: &str,
        resolved_version: &str,
        required_version: &str,
    ) -> (m: String)
        ensures
            m@ == self.message_text(plugin@, config_version@, resolved_version@, required_version@),
    {
        match self {
            VersionFault::PluginNewer => {
                let mut m = owned("Installed plugin '");
                m.append(plugin);
                m.append("' (v");
                m.append(resolved_version);
                m.append(") is newer than required '");
                m.append(required_version);
                m.append("'");
                m
            },
            VersionFault::PluginOutdated => {
                let mut m = owned("Installed plugin '");
                m.append(plugin);
                m.append("' (v");
                m.append(resolved_version);
                m.append(") is older than required '");
                m.append(required_version);
                m.append("'");
                m
            },
            VersionFault::Incomparable { message } => {
                let mut m = owned("Failed to compare versions for plugin '");
                m.append(plugin);
                m.append("': ");
                m.append(message.as_str());
                m
            },
            VersionFault::VersionMismatch => {
                let mut m = owned("Plugin '");
                m.append(plugin);
                m.append("' folder name version '");
                m.append(resolved_version);
                m.append("' does not match plugin.toml '");
                m.append(config_version);
                m.append("'");
                m
            },
        }
    }
}

/// What [`validate_plugin_versions`] answers: the installed version must be
/// the required one, and the declared version must be written as the
/// directory is named.
pub open spec fn version_fault(
    config_version: Seq<char>,
    resolved_version: Seq<char>,
    required_version: Seq<char>,
    r: Result<(), VersionFault>,
) -> bool {
    match plugin_version_check(resolved_version, required_version) {
        Err(text) => r matches Err(VersionFault::Incomparable { message }) && message@ == text,
        Ok(VersionCheck::PluginNewer) => r matches Err(VersionFault::PluginNewer),
        Ok(VersionCheck::PluginOutdated) => r matches Err(VersionFault::PluginOutdated),
        Ok(VersionCheck::UpToDate) => if config_version == resolved_version {
            r is Ok
        } else {
            r matches Err(VersionFault::VersionMismatch)
        },
    }
}

/// Decides whether a resolved plugin may run: strict equality with the
/// required version, and agreement between the declared version and the
/// directory's name.
pub fn validate_plugin_versions(
    config_version: &str,
    resolved_version: &str,
    required_version: &str,
) -> (r: Result<(), VersionFault>)
    ensures
        version_fault(config_version@, resolved_version@, required_version@, r),
{
    match check_plugin_version(resolved_version, required_version) {
        Ok(VersionCheck::UpToDate) => {},
        Ok(VersionCheck::PluginNewer) => {
            return Err(VersionFault::PluginNewer);
        },
        Ok(VersionCheck::PluginOutdated) => {
            return Err(VersionFault::PluginOutdated);
        },
        Err(message) => {
            return Err(VersionFault::Incomparable { message });
        },
    }
    if !str_eq(config_version, resolved_version) {
        return Err(VersionFault::VersionMismatch);
    }
    Ok(())
}

} // verus!

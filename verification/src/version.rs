//! Semantic versions as plain values, parsed and ordered by the `semver` crate.

use crate::text::{decimal, owned, str_eq};
use vstd::prelude::*;

verus! {

/// What a semantic version is made of.
pub struct SemVerView {
    pub major: nat,
    pub minor: nat,
    pub patch: nat,
    pub pre: Seq<char>,
    pub build: Seq<char>,
}

/// What `semver::Version::parse` makes of a text: the version, or the message
/// of the error.
pub uninterp spec fn semver_parse(text: Seq<char>) -> Result<SemVerView, Seq<char>>;

/// How `semver::Prerelease::cmp` orders two pre-release texts: negative, zero
/// or positive.
pub uninterp spec fn prerelease_order(a: Seq<char>, b: Seq<char>) -> int;

/// How `semver::BuildMetadata::cmp` orders two build-metadata texts.
pub uninterp spec fn build_order(a: Seq<char>, b: Seq<char>) -> int;

/// A version as text: the three numbers in decimal with a `.` between
/// them, then `-` and the pre-release where there is one, then `+` and the
/// build metadata where there is some.
pub open spec fn version_text(v: SemVerView) -> Seq<char> {
    let numbers = decimal(v.major) + seq!['.'] + decimal(v.minor) + seq!['.'] + decimal(v.patch);
    let release = if v.pre.len() == 0 {
        numbers
    } else {
        numbers + seq!['-'] + v.pre
    };
    if v.build.len() == 0 {
        release
    } else {
        release + seq!['+'] + v.build
    }
}

/// The total order of semantic versions: major, minor and patch compared as
/// numbers from left to right, then the pre-release texts, then the build
/// metadata. Negative when `a` comes first, zero when they are equal,
/// positive when `b` comes first.
pub open spec fn version_order(a: SemVerView, b: SemVerView) -> int {
    if a.major != b.major {
        if a.major < b.major { -1 } else { 1 }
    } else if a.minor != b.minor {
        if a.minor < b.minor { -1 } else { 1 }
    } else if a.patch != b.patch {
        if a.patch < b.patch { -1 } else { 1 }
    } else {
        suffix_order(a, b)
    }
}

/// The order of two versions with the same three numbers.
pub open spec fn suffix_order(a: SemVerView, b: SemVerView) -> int {
    if prerelease_order(a.pre, b.pre) != 0 {
        prerelease_order(a.pre, b.pre)
    } else {
        build_order(a.build, b.build)
    }
}

/// Two versions agree in major, minor and patch.
pub open spec fn same_numbers(a: SemVerView, b: SemVerView) -> bool {
    a.major == b.major && a.minor == b.minor && a.patch == b.patch
}

/// `text` is a spelling of the version `v`.
pub open spec fn parses_to(text: Seq<char>, v: SemVerView) -> bool {
    semver_parse(text) == Ok::<SemVerView, Seq<char>>(v)
}

/// A version is well formed when some text parses to it.
pub open spec fn is_version(v: SemVerView) -> bool {
    exists|text: Seq<char>| #[trigger] parses_to(text, v)
}

/// A semantic version. Values come from [`SemVer::parse`] only.
#[derive(Debug)]
pub struct SemVer {
    major: u64,
    minor: u64,
    patch: u64,
    pre: String,
    build: String,
}

impl View for SemVer {
    type V = SemVerView;

    closed spec fn view(&self) -> SemVerView {
        SemVerView {
            major: self.major as nat,
            minor: self.minor as nat,
            patch: self.patch as nat,
            pre: self.pre@,
            build: self.build@,
        }
    }
}

/// Calls `semver::Version::parse` and hands out the fields of the version, or
/// the error's message. A version starts with a digit, so the wildcard `*`
/// is none.
#[verifier::external_body]
fn semver_parse_text(text: &str) -> (r: Result<(u64, u64, u64, String, String), String>)
    ensures
        match semver_parse(text@) {
            Ok(v) => r matches Ok(f) && f.0 == v.major && f.1 == v.minor && f.2 == v.patch
                && f.3@ == v.pre && f.4@ == v.build,
            Err(message) => r matches Err(m) && m@ == message,
        },
        text@ == "*"@ ==> r is Err,
{
    match semver::Version::parse(text) {
        Ok(v) => Ok((v.major, v.minor, v.patch, v.pre.as_str().to_string(), v.build.as_str().to_string())),
        Err(e) => Err(e.to_string()),
    }
}

/// The version type of the `semver` crate, carried through as it is.
#[verifier::external_type_specification]
#[verifier::external_body]
pub struct ExSemverVersion(semver::Version);

/// Builds the `semver::Version` with the fields of `v`, through
/// `semver::Prerelease::new` and `semver::BuildMetadata::new`, which accept
/// every text that `semver::Version::parse` has produced.
#[verifier::external_body]
fn to_semver(v: &SemVer) -> semver::Version
    requires
        is_version(v@),
{
    semver::Version {
        major: v.major,
        minor: v.minor,
        patch: v.patch,
        pre: semver::Prerelease::new(v.pre.as_str()).unwrap(),
        build: semver::BuildMetadata::new(v.build.as_str()).unwrap(),
    }
}

/// Calls `semver::Version::cmp`, the derived lexicographic order of the five
/// fields: the three numbers, then `semver::Prerelease::cmp` on the
/// pre-release texts, then `semver::BuildMetadata::cmp` on the build
/// metadata. The order is total: the result is -1, 0 or 1, it is 0 for two
/// equal versions only, and it changes sign when the arguments change
/// places.
#[verifier::external_body]
fn semver_order(a: &SemVer, b: &SemVer) -> (r: i8)
    requires
        is_version(a@),
        is_version(b@),
    ensures
        r == version_order(a@, b@),
        same_numbers(a@, b@) && prerelease_order(a@.pre, b@.pre) != 0 ==> r == prerelease_order(
            a@.pre,
            b@.pre,
        ),
        same_numbers(a@, b@) && prerelease_order(a@.pre, b@.pre) == 0 ==> r == build_order(
            a@.build,
            b@.build,
        ),
        -1 <= r <= 1,
        (r == 0) == (a@ == b@),
        version_order(b@, a@) == -r,
{
    match to_semver(a).cmp(&to_semver(b)) {
        std::cmp::Ordering::Less => -1,
        std::cmp::Ordering::Equal => 0,
        std::cmp::Ordering::Greater => 1,
    }
}

/// Calls `to_string` on the `semver::Version` with the fields of `v`, which
/// writes the three numbers with a `.` between them, then `-` and the
/// pre-release and `+` and the build metadata where they are not empty. The
/// parser takes one spelling of a version only, without leading zeros or
/// white space, and `Display` writes that spelling: every text that parses
/// to `v` is the text that comes out.
#[verifier::external_body]
fn semver_text(v: &SemVer) -> (r: String)
    requires
        is_version(v@),
    ensures
        r@ == version_text(v@),
        forall|text: Seq<char>| #[trigger] parses_to(text, v@) ==> r@ == text,
{
    to_semver(v).to_string()
}

/// Sorts with `slice::sort_by` under the order of `semver::Version`: the
/// same versions come out, each no later than those that are greater.
#[verifier::external_body]
pub(crate) fn sort_versions(versions: &mut Vec<SemVer>)
    ensures
        final(versions)@.to_multiset() == old(versions)@.to_multiset(),
        forall|i: int, j: int|
            0 <= i <= j < final(versions)@.len() ==> version_order(
                #[trigger] final(versions)@[i]@,
                #[trigger] final(versions)@[j]@,
            ) <= 0,
{
    versions.sort_by(|a, b| a.precedence(b));
}

/// Which of two versions is the newer one.
#[derive(Debug, Clone, Copy, PartialEq, Eq, Structural)]
pub enum VersionCheck {
    UpToDate,
    PluginNewer,
    PluginOutdated,
}

/// What [`check_plugin_version`] answers for two well-formed versions.
pub open spec fn version_check(plugin: SemVerView, required: SemVerView) -> VersionCheck {
    if version_order(plugin, required) < 0 {
        VersionCheck::PluginOutdated
    } else if version_order(plugin, required) > 0 {
        VersionCheck::PluginNewer
    } else {
        VersionCheck::UpToDate
    }
}

impl SemVer {
    #[verifier::type_invariant]
    closed spec fn well_formed(self) -> bool {
        is_version(self@)
    }

    /// Parses a semantic version. The wildcard `*` is none.
    pub fn parse(text: &str) -> (r: Result<SemVer, String>)
        ensures
            match semver_parse(text@) {
                Ok(v) => r matches Ok(version) && version@ == v,
                Err(message) => r matches Err(m) && m@ == message,
            },
            text@ == "*"@ ==> r is Err && semver_parse(text@) is Err,
    {
        match semver_parse_text(text) {
            Ok(f) => {
                proof {
                    let view = SemVerView {
                        major: f.0 as nat,
                        minor: f.1 as nat,
                        patch: f.2 as nat,
                        pre: f.3@,
                        build: f.4@,
                    };
                    assert(parses_to(text@, view));
                }
                Ok(SemVer { major: f.0, minor: f.1, patch: f.2, pre: f.3, build: f.4 })
            },
            Err(m) => Err(m),
        }
    }

    /// The major number.
    pub fn major(&self) -> (n: u64)
        ensures
            n == self@.major,
    {
        self.major
    }

    /// The minor number.
    pub fn minor(&self) -> (n: u64)
        ensures
            n == self@.minor,
    {
        self.minor
    }

    /// The patch number.
    pub fn patch(&self) -> (n: u64)
        ensures
            n == self@.patch,
    {
        self.patch
    }

    /// The pre-release text, empty for a release.
    pub fn pre(&self) -> (s: &str)
        ensures
            s@ == self@.pre,
    {
        self.pre.as_str()
    }

    /// The build metadata, empty when there is none.
    pub fn build(&self) -> (s: &str)
        ensures
            s@ == self@.build,
    {
        self.build.as_str()
    }

    /// Compares two versions: -1 when `self` is older, 0 when they are the
    /// same version, 1 when `self` is newer.
    pub fn compare(&self, other: &SemVer) -> (r: i8)
        ensures
            r == version_order(self@, other@),
            -1 <= r <= 1,
            (r == 0) == (self@ == other@),
            version_order(other@, self@) == -r,
    {
        proof {
            use_type_invariant(self);
            use_type_invariant(other);
        }
        semver_order(self, other)
    }

    /// The same comparison as [`SemVer::compare`], as an `Ordering`.
    pub fn precedence(&self, other: &SemVer) -> (o: std::cmp::Ordering)
        ensures
            o is Less == (version_order(self@, other@) < 0),
            o is Equal == (version_order(self@, other@) == 0),
            o is Greater == (version_order(self@, other@) > 0),
    {
        let r = self.compare(other);
        if r < 0 {
            std::cmp::Ordering::Less
        } else if r == 0 {
            std::cmp::Ordering::Equal
        } else {
            std::cmp::Ordering::Greater
        }
    }

    /// The version as text, `major.minor.patch`, then `-` and the
    /// pre-release and `+` and the build metadata where there are any.
    pub fn to_text(&self) -> (r: String)
        ensures
            r@ == version_text(self@),
            forall|text: Seq<char>| #[trigger] parses_to(text, self@) ==> r@ == text,
    {
        proof {
            use_type_invariant(self);
        }
        semver_text(self)
    }

    /// A copy of the version.
    pub fn duplicate(&self) -> (r: SemVer)
        ensures
            r@ == self@,
    {
        proof {
            use_type_invariant(self);
        }
        SemVer {
            major: self.major,
            minor: self.minor,
            patch: self.patch,
            pre: self.pre.clone(),
            build: self.build.clone(),
        }
    }
}

/// The views of a sequence of versions, in order.
pub open spec fn views(versions: Seq<SemVer>) -> Seq<SemVerView> {
    versions.map_values(|v: SemVer| v@)
}

/// What [`check_plugin_version`] returns: `*` on either side matches
/// anything, a text that is no version is reported with the parser's words,
/// and two versions are compared.
pub open spec fn plugin_version_check(plugin: Seq<char>, required: Seq<char>) -> Result<
    VersionCheck,
    Seq<char>,
> {
    if plugin == "*"@ || required == "*"@ {
        Ok(VersionCheck::UpToDate)
    } else {
        match semver_parse(plugin) {
            Err(message) => Err("Invalid plugin version: "@ + message),
            Ok(p) => match semver_parse(required) {
                Err(message) => Err("Invalid monorepo plugin version: "@ + message),
                Ok(r) => Ok(version_check(p, r)),
            },
        }
    }
}

/// Tells whether `plugin` is older than, newer than or the same as `required`.
pub fn compare_versions(plugin: &SemVer, required: &SemVer) -> (check: VersionCheck)
    ensures
        check == version_check(plugin@, required@),
        check == VersionCheck::UpToDate <==> plugin@ == required@,
{
    let r = plugin.compare(required);
    if r < 0 {
        VersionCheck::PluginOutdated
    } else if r > 0 {
        VersionCheck::PluginNewer
    } else {
        VersionCheck::UpToDate
    }
}

/// Compares the version of an installed plugin with the version that the
/// project asks for.
pub fn check_plugin_version(plugin_version: &str, monorepo_plugin_version: &str) -> (r: Result<
    VersionCheck,
    String,
>)
    ensures
        match plugin_version_check(plugin_version@, monorepo_plugin_version@) {
            Ok(check) => r == Ok::<VersionCheck, String>(check),
            Err(message) => r matches Err(m) && m@ == message,
        },
{
    if str_eq(plugin_version, "*") || str_eq(monorepo_plugin_version, "*") {
        return Ok(VersionCheck::UpToDate);
    }
    let plugin = match SemVer::parse(plugin_version) {
        Ok(v) => v,
        Err(e) => {
            let mut message = owned("Invalid plugin version: ");
            message.append(e.as_str());
            return Err(message);
        },
    };
    let required = match SemVer::parse(monorepo_plugin_version) {
        Ok(v) => v,
        Err(e) => {
            let mut message = owned("Invalid monorepo plugin version: ");
            message.append(e.as_str());
            return Err(message);
        },
    };
    Ok(compare_versions(&plugin, &required))
}

} // verus!

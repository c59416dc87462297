use apix::resolver::{
    installed_versions, resolve, resolve_directory, resolve_installed, select_version,
    validate_plugin_versions, ResolveError, VersionFault,
};
use apix::version::SemVer;

fn names(list: &[&str]) -> Vec<String> {
    list.iter().map(|s| s.to_string()).collect()
}

fn installed(list: &[&str]) -> Vec<SemVer> {
    installed_versions(&names(list))
}

fn texts(list: &[SemVer]) -> Vec<String> {
    list.iter().map(|v| v.to_text()).collect()
}

#[test]
fn nearest_higher_version_is_taken() {
    let chosen = resolve("demo", "1.5.0", installed(&["1.0.0", "1.2.0", "2.0.0"])).unwrap();
    assert_eq!(chosen.to_text(), "2.0.0");
}

#[test]
fn nearest_lower_version_is_taken_where_none_is_higher() {
    let chosen = resolve("demo", "3.0.0", installed(&["1.0.0", "1.2.0", "2.0.0"])).unwrap();
    assert_eq!(chosen.to_text(), "2.0.0");
}

#[test]
fn exact_version_is_returned_unchanged() {
    let chosen = resolve("demo", "1.2.0", installed(&["1.0.0", "1.2.0", "2.0.0"])).unwrap();
    assert_eq!(chosen.to_text(), "1.2.0");
}

#[test]
fn wildcard_takes_the_greatest_version() {
    let chosen = resolve("demo", "*", installed(&["1.19.0", "1.5.0", "0.9.0"])).unwrap();
    assert_eq!(chosen.to_text(), "1.19.0");
}

#[test]
fn the_order_of_the_installed_versions_does_not_matter() {
    let chosen = resolve("demo", "1.5.0", installed(&["3.0.0", "2.0.0", "1.0.0", "2.5.0"])).unwrap();
    assert_eq!(chosen.to_text(), "2.0.0");
    let chosen = resolve("demo", "0.5.0", installed(&["3.0.0", "2.0.0", "1.0.0", "2.5.0"])).unwrap();
    assert_eq!(chosen.to_text(), "1.0.0");
    let chosen = resolve("demo", "9.0.0", installed(&["3.0.0", "2.0.0", "1.0.0", "2.5.0"])).unwrap();
    assert_eq!(chosen.to_text(), "3.0.0");
}

#[test]
fn the_resolved_version_is_always_an_installed_one() {
    let sets: [&[&str]; 3] = [&["1.0.0"], &["1.0.0", "1.0.0-rc.1"], &["0.1.0", "5.0.0", "2.2.2+b"]];
    let asked = ["*", "0.0.1", "1.0.0", "1.0.0-rc.1", "2.0.0", "99.0.0"];
    for set in sets.iter() {
        for constraint in asked.iter() {
            let chosen = resolve("demo", constraint, installed(set)).unwrap();
            assert!(set.contains(&chosen.to_text().as_str()));
        }
    }
}

#[test]
fn a_pre_release_counts_as_lower_than_its_release() {
    let chosen = resolve("demo", "1.0.0-beta", installed(&["1.0.0-alpha", "1.0.0"])).unwrap();
    assert_eq!(chosen.to_text(), "1.0.0");
    let chosen = resolve("demo", "1.0.1", installed(&["1.0.0-alpha", "1.0.0"])).unwrap();
    assert_eq!(chosen.to_text(), "1.0.0");
}

#[test]
fn empty_set_is_an_error() {
    match resolve("demo", "*", Vec::new()) {
        Err(ResolveError::NoVersionsInstalled { plugin }) => assert_eq!(plugin, "demo"),
        _ => panic!("an empty set resolved"),
    }
}

#[test]
fn empty_set_is_reported_before_a_bad_constraint() {
    let r = resolve("demo", "nonsense", Vec::new());
    assert!(matches!(r, Err(ResolveError::NoVersionsInstalled { .. })));
    let r = resolve("demo", "1.0.0", Vec::new());
    assert!(matches!(r, Err(ResolveError::NoVersionsInstalled { .. })));
}

#[test]
fn bad_constraint_is_an_error() {
    match resolve("demo", "1.x", installed(&["1.0.0"])) {
        Err(ResolveError::InvalidConstraint { text }) => assert_eq!(text, "1.x"),
        _ => panic!("a bad constraint resolved"),
    }
}

#[test]
fn error_messages_name_the_plugin_and_the_text() {
    let e = resolve("demo", "*", Vec::new()).err().unwrap();
    assert_eq!(e.message(), "No installed versions found for plugin 'demo'");
    let e = resolve("demo", "1.x", installed(&["1.0.0"])).err().unwrap();
    assert_eq!(e.message(), "Invalid version string '1.x'");
}

#[test]
fn names_that_are_no_versions_are_passed_over() {
    let found = installed(&["1.0.0", "data", "2.0.0-rc.1", "v3", "1.0", "0.0.1"]);
    assert_eq!(texts(&found), vec!["1.0.0", "2.0.0-rc.1", "0.0.1"]);
}

#[test]
fn resolve_installed_reads_the_directory_names() {
    let dirs = names(&["data", "1.0.0", "1.2.0", "2.0.0", "notes.txt"]);
    assert_eq!(resolve_installed("demo", "1.5.0", &dirs).unwrap().to_text(), "2.0.0");
    assert_eq!(resolve_installed("demo", "*", &dirs).unwrap().to_text(), "2.0.0");
    let none = names(&["data", "notes.txt"]);
    assert!(matches!(
        resolve_installed("demo", "*", &none),
        Err(ResolveError::NoVersionsInstalled { .. })
    ));
}

#[test]
fn select_version_without_a_request_takes_the_greatest() {
    let chosen = select_version(None, installed(&["1.0.0", "1.0.0+b", "1.0.0-a"])).unwrap();
    assert_eq!(chosen.to_text(), "1.0.0+b");
    assert!(select_version(None, Vec::new()).is_none());
}

#[test]
fn select_version_with_a_request_takes_the_nearest() {
    let wanted = SemVer::parse("1.1.0").ok().unwrap();
    let chosen = select_version(Some(&wanted), installed(&["1.0.0", "1.2.0", "1.3.0"])).unwrap();
    assert_eq!(chosen.to_text(), "1.2.0");
    assert!(select_version(Some(&wanted), Vec::new()).is_none());
}

#[test]
fn a_plugin_that_is_the_required_one_may_run() {
    assert!(validate_plugin_versions("1.2.0", "1.2.0", "1.2.0").is_ok());
    assert!(validate_plugin_versions("1.2.0", "1.2.0", "*").is_ok());
}

#[test]
fn a_drifted_plugin_may_not_run() {
    assert!(matches!(
        validate_plugin_versions("2.0.0", "2.0.0", "1.5.0"),
        Err(VersionFault::PluginNewer)
    ));
    assert!(matches!(
        validate_plugin_versions("1.0.0", "1.0.0", "1.5.0"),
        Err(VersionFault::PluginOutdated)
    ));
}

#[test]
fn a_declared_version_that_differs_from_the_directory_is_a_mismatch() {
    assert!(matches!(
        validate_plugin_versions("1.2.1", "1.2.0", "1.2.0"),
        Err(VersionFault::VersionMismatch)
    ));
}

#[test]
fn versions_that_cannot_be_read_are_incomparable() {
    match validate_plugin_versions("1.2.0", "1.2.0", "latest") {
        Err(VersionFault::Incomparable { message }) => assert_eq!(
            message,
            "Invalid monorepo plugin version: unexpected character 'l' while parsing major version number"
        ),
        _ => panic!("an unreadable version was accepted"),
    }
}

#[test]
fn the_directory_to_load_is_one_of_the_names() {
    let dirs = names(&["data", "1.0.0", "1.2.0-rc.1+b7", "2.0.0"]);
    assert_eq!(resolve_directory("demo", "1.1.0", &dirs).unwrap(), "1.2.0-rc.1+b7");
    assert_eq!(resolve_directory("demo", "*", &dirs).unwrap(), "2.0.0");
    assert_eq!(resolve_directory("demo", "1.0.0", &dirs).unwrap(), "1.0.0");
    assert!(resolve_directory("demo", "one", &dirs).is_err());
    assert!(resolve_directory("demo", "*", &names(&["data"])).is_err());
}

#[test]
fn version_faults_have_their_words() {
    assert_eq!(
        VersionFault::PluginNewer.message("demo", "2.0.0", "2.0.0", "1.5.0"),
        "Installed plugin 'demo' (v2.0.0) is newer than required '1.5.0'"
    );
    assert_eq!(
        VersionFault::PluginOutdated.message("demo", "1.0.0", "1.0.0", "1.5.0"),
        "Installed plugin 'demo' (v1.0.0) is older than required '1.5.0'"
    );
    assert_eq!(
        VersionFault::Incomparable { message: "bad".to_string() }.message("demo", "a", "b", "c"),
        "Failed to compare versions for plugin 'demo': bad"
    );
    assert_eq!(
        VersionFault::VersionMismatch.message("demo", "1.2.1", "1.2.0", "1.2.0"),
        "Plugin 'demo' folder name version '1.2.0' does not match plugin.toml '1.2.1'"
    );
}

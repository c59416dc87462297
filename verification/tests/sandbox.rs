use apix::sandbox::{CanonicalPath, SandboxError, SandboxView};

fn sandbox() -> SandboxView {
    SandboxView::new(&vec![
        "/home/u/.apix/plugins/demo/data".to_string(),
        "/home/u/proj".to_string(),
    ])
}

fn parts(path: &CanonicalPath) -> Vec<String> {
    (0..path.depth()).map(|i| path.component(i).unwrap().to_string()).collect()
}

#[test]
fn parse_splits_at_the_separators() {
    let p = CanonicalPath::parse("/home/u/proj");
    assert_eq!(parts(&p), vec!["home", "u", "proj"]);
    assert_eq!(p.to_text(), "/home/u/proj");
}

#[test]
fn there_is_no_component_past_the_last() {
    let p = CanonicalPath::parse("/home/u");
    assert_eq!(p.component(0), Some("home"));
    assert_eq!(p.component(1), Some("u"));
    assert_eq!(p.component(2), None);
    assert_eq!(CanonicalPath::root().component(0), None);
}

#[test]
fn parse_drops_empty_components_and_dots() {
    let p = CanonicalPath::parse("//home/./u//proj/");
    assert_eq!(parts(&p), vec!["home", "u", "proj"]);
}

#[test]
fn parse_resolves_parent_components() {
    assert_eq!(CanonicalPath::parse("/a/b/../c").to_text(), "/a/c");
    assert_eq!(CanonicalPath::parse("/a/b/../../c").to_text(), "/c");
    assert_eq!(CanonicalPath::parse("/a/..").to_text(), "/");
}

#[test]
fn the_root_has_no_parent() {
    assert_eq!(CanonicalPath::parse("/..").to_text(), "/");
    assert_eq!(CanonicalPath::parse("/../../etc").to_text(), "/etc");
    assert_eq!(CanonicalPath::root().to_text(), "/");
    assert_eq!(CanonicalPath::root().depth(), 0);
}

#[test]
fn names_with_dots_are_ordinary_components() {
    assert_eq!(CanonicalPath::parse("/a/.../b/..c/.d").to_text(), "/a/.../b/..c/.d");
}

#[test]
fn resolve_counts_a_relative_text_from_the_base() {
    let base = CanonicalPath::parse("/home/u/proj");
    assert_eq!(base.resolve("src/main.rs").to_text(), "/home/u/proj/src/main.rs");
    assert_eq!(base.resolve("./src/../Cargo.toml").to_text(), "/home/u/proj/Cargo.toml");
    assert_eq!(base.resolve("../../etc/passwd").to_text(), "/home/etc/passwd");
    assert_eq!(base.resolve("").to_text(), "/home/u/proj");
}

#[test]
fn resolve_counts_an_absolute_text_from_the_root() {
    let base = CanonicalPath::parse("/home/u/proj");
    assert_eq!(base.resolve("/etc/passwd").to_text(), "/etc/passwd");
}

#[test]
fn starts_with_goes_by_whole_components() {
    let root = CanonicalPath::parse("/home/u/proj");
    assert!(CanonicalPath::parse("/home/u/proj").starts_with(&root));
    assert!(CanonicalPath::parse("/home/u/proj/src").starts_with(&root));
    assert!(!CanonicalPath::parse("/home/u/project").starts_with(&root));
    assert!(!CanonicalPath::parse("/home/u").starts_with(&root));
    assert!(!CanonicalPath::parse("/home/v/proj").starts_with(&root));
    assert!(root.starts_with(&CanonicalPath::root()));
}

#[test]
fn same_as_compares_the_components() {
    let a = CanonicalPath::parse("/a/b");
    assert!(a.same_as(&CanonicalPath::parse("/a/./b/")));
    assert!(!a.same_as(&CanonicalPath::parse("/a/b/c")));
    assert!(!a.same_as(&CanonicalPath::parse("/a/c")));
}

#[test]
fn open_admits_a_root_and_what_lies_below_it() {
    let view = sandbox();
    assert_eq!(view.open("/home/u/proj").unwrap().to_text(), "/home/u/proj");
    assert_eq!(view.open("/home/u/proj/src/lib.rs").unwrap().to_text(), "/home/u/proj/src/lib.rs");
    assert_eq!(
        view.open("/home/u/.apix/plugins/demo/data/cache.json").unwrap().to_text(),
        "/home/u/.apix/plugins/demo/data/cache.json"
    );
}

#[test]
fn open_denies_every_path_outside_the_roots() {
    let view = sandbox();
    for path in ["/etc/passwd", "/home/u", "/home/u/project", "/", "/home/u/.apix/plugins/other/data"] {
        match view.open(path) {
            Err(SandboxError::AccessDenied { path: denied }) => assert_eq!(denied, path),
            Ok(_) => panic!("{} was admitted", path),
        }
    }
}

#[test]
fn open_denies_traversal_out_of_a_root() {
    let view = sandbox();
    assert!(view.open("/home/u/proj/../../../etc/passwd").is_err());
    assert!(view.open("/home/u/proj/src/../../secrets").is_err());
    assert!(view.open("/home/u/proj/src/../lib.rs").is_ok());
}

#[test]
fn open_denies_a_text_that_is_not_absolute() {
    let view = sandbox();
    assert!(view.open("home/u/proj").is_err());
    assert!(view.open("").is_err());
    assert!(view.open("src/lib.rs").is_err());
}

#[test]
fn a_sandbox_without_roots_denies_everything() {
    let view = SandboxView::new(&Vec::new());
    assert!(view.open("/").is_err());
    assert!(view.open("/home").is_err());
}

#[test]
fn locate_resolves_below_the_base_and_checks_the_result() {
    let view = sandbox();
    let base = CanonicalPath::parse("/home/u/proj");
    assert_eq!(view.locate(&base, "a/b.txt").unwrap().to_text(), "/home/u/proj/a/b.txt");
    assert!(view.locate(&base, "../../etc/passwd").is_err());
    assert!(view.locate(&base, "/etc/passwd").is_err());
    assert!(view.locate(&base, "/home/u/proj/x").is_ok());
}

#[test]
fn contains_tells_whether_a_path_is_allowed() {
    let view = sandbox();
    assert!(view.contains(&CanonicalPath::parse("/home/u/proj/x")));
    assert!(!view.contains(&CanonicalPath::parse("/home/u/x")));
}

#[test]
fn access_denied_names_the_path() {
    let e = sandbox().open("/etc/passwd").err().unwrap();
    assert_eq!(e.message(), "Access to /etc/passwd denied");
}

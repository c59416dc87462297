use apix::file_tree::FileTree;

#[test]
fn a_new_tree_holds_nothing() {
    let t = FileTree::new();
    assert_eq!(t.len(), 0);
    assert!(!t.contains("/a"));
    assert_eq!(t.get("/a"), None);
}

#[test]
fn insert_puts_a_file_in_place() {
    let mut t = FileTree::new();
    t.insert("/a".to_string(), "one".to_string());
    t.insert("/b".to_string(), "two".to_string());
    assert_eq!(t.len(), 2);
    assert_eq!(t.get("/a"), Some("one"));
    assert_eq!(t.get("/b"), Some("two"));
}

#[test]
fn insert_replaces_the_file_that_was_there() {
    let mut t = FileTree::new();
    t.insert("/a".to_string(), "one".to_string());
    t.insert("/a".to_string(), "three".to_string());
    assert_eq!(t.len(), 1);
    assert_eq!(t.get("/a"), Some("three"));
}

#[test]
fn remove_takes_one_file_away() {
    let mut t = FileTree::new();
    t.insert("/a".to_string(), "one".to_string());
    t.insert("/b".to_string(), "two".to_string());
    t.insert("/c".to_string(), "three".to_string());
    assert!(t.remove("/b"));
    assert!(!t.remove("/b"));
    assert_eq!(t.len(), 2);
    assert_eq!(t.get("/a"), Some("one"));
    assert_eq!(t.get("/b"), None);
    assert_eq!(t.get("/c"), Some("three"));
}

#[test]
fn duplicate_is_a_tree_of_its_own() {
    let mut t = FileTree::new();
    t.insert("/a".to_string(), "one".to_string());
    let mut copy = t.duplicate();
    copy.insert("/b".to_string(), "two".to_string());
    copy.remove("/a");
    assert_eq!(t.len(), 1);
    assert_eq!(t.get("/a"), Some("one"));
    assert_eq!(copy.get("/a"), None);
    assert_eq!(copy.get("/b"), Some("two"));
}

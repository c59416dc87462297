use apix::cli::CommonFlags;
use apix::error::ErrorKind;
use apix::file_tree::FileTree;
use apix::plan::{same_effect_of, ApplyFault, Plan, PlanError, PlanState};
use apix::proposal::Proposal;
use apix::sandbox::{CanonicalPath, SandboxView};

fn sandbox() -> SandboxView {
    SandboxView::new(&vec!["/home/u/proj".to_string()])
}

fn base() -> CanonicalPath {
    CanonicalPath::parse("/home/u/proj")
}

fn create(path: &str, content: &str) -> Proposal {
    Proposal::CreateFile { path: path.to_string(), content: content.to_string() }
}

fn modify(path: &str, content: &str) -> Proposal {
    Proposal::ModifyFile { path: path.to_string(), content: content.to_string() }
}

fn delete(path: &str) -> Proposal {
    Proposal::DeleteFile { path: path.to_string() }
}

fn run(command: &str, args: &[&str]) -> Proposal {
    Proposal::RunCommand {
        command: command.to_string(),
        args: args.iter().map(|a| a.to_string()).collect(),
    }
}

fn accept() -> CommonFlags {
    CommonFlags { accept_all: true, allow_dirty: false }
}

fn tree(files: &[(&str, &str)]) -> FileTree {
    let mut t = FileTree::new();
    for (path, content) in files.iter() {
        t.insert(path.to_string(), content.to_string());
    }
    t
}

fn validated(proposals: Vec<Proposal>) -> Plan {
    let mut plan = Plan::new(proposals);
    plan.validate(&sandbox(), &base()).unwrap();
    plan
}

#[test]
fn a_new_plan_is_empty_or_populated() {
    assert_eq!(Plan::new(Vec::new()).current_state(), PlanState::Empty);
    assert_eq!(Plan::new(vec![delete("a")]).current_state(), PlanState::Populated);
}

#[test]
fn push_populates_the_plan() {
    let mut plan = Plan::new(Vec::new());
    plan.push(create("a.txt", "x")).unwrap();
    assert_eq!(plan.current_state(), PlanState::Populated);
    assert_eq!(plan.len(), 1);
    assert!(plan.proposal(0).unwrap().same_as(&create("a.txt", "x")));
    assert!(plan.proposal(1).is_none());
}

#[test]
fn push_after_validation_asks_for_validation_again() {
    let mut plan = validated(vec![create("a.txt", "x")]);
    plan.push(create("b.txt", "y")).unwrap();
    assert_eq!(plan.current_state(), PlanState::Populated);
    let mut files = FileTree::new();
    assert!(matches!(
        plan.apply(&mut files, &accept(), true, false, None),
        Err(PlanError::WrongState { state: PlanState::Populated })
    ));
}

#[test]
fn a_closed_plan_takes_no_more_proposals() {
    let mut plan = Plan::new(vec![create("a.txt", "x")]);
    plan.discard();
    assert!(matches!(
        plan.push(create("b.txt", "y")),
        Err(PlanError::WrongState { state: PlanState::Discarded })
    ));
    assert_eq!(plan.len(), 0);
}

#[test]
fn an_empty_plan_validates_and_applies_as_a_no_op() {
    let mut plan = Plan::new(Vec::new());
    assert!(plan.validate(&sandbox(), &base()).is_ok());
    assert_eq!(plan.current_state(), PlanState::Validated);
    assert_eq!(plan.render(), "");
    let mut files = tree(&[("/home/u/proj/a.txt", "old")]);
    assert!(plan.apply(&mut files, &accept(), true, false, None).is_ok());
    assert_eq!(plan.current_state(), PlanState::Applied);
    assert_eq!(files.len(), 1);
    assert_eq!(files.get("/home/u/proj/a.txt"), Some("old"));
}

#[test]
fn a_proposal_that_climbs_out_of_the_sandbox_fails_validation() {
    let mut plan = Plan::new(vec![create("../../etc/passwd", "x")]);
    match plan.validate(&sandbox(), &base()) {
        Err(PlanError::ProposalOutOfSandbox { index, path }) => {
            assert_eq!(index, 0);
            assert_eq!(path, "../../etc/passwd");
        },
        _ => panic!("the plan was not turned away"),
    }
    assert_eq!(plan.current_state(), PlanState::Populated);
    let mut files = FileTree::new();
    assert!(plan.apply(&mut files, &accept(), true, true, None).is_err());
    assert_eq!(files.len(), 0);
}

#[test]
fn the_first_proposal_outside_the_sandbox_is_reported() {
    let mut plan = Plan::new(vec![
        create("ok.txt", "x"),
        run("rm", &["-rf", "/"]),
        delete("/etc/hosts"),
        modify("../outside", "y"),
    ]);
    assert!(matches!(
        plan.validate(&sandbox(), &base()),
        Err(PlanError::ProposalOutOfSandbox { index: 2, .. })
    ));
}

#[test]
fn an_absolute_path_inside_the_sandbox_is_accepted() {
    let mut plan = Plan::new(vec![create("/home/u/proj/deep/a.txt", "x")]);
    assert!(plan.validate(&sandbox(), &base()).is_ok());
}

#[test]
fn two_proposals_for_one_path_with_different_content_conflict() {
    let mut plan = Plan::new(vec![create("a.txt", "one"), create("a.txt", "two")]);
    assert!(matches!(
        plan.validate(&sandbox(), &base()),
        Err(PlanError::ConflictingProposals { first: 0, second: 1 })
    ));
    assert_eq!(plan.current_state(), PlanState::Populated);
}

#[test]
fn a_conflict_is_found_whatever_the_spelling_of_the_path() {
    let mut plan = Plan::new(vec![
        create("src/a.txt", "one"),
        run("make", &[]),
        delete("b.txt"),
        modify("/home/u/proj/src/../src/./a.txt", "one"),
    ]);
    assert!(matches!(
        plan.validate(&sandbox(), &base()),
        Err(PlanError::ConflictingProposals { first: 0, second: 3 })
    ));
}

#[test]
fn the_same_request_twice_is_no_conflict() {
    let mut plan = Plan::new(vec![delete("a.txt"), delete("./a.txt"), run("ls", &[]), run("ls", &[])]);
    assert!(plan.validate(&sandbox(), &base()).is_ok());
}

#[test]
fn leaving_the_sandbox_is_reported_before_a_conflict() {
    let mut plan = Plan::new(vec![create("a.txt", "one"), create("a.txt", "two"), delete("/etc/x")]);
    assert!(matches!(
        plan.validate(&sandbox(), &base()),
        Err(PlanError::ProposalOutOfSandbox { index: 2, .. })
    ));
}

#[test]
fn same_effect_goes_by_kind_and_content() {
    assert!(same_effect_of(&create("a", "x"), &create("b", "x")));
    assert!(!same_effect_of(&create("a", "x"), &create("a", "y")));
    assert!(!same_effect_of(&create("a", "x"), &modify("a", "x")));
    assert!(same_effect_of(&delete("a"), &delete("b")));
    assert!(!same_effect_of(&run("a", &[]), &run("a", &[])));
}

#[test]
fn render_shows_one_line_for_each_proposal() {
    let plan = Plan::new(vec![
        create("src/new.rs", "fn main() {}"),
        modify("Cargo.toml", "[package]"),
        delete("old.txt"),
        run("cargo", &["fmt", "--all"]),
        run("true", &[]),
    ]);
    assert_eq!(
        plan.render(),
        "+ create src/new.rs\n~ modify Cargo.toml\n- delete old.txt\n$ run cargo fmt --all\n$ run true\n"
    );
}

#[test]
fn render_is_the_same_every_time() {
    let plan = Plan::new(vec![create("a", "1"), delete("b")]);
    assert_eq!(plan.render(), plan.render());
}

#[test]
fn apply_carries_out_every_proposal() {
    let mut plan = validated(vec![
        create("new.txt", "fresh"),
        modify("keep.txt", "changed"),
        delete("gone.txt"),
        run("echo", &["done"]),
    ]);
    let mut files = tree(&[("/home/u/proj/keep.txt", "old"), ("/home/u/proj/gone.txt", "bye")]);
    assert!(plan.apply(&mut files, &accept(), true, false, None).is_ok());
    assert_eq!(plan.current_state(), PlanState::Applied);
    assert_eq!(files.len(), 2);
    assert_eq!(files.get("/home/u/proj/new.txt"), Some("fresh"));
    assert_eq!(files.get("/home/u/proj/keep.txt"), Some("changed"));
    assert_eq!(files.get("/home/u/proj/gone.txt"), None);
}

#[test]
fn later_proposals_see_what_earlier_ones_did() {
    let mut plan = validated(vec![create("a.txt", "one"), create("./a.txt", "one")]);
    let mut files = FileTree::new();
    assert!(matches!(
        plan.apply(&mut files, &accept(), true, false, None),
        Err(PlanError::ApplyFailed { index: 1, fault: ApplyFault::AlreadyExists })
    ));
    assert_eq!(files.len(), 0);
    let mut plan = validated(vec![delete("b.txt"), delete("b.txt")]);
    let mut files = tree(&[("/home/u/proj/b.txt", "old")]);
    assert!(matches!(
        plan.apply(&mut files, &accept(), true, false, None),
        Err(PlanError::ApplyFailed { index: 1, fault: ApplyFault::Missing })
    ));
    assert_eq!(files.get("/home/u/proj/b.txt"), Some("old"));
}

#[test]
fn a_plan_that_fails_part_of_the_way_changes_nothing() {
    let mut plan = validated(vec![
        create("new.txt", "fresh"),
        modify("keep.txt", "changed"),
        delete("missing.txt"),
        create("never.txt", "x"),
    ]);
    let mut files = tree(&[("/home/u/proj/keep.txt", "old")]);
    match plan.apply(&mut files, &accept(), true, false, None) {
        Err(PlanError::ApplyFailed { index, fault }) => {
            assert_eq!(index, 2);
            assert_eq!(fault, ApplyFault::Missing);
        },
        _ => panic!("the plan was applied"),
    }
    assert_eq!(files.len(), 1);
    assert_eq!(files.get("/home/u/proj/keep.txt"), Some("old"));
    assert_eq!(files.get("/home/u/proj/new.txt"), None);
    assert_eq!(plan.current_state(), PlanState::Validated);
}

#[test]
fn creating_a_file_that_exists_fails() {
    let mut plan = validated(vec![create("a.txt", "new")]);
    let mut files = tree(&[("/home/u/proj/a.txt", "old")]);
    assert!(matches!(
        plan.apply(&mut files, &accept(), true, false, None),
        Err(PlanError::ApplyFailed { index: 0, fault: ApplyFault::AlreadyExists })
    ));
    assert_eq!(files.get("/home/u/proj/a.txt"), Some("old"));
}

#[test]
fn changing_a_file_that_is_missing_fails() {
    let mut plan = validated(vec![modify("a.txt", "new")]);
    let mut files = FileTree::new();
    assert!(matches!(
        plan.apply(&mut files, &accept(), true, false, None),
        Err(PlanError::ApplyFailed { index: 0, fault: ApplyFault::Missing })
    ));
    assert_eq!(files.len(), 0);
}

#[test]
fn a_failed_command_changes_nothing() {
    let mut plan = validated(vec![create("a.txt", "x"), run("false", &[])]);
    let mut files = FileTree::new();
    assert!(matches!(
        plan.apply(&mut files, &accept(), true, false, Some(1)),
        Err(PlanError::ApplyFailed { index: 1, fault: ApplyFault::CommandFailed })
    ));
    assert_eq!(files.len(), 0);
    assert_eq!(plan.current_state(), PlanState::Validated);
}

#[test]
fn a_failing_file_is_reported_before_a_failed_command() {
    let mut plan = validated(vec![run("false", &[]), delete("missing.txt")]);
    let mut files = FileTree::new();
    assert!(matches!(
        plan.apply(&mut files, &accept(), true, false, Some(0)),
        Err(PlanError::ApplyFailed { index: 1, fault: ApplyFault::Missing })
    ));
}

#[test]
fn a_dirty_working_tree_stops_the_apply() {
    let mut plan = validated(vec![create("a.txt", "x")]);
    let mut files = FileTree::new();
    assert!(matches!(
        plan.apply(&mut files, &accept(), false, false, None),
        Err(PlanError::DirtyWorkingTree)
    ));
    assert_eq!(files.len(), 0);
    assert_eq!(plan.current_state(), PlanState::Validated);
    let dirty_ok = CommonFlags { accept_all: true, allow_dirty: true };
    assert!(plan.apply(&mut files, &dirty_ok, false, false, None).is_ok());
    assert_eq!(files.get("/home/u/proj/a.txt"), Some("x"));
}

#[test]
fn a_plan_that_is_not_accepted_is_discarded() {
    let mut plan = validated(vec![create("a.txt", "x")]);
    let mut files = FileTree::new();
    let ask = CommonFlags { accept_all: false, allow_dirty: false };
    assert!(matches!(plan.apply(&mut files, &ask, true, false, None), Err(PlanError::Declined)));
    assert_eq!(plan.current_state(), PlanState::Discarded);
    assert_eq!(plan.len(), 0);
    assert_eq!(files.len(), 0);
}

#[test]
fn a_confirmed_plan_is_applied_without_the_flag() {
    let mut plan = validated(vec![create("a.txt", "x")]);
    let mut files = FileTree::new();
    let ask = CommonFlags { accept_all: false, allow_dirty: false };
    assert!(plan.apply(&mut files, &ask, true, true, None).is_ok());
    assert_eq!(files.len(), 1);
}

#[test]
fn a_plan_is_applied_once() {
    let mut plan = validated(vec![create("a.txt", "x")]);
    let mut files = FileTree::new();
    assert!(plan.apply(&mut files, &accept(), true, false, None).is_ok());
    assert!(matches!(
        plan.apply(&mut files, &accept(), true, false, None),
        Err(PlanError::WrongState { state: PlanState::Applied })
    ));
    assert!(matches!(
        plan.validate(&sandbox(), &base()),
        Err(PlanError::WrongState { state: PlanState::Applied })
    ));
    assert_eq!(files.len(), 1);
}

#[test]
fn apply_to_tmp_leaves_the_tree_alone() {
    let plan = validated(vec![create("a.txt", "x"), delete("b.txt")]);
    let files = tree(&[("/home/u/proj/b.txt", "old")]);
    let staged = plan.apply_to_tmp(&files).ok().unwrap();
    assert_eq!(staged.get("/home/u/proj/a.txt"), Some("x"));
    assert_eq!(staged.get("/home/u/proj/b.txt"), None);
    assert_eq!(files.get("/home/u/proj/b.txt"), Some("old"));
    assert_eq!(files.get("/home/u/proj/a.txt"), None);
}

#[test]
fn apply_to_tmp_wants_a_validated_plan() {
    let plan = Plan::new(vec![create("a.txt", "x")]);
    assert!(matches!(
        plan.apply_to_tmp(&FileTree::new()),
        Err(PlanError::WrongState { state: PlanState::Populated })
    ));
}

#[test]
fn discard_drops_the_proposals() {
    let mut plan = validated(vec![create("a.txt", "x"), delete("b.txt")]);
    plan.discard();
    assert_eq!(plan.current_state(), PlanState::Discarded);
    assert_eq!(plan.len(), 0);
    assert_eq!(plan.render(), "");
}

#[test]
fn an_applied_plan_stays_applied() {
    let mut plan = validated(Vec::new());
    let mut files = FileTree::new();
    plan.apply(&mut files, &accept(), true, false, None).unwrap();
    plan.discard();
    assert_eq!(plan.current_state(), PlanState::Applied);
}

#[test]
fn plan_errors_name_the_proposal_at_fault() {
    assert_eq!(
        PlanError::ProposalOutOfSandbox { index: 12, path: "../x".to_string() }.message(),
        "Proposal 12 is outside the sandbox: ../x"
    );
    assert_eq!(
        PlanError::ConflictingProposals { first: 0, second: 105 }.message(),
        "Proposals 0 and 105 ask for different things at one path"
    );
    assert_eq!(
        PlanError::ApplyFailed { index: 7, fault: ApplyFault::AlreadyExists }.message(),
        "Proposal 7 could not be applied: the file exists already"
    );
    assert_eq!(
        PlanError::ApplyFailed { index: 10, fault: ApplyFault::Missing }.message(),
        "Proposal 10 could not be applied: the file does not exist"
    );
    assert_eq!(
        PlanError::ApplyFailed { index: 99, fault: ApplyFault::CommandFailed }.message(),
        "Proposal 99 could not be applied: the command failed"
    );
    assert_eq!(
        PlanError::DirtyWorkingTree.message(),
        "Working tree not clean. Commit or stash changes first, or use --allow-dirty."
    );
    assert_eq!(PlanError::Declined.message(), "The plan was not accepted");
    assert_eq!(PlanError::WrongState { state: PlanState::Applied }.message(), "The plan is applied");
}

#[test]
fn every_error_has_its_kind() {
    assert_eq!(PlanError::DirtyWorkingTree.kind(), ErrorKind::DirtyWorkingTree);
    assert_eq!(PlanError::Declined.kind(), ErrorKind::Declined);
    assert_eq!(
        PlanError::ProposalOutOfSandbox { index: 0, path: String::new() }.kind(),
        ErrorKind::ProposalOutOfSandbox
    );
    assert_eq!(
        PlanError::ConflictingProposals { first: 0, second: 1 }.kind(),
        ErrorKind::ConflictingProposals
    );
    assert_eq!(
        PlanError::ApplyFailed { index: 0, fault: ApplyFault::Missing }.kind(),
        ErrorKind::ApplyFailed
    );
    assert_eq!(PlanError::WrongState { state: PlanState::Empty }.kind(), ErrorKind::InvalidState);
    assert_eq!(
        apix::sandbox::SandboxError::AccessDenied { path: String::new() }.kind(),
        ErrorKind::AccessDenied
    );
    assert_eq!(
        apix::resolver::ResolveError::NoVersionsInstalled { plugin: String::new() }.kind(),
        ErrorKind::NotFound
    );
    assert_eq!(
        apix::resolver::ResolveError::InvalidConstraint { text: String::new() }.kind(),
        ErrorKind::InvalidInput
    );
    assert_eq!(apix::resolver::VersionFault::PluginNewer.kind(), ErrorKind::VersionMismatch);
    assert_eq!(apix::resolver::VersionFault::VersionMismatch.kind(), ErrorKind::VersionMismatch);
    assert_eq!(
        apix::resolver::VersionFault::Incomparable { message: String::new() }.kind(),
        ErrorKind::InvalidInput
    );
    assert_eq!(
        apix::host::HostError::EntryPointMissing { name: String::new() }.kind(),
        ErrorKind::NotFound
    );
    assert_eq!(
        apix::host::HostError::ExtensionRuntimeError { message: String::new() }.kind(),
        ErrorKind::ExtensionRuntimeError
    );
}

fn texts(list: &[Option<&str>]) -> Vec<Option<String>> {
    list.iter().map(|t| t.map(|s| s.to_string())).collect()
}

#[test]
fn may_apply_asks_before_anything_is_done() {
    let plan = validated(vec![create("a.txt", "x")]);
    let strict = CommonFlags { accept_all: false, allow_dirty: false };
    assert!(plan.may_apply(&strict, true, true).is_ok());
    assert!(plan.may_apply(&accept(), true, false).is_ok());
    assert!(matches!(plan.may_apply(&strict, true, false), Err(PlanError::Declined)));
    assert!(matches!(plan.may_apply(&accept(), false, true), Err(PlanError::DirtyWorkingTree)));
    assert!(matches!(plan.may_apply(&strict, false, false), Err(PlanError::DirtyWorkingTree)));
    let dirty_ok = CommonFlags { accept_all: false, allow_dirty: true };
    assert!(plan.may_apply(&dirty_ok, false, true).is_ok());
    assert_eq!(plan.current_state(), PlanState::Validated);
    assert_eq!(plan.len(), 1);
}

#[test]
fn may_apply_wants_a_validated_plan() {
    let plan = Plan::new(vec![create("a.txt", "x")]);
    assert!(matches!(
        plan.may_apply(&accept(), true, true),
        Err(PlanError::WrongState { state: PlanState::Populated })
    ));
    assert!(matches!(
        Plan::new(Vec::new()).may_apply(&accept(), false, false),
        Err(PlanError::WrongState { state: PlanState::Empty })
    ));
}

#[test]
fn gate_discards_a_declined_plan_and_no_other() {
    let strict = CommonFlags { accept_all: false, allow_dirty: false };
    let mut plan = validated(vec![create("a.txt", "x")]);
    assert!(matches!(plan.gate(&strict, false, true), Err(PlanError::DirtyWorkingTree)));
    assert_eq!(plan.current_state(), PlanState::Validated);
    assert_eq!(plan.len(), 1);
    assert!(plan.gate(&strict, true, true).is_ok());
    assert_eq!(plan.current_state(), PlanState::Validated);
    assert!(matches!(plan.gate(&strict, true, false), Err(PlanError::Declined)));
    assert_eq!(plan.current_state(), PlanState::Discarded);
    assert_eq!(plan.len(), 0);
    assert!(matches!(
        plan.gate(&accept(), true, true),
        Err(PlanError::WrongState { state: PlanState::Discarded })
    ));
}

#[test]
fn resolved_targets_inside_the_sandbox_are_accepted() {
    let mut plan = Plan::new(vec![create("a.txt", "x"), run("ls", &[]), delete("old/b.txt")]);
    let resolved = texts(&[Some("/home/u/proj/a.txt"), None, Some("/home/u/proj/old/b.txt")]);
    assert!(plan.validate_resolved(&sandbox(), &resolved).is_ok());
    assert_eq!(plan.current_state(), PlanState::Validated);
    let mut files = tree(&[("/home/u/proj/old/b.txt", "bye")]);
    assert!(plan.apply(&mut files, &accept(), true, false, None).is_ok());
    assert_eq!(files.get("/home/u/proj/a.txt"), Some("x"));
    assert_eq!(files.get("/home/u/proj/old/b.txt"), None);
}

#[test]
fn a_link_that_leads_out_of_the_sandbox_fails_validation() {
    let mut plan = Plan::new(vec![create("ok.txt", "x"), modify("link/passwd", "y")]);
    let resolved = texts(&[Some("/home/u/proj/ok.txt"), Some("/etc/passwd")]);
    match plan.validate_resolved(&sandbox(), &resolved) {
        Err(PlanError::ProposalOutOfSandbox { index, path }) => {
            assert_eq!(index, 1);
            assert_eq!(path, "link/passwd");
        },
        _ => panic!("the plan was not turned away"),
    }
    assert_eq!(plan.current_state(), PlanState::Populated);
}

#[test]
fn the_target_that_was_found_decides_not_the_text_of_the_proposal() {
    let mut plan = Plan::new(vec![create("../../etc/passwd", "x")]);
    let resolved = texts(&[Some("/home/u/proj/etc/passwd")]);
    assert!(plan.validate_resolved(&sandbox(), &resolved).is_ok());
    let mut files = FileTree::new();
    assert!(plan.apply(&mut files, &accept(), true, false, None).is_ok());
    assert_eq!(files.get("/home/u/proj/etc/passwd"), Some("x"));
}

#[test]
fn a_path_without_a_usable_target_counts_as_outside() {
    let cases: [Vec<Option<String>>; 4] = [
        texts(&[None]),
        texts(&[]),
        texts(&[Some("home/u/proj/a.txt")]),
        texts(&[Some("")]),
    ];
    for resolved in cases.iter() {
        let mut plan = Plan::new(vec![delete("a.txt")]);
        assert!(matches!(
            plan.validate_resolved(&sandbox(), resolved),
            Err(PlanError::ProposalOutOfSandbox { index: 0, .. })
        ));
    }
}

#[test]
fn resolved_targets_are_read_lexically_too() {
    let mut plan = Plan::new(vec![delete("a.txt")]);
    let resolved = texts(&[Some("/home/u/proj/../secret")]);
    assert!(plan.validate_resolved(&sandbox(), &resolved).is_err());
    let mut plan = Plan::new(vec![delete("a.txt")]);
    let resolved = texts(&[Some("/home/u/proj/./x/../a.txt")]);
    assert!(plan.validate_resolved(&sandbox(), &resolved).is_ok());
}

#[test]
fn two_texts_that_lead_to_one_file_conflict() {
    let mut plan = Plan::new(vec![create("a.txt", "one"), run("x", &[]), create("link.txt", "two")]);
    let resolved = texts(&[Some("/home/u/proj/a.txt"), Some("/ignored"), Some("/home/u/proj/a.txt")]);
    assert!(matches!(
        plan.validate_resolved(&sandbox(), &resolved),
        Err(PlanError::ConflictingProposals { first: 0, second: 2 })
    ));
}

#[test]
fn a_closed_plan_is_not_validated_again() {
    let mut plan = Plan::new(vec![create("a.txt", "x")]);
    plan.discard();
    assert!(matches!(
        plan.validate_resolved(&sandbox(), &texts(&[])),
        Err(PlanError::WrongState { state: PlanState::Discarded })
    ));
}

#[test]
fn an_empty_plan_validates_with_no_targets() {
    let mut plan = Plan::new(Vec::new());
    assert!(plan.validate_resolved(&sandbox(), &Vec::new()).is_ok());
    assert_eq!(plan.current_state(), PlanState::Validated);
}

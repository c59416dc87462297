//! The proposals of one invocation, as a unit: gathered, validated against
//! the sandbox, shown to the operator, and then applied as a whole or
//! dropped.

use crate::cli::CommonFlags;
use crate::file_tree::FileTree;
use crate::proposal::{proposal_views, Proposal, ProposalView};
use crate::sandbox::{
    is_absolute, is_allowed, lexical, path_text, resolve_path, CanonicalPath, SandboxView,
};
use crate::text::{optional_text, owned, texts};
use vstd::prelude::*;

verus! {

/// Where a plan stands. `Applied` and `Discarded` are final.
#[derive(Debug, Clone, Copy, PartialEq, Eq, Structural)]
pub enum PlanState {
    Empty,
    Populated,
    Validated,
    Applied,
    Discarded,
}

/// The steps that a plan may take. A plan is populated, validated, and then
/// applied or discarded; one that is validated falls back where a proposal
/// is added or a later validation fails. A plan without proposals is
/// validated as it is. From `Applied` and `Discarded` there is no way on.
pub open spec fn may_follow(from: PlanState, to: PlanState) -> bool {
    match from {
        PlanState::Empty => to != PlanState::Applied,
        PlanState::Populated => to == PlanState::Populated || to == PlanState::Validated || to
            == PlanState::Discarded,
        PlanState::Validated => to != PlanState::Empty,
        PlanState::Applied => to == PlanState::Applied,
        PlanState::Discarded => to == PlanState::Discarded,
    }
}

/// Why a proposal could not be carried out.
#[derive(Debug, Clone, Copy, PartialEq, Eq, Structural)]
pub enum ApplyFault {
    /// A file was to be created where there is one already.
    AlreadyExists,
    /// A file was to be changed or deleted where there is none.
    Missing,
    /// The command did not end well.
    CommandFailed,
}

/// Why a plan was not validated or not applied.
#[derive(Debug)]
pub enum PlanError {
    /// The proposal at `index` names a path outside the sandbox.
    ProposalOutOfSandbox { index: usize, path: String },
    /// The proposals at `first` and `second` are about one path and ask for
    /// different things.
    ConflictingProposals { first: usize, second: usize },
    /// The proposal at `index` failed; nothing was changed.
    ApplyFailed { index: usize, fault: ApplyFault },
    /// The working tree holds changes that are not committed.
    DirtyWorkingTree,
    /// The operator did not accept the plan.
    Declined,
    /// The plan is in a state that does not allow the step.
    WrongState { state: PlanState },
}

/// The path that a proposal is about, resolved below `base`.
pub open spec fn target_of(base: Seq<Seq<char>>, p: ProposalView) -> Option<Seq<Seq<char>>> {
    match p.path() {
        Some(text) => Some(resolve_path(base, text)),
        None => None,
    }
}

/// The targets of a list of proposals, in order.
pub open spec fn targets_of(base: Seq<Seq<char>>, proposals: Seq<ProposalView>) -> Seq<
    Option<Seq<Seq<char>>>,
> {
    proposals.map_values(|p: ProposalView| target_of(base, p))
}

/// The path that the caller found for the proposal at place `i`: the path
/// that the text at that place names, where the proposal is about a path
/// and the text is there and absolute.
pub open spec fn found_target(resolved: Seq<Option<Seq<char>>>, i: int, p: ProposalView) -> Option<
    Seq<Seq<char>>,
> {
    if p.path() is Some && 0 <= i < resolved.len() && resolved[i] is Some && is_absolute(
        resolved[i]->0,
    ) {
        Some(lexical(Seq::empty(), resolved[i]->0))
    } else {
        None
    }
}

/// The targets of a list of proposals as the caller found them, in order.
pub open spec fn targets_from(resolved: Seq<Option<Seq<char>>>, proposals: Seq<ProposalView>) -> Seq<
    Option<Seq<Seq<char>>>,
> {
    Seq::new(proposals.len(), |i: int| found_target(resolved, i, proposals[i]))
}

/// The texts of a list of optional strings, in order.
pub open spec fn optional_texts(list: Seq<Option<String>>) -> Seq<Option<Seq<char>>> {
    list.map_values(|s: Option<String>| optional_text(s))
}

/// The proposal is about a path, and its target is missing or lies in no
/// root of the sandbox.
pub open spec fn escapes(
    roots: Seq<Seq<Seq<char>>>,
    p: ProposalView,
    target: Option<Seq<Seq<char>>>,
) -> bool {
    p.path() is Some && !(target is Some && is_allowed(roots, target->0))
}

/// Two proposals ask for the same thing at their path: both create or both
/// modify with the same content, or both delete.
pub open spec fn same_effect(a: ProposalView, b: ProposalView) -> bool {
    match (a, b) {
        (
            ProposalView::CreateFile { content: c, .. },
            ProposalView::CreateFile { content: d, .. },
        ) => c == d,
        (
            ProposalView::ModifyFile { content: c, .. },
            ProposalView::ModifyFile { content: d, .. },
        ) => c == d,
        (ProposalView::DeleteFile { .. }, ProposalView::DeleteFile { .. }) => true,
        _ => false,
    }
}

/// Two proposals are about one path and ask for different things.
pub open spec fn conflicts(
    a: ProposalView,
    a_target: Option<Seq<Seq<char>>>,
    b: ProposalView,
    b_target: Option<Seq<Seq<char>>>,
) -> bool {
    &&& a_target is Some
    &&& a_target == b_target
    &&& !same_effect(a, b)
}

/// No proposal leaves the sandbox.
pub open spec fn all_inside(
    roots: Seq<Seq<Seq<char>>>,
    proposals: Seq<ProposalView>,
    targets: Seq<Option<Seq<Seq<char>>>>,
) -> bool {
    forall|i: int|
        0 <= i < proposals.len() ==> !escapes(roots, #[trigger] proposals[i], targets[i])
}

/// No two of the first `n` proposals conflict.
pub open spec fn conflict_free(
    proposals: Seq<ProposalView>,
    targets: Seq<Option<Seq<Seq<char>>>>,
    n: int,
) -> bool {
    forall|i: int, j: int|
        0 <= i < j < n && j < proposals.len() ==> !conflicts(
            #[trigger] proposals[i],
            targets[i],
            #[trigger] proposals[j],
            targets[j],
        )
}

/// A plan with these proposals and these targets passes validation.
pub open spec fn is_valid(
    roots: Seq<Seq<Seq<char>>>,
    proposals: Seq<ProposalView>,
    targets: Seq<Option<Seq<Seq<char>>>>,
) -> bool {
    all_inside(roots, proposals, targets) && conflict_free(
        proposals,
        targets,
        proposals.len() as int,
    )
}

/// What one proposal makes of a tree of files.
pub open spec fn apply_one(
    tree: Map<Seq<char>, Seq<char>>,
    target: Option<Seq<Seq<char>>>,
    p: ProposalView,
) -> Result<Map<Seq<char>, Seq<char>>, ApplyFault> {
    match (p, target) {
        (ProposalView::CreateFile { content, .. }, Some(t)) => if tree.dom().contains(path_text(t)) {
            Err(ApplyFault::AlreadyExists)
        } else {
            Ok(tree.insert(path_text(t), content))
        },
        (ProposalView::ModifyFile { content, .. }, Some(t)) => if tree.dom().contains(path_text(t)) {
            Ok(tree.insert(path_text(t), content))
        } else {
            Err(ApplyFault::Missing)
        },
        (ProposalView::DeleteFile { .. }, Some(t)) => if tree.dom().contains(path_text(t)) {
            Ok(tree.remove(path_text(t)))
        } else {
            Err(ApplyFault::Missing)
        },
        _ => Ok(tree),
    }
}

/// The tree after the first `n` proposals, each applied to what the one
/// before it left; or the place and the fault of the first that fails.
pub open spec fn staged(
    tree: Map<Seq<char>, Seq<char>>,
    targets: Seq<Option<Seq<Seq<char>>>>,
    proposals: Seq<ProposalView>,
    n: int,
) -> Result<Map<Seq<char>, Seq<char>>, (int, ApplyFault)>
    decreases n,
{
    if n <= 0 {
        Ok(tree)
    } else {
        match staged(tree, targets, proposals, n - 1) {
            Err(e) => Err(e),
            Ok(t) => match apply_one(t, targets[n - 1], proposals[n - 1]) {
                Ok(next) => Ok(next),
                Err(fault) => Err((n - 1, fault)),
            },
        }
    }
}

/// The arguments of a command, each behind a space.
pub open spec fn spaced(args: Seq<Seq<char>>) -> Seq<char>
    decreases args.len(),
{
    if args.len() == 0 {
        Seq::empty()
    } else {
        spaced(args.drop_last()) + " "@ + args.last()
    }
}

/// The line that shows one proposal.
pub open spec fn render_line(p: ProposalView) -> Seq<char> {
    match p {
        ProposalView::CreateFile { path, .. } => "+ create "@ + path + "\n"@,
        ProposalView::ModifyFile { path, .. } => "~ modify "@ + path + "\n"@,
        ProposalView::DeleteFile { path } => "- delete "@ + path + "\n"@,
        ProposalView::RunCommand { command, args } => "$ run "@ + command + spaced(args) + "\n"@,
    }
}

/// The lines of a list of proposals, in order.
pub open spec fn render_all(proposals: Seq<ProposalView>) -> Seq<char>
    decreases proposals.len(),
{
    if proposals.len() == 0 {
        Seq::empty()
    } else {
        render_all(proposals.drop_last()) + render_line(proposals.last())
    }
}

/// The proposals of one invocation.
#[derive(Debug)]
pub struct Plan {
    proposals: Vec<Proposal>,
    state: PlanState,
    targets: Vec<Option<CanonicalPath>>,
}

/// The paths of a list of targets, in order.
pub open spec fn target_views(targets: Seq<Option<CanonicalPath>>) -> Seq<Option<Seq<Seq<char>>>> {
    targets.map_values(
        |t: Option<CanonicalPath>|
            match t {
                Some(p) => Some(p@),
                None => None,
            },
    )
}

impl Plan {
    #[verifier::type_invariant]
    closed spec fn well_formed(self) -> bool {
        (self.state == PlanState::Validated || self.state == PlanState::Applied)
            ==> self.targets@.len() == self.proposals@.len()
    }

    /// The state of the plan.
    pub closed spec fn state(&self) -> PlanState {
        self.state
    }

    /// The proposals of the plan, in the order in which they were made.
    pub closed spec fn proposals(&self) -> Seq<ProposalView> {
        proposal_views(self.proposals@)
    }

    /// The resolved paths of the proposals, once the plan is validated.
    pub closed spec fn targets(&self) -> Seq<Option<Seq<Seq<char>>>> {
        target_views(self.targets@)
    }

    /// A plan with the given proposals: `Empty` without any, else
    /// `Populated`.
    pub fn new(proposals: Vec<Proposal>) -> (plan: Plan)
        ensures
            plan.proposals() == proposal_views(proposals@),
            plan.state() == if proposals@.len() == 0 {
                PlanState::Empty
            } else {
                PlanState::Populated
            },
    {
        let state = if proposals.len() == 0 {
            PlanState::Empty
        } else {
            PlanState::Populated
        };
        Plan { proposals, state, targets: Vec::new() }
    }

    /// The state of the plan.
    pub fn current_state(&self) -> (s: PlanState)
        ensures
            s == self.state(),
    {
        self.state
    }

    /// The number of proposals.
    pub fn len(&self) -> (n: usize)
        ensures
            n == self.proposals().len(),
    {
        self.proposals.len()
    }

    /// The proposal at place `i`, counted from 0, where there is one.
    pub fn proposal(&self, i: usize) -> (p: Option<&Proposal>)
        ensures
            match p {
                Some(found) => i < self.proposals().len() && found@ == self.proposals()[i as int],
                None => i >= self.proposals().len(),
            },
    {
        if i < self.proposals.len() {
            Some(&self.proposals[i])
        } else {
            None
        }
    }

    /// Adds a proposal. A plan that was validated has to be validated again;
    /// a plan that was applied or discarded takes no more.
    pub fn push(&mut self, p: Proposal) -> (r: Result<(), PlanError>)
        ensures
            may_follow(old(self).state(), final(self).state()),
            match r {
                Ok(()) => {
                    &&& old(self).state() != PlanState::Applied
                    &&& old(self).state() != PlanState::Discarded
                    &&& final(self).state() == PlanState::Populated
                    &&& final(self).proposals() == old(self).proposals().push(p@)
                },
                Err(PlanError::WrongState { state }) => {
                    &&& state == old(self).state()
                    &&& (state == PlanState::Applied || state == PlanState::Discarded)
                    &&& final(self).state() == old(self).state()
                    &&& final(self).proposals() == old(self).proposals()
                    &&& final(self).targets() == old(self).targets()
                },
                Err(_) => false,
            },
    {
        match self.state {
            PlanState::Applied | PlanState::Discarded => {
                return Err(PlanError::WrongState { state: self.state });
            },
            _ => {},
        }
        self.state = PlanState::Populated;
        let mut proposals: Vec<Proposal> = Vec::new();
        std::mem::swap(&mut self.proposals, &mut proposals);
        proposals.push(p);
        self.proposals = proposals;
        assert(self.proposals() =~= old(self).proposals().push(p@));
        Ok(())
    }

    /// Drops the proposals. Nothing outside the plan is touched. A plan that
    /// was applied stays applied; any other plan is discarded from now on.
    pub fn discard(&mut self)
        ensures
            may_follow(old(self).state(), final(self).state()),
            final(self).proposals() == Seq::<ProposalView>::empty(),
            final(self).state() == if old(self).state() == PlanState::Applied {
                PlanState::Applied
            } else {
                PlanState::Discarded
            },
    {
        let state = if self.state == PlanState::Applied {
            PlanState::Applied
        } else {
            PlanState::Discarded
        };
        *self = Plan { proposals: Vec::new(), state, targets: Vec::new() };
        assert(self.proposals() =~= Seq::<ProposalView>::empty());
    }
}

/// Tells whether two proposals ask for the same thing at their path.
pub fn same_effect_of(a: &Proposal, b: &Proposal) -> (r: bool)
    ensures
        r == same_effect(a@, b@),
{
    match a {
        Proposal::CreateFile { content: c, .. } => match b {
            Proposal::CreateFile { content: d, .. } => *c == *d,
            _ => false,
        },
        Proposal::ModifyFile { content: c, .. } => match b {
            Proposal::ModifyFile { content: d, .. } => *c == *d,
            _ => false,
        },
        Proposal::DeleteFile { .. } => match b {
            Proposal::DeleteFile { .. } => true,
            _ => false,
        },
        Proposal::RunCommand { .. } => false,
    }
}

/// A plan may still be changed and validated.
pub open spec fn is_open(state: PlanState) -> bool {
    state != PlanState::Applied && state != PlanState::Discarded
}

/// What a validation that fails reports: the first proposal that leaves the
/// sandbox; or, where none does, the first proposal that conflicts with an
/// earlier one, together with the first such earlier one.
pub open spec fn reports(
    roots: Seq<Seq<Seq<char>>>,
    proposals: Seq<ProposalView>,
    targets: Seq<Option<Seq<Seq<char>>>>,
    error: PlanError,
) -> bool {
    match error {
        PlanError::ProposalOutOfSandbox { index, path } => {
            &&& index < proposals.len()
            &&& escapes(roots, proposals[index as int], targets[index as int])
            &&& forall|k: int|
                0 <= k < index ==> !escapes(roots, #[trigger] proposals[k], targets[k])
            &&& proposals[index as int].path() == Some(path@)
        },
        PlanError::ConflictingProposals { first, second } => {
            &&& all_inside(roots, proposals, targets)
            &&& first < second < proposals.len()
            &&& conflicts(
                proposals[first as int],
                targets[first as int],
                proposals[second as int],
                targets[second as int],
            )
            &&& conflict_free(proposals, targets, second as int)
            &&& forall|k: int|
                0 <= k < first ==> !conflicts(
                    #[trigger] proposals[k],
                    targets[k],
                    proposals[second as int],
                    targets[second as int],
                )
        },
        _ => false,
    }
}

/// What a validation comes to, given the targets of the proposals. A plan
/// that passes is `Validated` and keeps the targets; one that fails is
/// `Populated` again; one that is applied or discarded stays as it is.
pub open spec fn validates(
    roots: Seq<Seq<Seq<char>>>,
    proposals: Seq<ProposalView>,
    targets: Seq<Option<Seq<Seq<char>>>>,
    state: PlanState,
    targets_before: Seq<Option<Seq<Seq<char>>>>,
    r: Result<(), PlanError>,
    state_after: PlanState,
    targets_after: Seq<Option<Seq<Seq<char>>>>,
) -> bool {
    match r {
        Ok(()) => {
            &&& is_open(state)
            &&& is_valid(roots, proposals, targets)
            &&& state_after == PlanState::Validated
            &&& targets_after == targets
        },
        Err(PlanError::WrongState { state: s }) => {
            &&& !is_open(state)
            &&& s == state
            &&& state_after == state
            &&& targets_after == targets_before
        },
        Err(error) => {
            &&& is_open(state)
            &&& reports(roots, proposals, targets, error)
            &&& state_after == PlanState::Populated
        },
    }
}

impl Plan {
    fn targets_below(&self, base: &CanonicalPath) -> (targets: Vec<Option<CanonicalPath>>)
        ensures
            targets@.len() == self.proposals@.len(),
            target_views(targets@) == targets_of(base@, self.proposals()),
    {
        let ghost ps = self.proposals();
        let n = self.proposals.len();
        let mut targets: Vec<Option<CanonicalPath>> = Vec::new();
        let mut i: usize = 0;
        while i < n
            invariant
                0 <= i <= n,
                n == self.proposals@.len(),
                ps == self.proposals(),
                targets@.len() == i,
                forall|k: int|
                    0 <= k < i ==> #[trigger] target_views(targets@)[k] == target_of(base@, ps[k]),
            decreases n - i,
        {
            let ghost before = targets@;
            match self.proposals[i].path() {
                Some(text) => {
                    targets.push(Some(base.resolve(text)));
                },
                None => {
                    targets.push(None);
                },
            }
            assert forall|k: int| 0 <= k < i + 1 implies #[trigger] target_views(targets@)[k]
                == target_of(base@, ps[k]) by {
                if k < i {
                    assert(target_views(targets@)[k] == target_views(before)[k]);
                }
            }
            i += 1;
        }
        assert(target_views(targets@) =~= targets_of(base@, ps));
        targets
    }

    fn targets_found(&self, resolved: &Vec<Option<String>>) -> (targets: Vec<Option<CanonicalPath>>)
        ensures
            targets@.len() == self.proposals@.len(),
            target_views(targets@) == targets_from(optional_texts(resolved@), self.proposals()),
    {
        let ghost ps = self.proposals();
        let ghost given = optional_texts(resolved@);
        let n = self.proposals.len();
        let mut targets: Vec<Option<CanonicalPath>> = Vec::new();
        let mut i: usize = 0;
        while i < n
            invariant
                0 <= i <= n,
                n == self.proposals@.len(),
                ps == self.proposals(),
                given == optional_texts(resolved@),
                targets@.len() == i,
                forall|k: int|
                    0 <= k < i ==> #[trigger] target_views(targets@)[k] == found_target(
                        given,
                        k,
                        ps[k],
                    ),
            decreases n - i,
        {
            let ghost before = targets@;
            let about_path = self.proposals[i].path().is_some();
            let mut found: Option<CanonicalPath> = None;
            if about_path && i < resolved.len() {
                match &resolved[i] {
                    Some(text) => {
                        if text.as_str().unicode_len() > 0 && text.as_str().get_char(0) == '/' {
                            found = Some(CanonicalPath::parse(text.as_str()));
                        }
                    },
                    None => {},
                }
            }
            proof {
                if (i as int) < resolved@.len() {
                    assert(given[i as int] == optional_text(resolved@[i as int]));
                }
            }
            targets.push(found);
            assert forall|k: int| 0 <= k < i + 1 implies #[trigger] target_views(targets@)[k]
                == found_target(given, k, ps[k]) by {
                if k < i {
                    assert(target_views(targets@)[k] == target_views(before)[k]);
                }
            }
            i += 1;
        }
        assert(target_views(targets@) =~= targets_from(given, ps));
        targets
    }

    fn check(&self, sandbox: &SandboxView, targets: &Vec<Option<CanonicalPath>>) -> (r: Result<
        (),
        PlanError,
    >)
        requires
            targets@.len() == self.proposals@.len(),
        ensures
            match r {
                Ok(()) => is_valid(sandbox.roots(), self.proposals(), target_views(targets@)),
                Err(error) => reports(
                    sandbox.roots(),
                    self.proposals(),
                    target_views(targets@),
                    error,
                ),
            },
    {
        let ghost ps = self.proposals();
        let ghost ts = target_views(targets@);
        let ghost roots = sandbox.roots();
        let n = self.proposals.len();
        let mut i: usize = 0;
        while i < n
            invariant
                0 <= i <= n,
                n == self.proposals@.len(),
                n == targets@.len(),
                ps == self.proposals(),
                ts == target_views(targets@),
                roots == sandbox.roots(),
                forall|k: int| 0 <= k < i ==> !escapes(roots, #[trigger] ps[k], ts[k]),
            decreases n - i,
        {
            match self.proposals[i].path() {
                Some(text) => {
                    let inside = match &targets[i] {
                        Some(target) => sandbox.contains(target),
                        None => false,
                    };
                    if !inside {
                        return Err(
                            PlanError::ProposalOutOfSandbox { index: i, path: owned(text) },
                        );
                    }
                },
                None => {},
            }
            i += 1;
        }
        let mut j: usize = 0;
        while j < n
            invariant
                0 <= j <= n,
                n == self.proposals@.len(),
                n == targets@.len(),
                ps == self.proposals(),
                ts == target_views(targets@),
                roots == sandbox.roots(),
                all_inside(roots, ps, ts),
                conflict_free(ps, ts, j as int),
            decreases n - j,
        {
            let mut i: usize = 0;
            while i < j
                invariant
                    0 <= i <= j < n,
                    n == self.proposals@.len(),
                    n == targets@.len(),
                    ps == self.proposals(),
                    ts == target_views(targets@),
                    roots == sandbox.roots(),
                    all_inside(roots, ps, ts),
                    conflict_free(ps, ts, j as int),
                    forall|k: int|
                        0 <= k < i ==> !conflicts(
                            #[trigger] ps[k],
                            ts[k],
                            ps[j as int],
                            ts[j as int],
                        ),
                decreases j - i,
            {
                let clash = match &targets[i] {
                    Some(a) => match &targets[j] {
                        Some(b) => a.same_as(b) && !same_effect_of(
                            &self.proposals[i],
                            &self.proposals[j],
                        ),
                        None => false,
                    },
                    None => false,
                };
                if clash {
                    return Err(PlanError::ConflictingProposals { first: i, second: j });
                }
                i += 1;
            }
            j += 1;
        }
        Ok(())
    }

    fn settle(&mut self, sandbox: &SandboxView, targets: Vec<Option<CanonicalPath>>) -> (r: Result<
        (),
        PlanError,
    >)
        requires
            targets@.len() == old(self).proposals@.len(),
        ensures
            may_follow(old(self).state(), final(self).state()),
            final(self).proposals() == old(self).proposals(),
            r is Ok <==> is_open(old(self).state()) && is_valid(
                sandbox.roots(),
                old(self).proposals(),
                target_views(targets@),
            ),
            validates(
                sandbox.roots(),
                old(self).proposals(),
                target_views(targets@),
                old(self).state(),
                old(self).targets(),
                r,
                final(self).state(),
                final(self).targets(),
            ),
    {
        match self.state {
            PlanState::Applied | PlanState::Discarded => {
                return Err(PlanError::WrongState { state: self.state });
            },
            _ => {},
        }
        match self.check(sandbox, &targets) {
            Ok(()) => {
                self.state = PlanState::Populated;
                self.targets = targets;
                self.state = PlanState::Validated;
                Ok(())
            },
            Err(error) => {
                self.state = PlanState::Populated;
                Err(error)
            },
        }
    }

    /// Checks every proposal against the sandbox and against the proposals
    /// before it. Paths are resolved below `base`, by their text alone. A
    /// plan that passes is `Validated`; one that fails is `Populated` again
    /// and the error says which proposal was at fault. The proposals are
    /// left as they are.
    pub fn validate(&mut self, sandbox: &SandboxView, base: &CanonicalPath) -> (r: Result<
        (),
        PlanError,
    >)
        ensures
            may_follow(old(self).state(), final(self).state()),
            final(self).proposals() == old(self).proposals(),
            r is Ok <==> is_open(old(self).state()) && is_valid(
                sandbox.roots(),
                old(self).proposals(),
                targets_of(base@, old(self).proposals()),
            ),
            validates(
                sandbox.roots(),
                old(self).proposals(),
                targets_of(base@, old(self).proposals()),
                old(self).state(),
                old(self).targets(),
                r,
                final(self).state(),
                final(self).targets(),
            ),
    {
        let targets = self.targets_below(base);
        self.settle(sandbox, targets)
    }

    /// Checks every proposal as [`Plan::validate`] does, with the targets
    /// that the caller found: `resolved` holds, at the place of each
    /// proposal that is about a path, the absolute text of that path with
    /// every link in it followed. A proposal about a path whose text is
    /// missing or not absolute counts as outside the sandbox.
    pub fn validate_resolved(&mut self, sandbox: &SandboxView, resolved: &Vec<Option<String>>) -> (r:
        Result<(), PlanError>)
        ensures
            may_follow(old(self).state(), final(self).state()),
            final(self).proposals() == old(self).proposals(),
            r is Ok <==> is_open(old(self).state()) && is_valid(
                sandbox.roots(),
                old(self).proposals(),
                targets_from(optional_texts(resolved@), old(self).proposals()),
            ),
            validates(
                sandbox.roots(),
                old(self).proposals(),
                targets_from(optional_texts(resolved@), old(self).proposals()),
                old(self).state(),
                old(self).targets(),
                r,
                final(self).state(),
                final(self).targets(),
            ),
    {
        let targets = self.targets_found(resolved);
        self.settle(sandbox, targets)
    }
}

fn append_spaced(out: &mut String, args: &Vec<String>)
    ensures
        final(out)@ == old(out)@ + spaced(texts(args@)),
{
    let ghost start = out@;
    let mut i: usize = 0;
    assert(texts(args@).take(0) =~= Seq::<Seq<char>>::empty());
    while i < args.len()
        invariant
            0 <= i <= args@.len(),
            out@ == start + spaced(texts(args@).take(i as int)),
        decreases args@.len() - i,
    {
        out.append(" ");
        out.append(args[i].as_str());
        proof {
            let t = texts(args@);
            assert(t.take(i + 1).drop_last() =~= t.take(i as int));
            assert(t.take(i + 1).last() == args@[i as int]@);
            assert(out@ =~= start + spaced(t.take(i + 1)));
        }
        i += 1;
    }
    assert(texts(args@).take(i as int) =~= texts(args@));
}

fn append_line(out: &mut String, p: &Proposal)
    ensures
        final(out)@ == old(out)@ + render_line(p@),
{
    match p {
        Proposal::CreateFile { path, .. } => {
            out.append("+ create ");
            out.append(path.as_str());
            out.append("\n");
            assert(out@ =~= old(out)@ + render_line(p@));
        },
        Proposal::ModifyFile { path, .. } => {
            out.append("~ modify ");
            out.append(path.as_str());
            out.append("\n");
            assert(out@ =~= old(out)@ + render_line(p@));
        },
        Proposal::DeleteFile { path } => {
            out.append("- delete ");
            out.append(path.as_str());
            out.append("\n");
            assert(out@ =~= old(out)@ + render_line(p@));
        },
        Proposal::RunCommand { command, args } => {
            out.append("$ run ");
            out.append(command.as_str());
            append_spaced(out, args);
            out.append("\n");
            assert(out@ =~= old(out)@ + render_line(p@));
        },
    }
}

impl Plan {
    /// Shows the plan to the operator: one line for each proposal, in the
    /// order in which they were made. Nothing is carried out.
    pub fn render(&self) -> (shown: String)
        ensures
            shown@ == render_all(self.proposals()),
    {
        let mut shown = String::new();
        let mut i: usize = 0;
        let ghost ps = self.proposals();
        assert(ps.take(0) =~= Seq::<ProposalView>::empty());
        while i < self.proposals.len()
            invariant
                0 <= i <= self.proposals@.len(),
                ps == self.proposals(),
                shown@ == render_all(ps.take(i as int)),
            decreases self.proposals@.len() - i,
        {
            append_line(&mut shown, &self.proposals[i]);
            proof {
                assert(ps.take(i + 1).drop_last() =~= ps.take(i as int));
                assert(ps.take(i + 1).last() == self.proposals@[i as int]@);
            }
            i += 1;
        }
        assert(ps.take(i as int) =~= ps);
        shown
    }

    /// Carries the file proposals out on a copy of `tree`, one after the
    /// other. The copy is handed out where all of them succeed; `tree`
    /// itself is never changed. Commands leave the files as they are.
    pub fn apply_to_tmp(&self, tree: &FileTree) -> (r: Result<FileTree, PlanError>)
        ensures
            if self.state() != PlanState::Validated {
                r matches Err(PlanError::WrongState { state }) && state == self.state()
            } else {
                match staged(tree@, self.targets(), self.proposals(), self.proposals().len() as int) {
                    Ok(done) => r matches Ok(copy) && copy@ == done,
                    Err((at, why)) => r matches Err(PlanError::ApplyFailed { index, fault })
                        && index == at && fault == why,
                }
            },
    {
        if self.state != PlanState::Validated {
            return Err(PlanError::WrongState { state: self.state });
        }
        proof {
            use_type_invariant(self);
        }
        let ghost ps = self.proposals();
        let ghost ts = self.targets();
        let n = self.proposals.len();
        let mut copy = tree.duplicate();
        let mut i: usize = 0;
        while i < n
            invariant
                0 <= i <= n,
                n == self.proposals@.len(),
                n == self.targets@.len(),
                self.state() == PlanState::Validated,
                ps == self.proposals(),
                ts == self.targets(),
                staged(tree@, ts, ps, i as int) == Ok::<Map<Seq<char>, Seq<char>>, (int, ApplyFault)>(
                    copy@,
                ),
            decreases n - i,
        {
            proof {
                assert(ps[i as int] == self.proposals@[i as int]@);
                assert(ts[i as int] == target_views(self.targets@)[i as int]);
            }
            let ghost before = copy@;
            let fault: Option<ApplyFault> = match &self.targets[i] {
                Some(target) => {
                    assert(ts[i as int] == Some(target@));
                    let key = target.to_text();
                    match &self.proposals[i] {
                        Proposal::CreateFile { content, .. } => {
                            if copy.contains(key.as_str()) {
                                Some(ApplyFault::AlreadyExists)
                            } else {
                                copy.insert(key, content.clone());
                                None
                            }
                        },
                        Proposal::ModifyFile { content, .. } => {
                            if copy.contains(key.as_str()) {
                                copy.insert(key, content.clone());
                                None
                            } else {
                                Some(ApplyFault::Missing)
                            }
                        },
                        Proposal::DeleteFile { .. } => {
                            if copy.remove(key.as_str()) {
                                None
                            } else {
                                Some(ApplyFault::Missing)
                            }
                        },
                        Proposal::RunCommand { .. } => None,
                    }
                },
                None => None,
            };
            proof {
                let step = apply_one(before, ts[i as int], ps[i as int]);
                match fault {
                    Some(f) => {
                        assert(step == Err::<Map<Seq<char>, Seq<char>>, ApplyFault>(f));
                    },
                    None => {
                        assert(step == Ok::<Map<Seq<char>, Seq<char>>, ApplyFault>(copy@));
                    },
                }
            }
            match fault {
                Some(fault) => {
                    proof {
                        assert(staged(tree@, ts, ps, i + 1) == Err::<
                            Map<Seq<char>, Seq<char>>,
                            (int, ApplyFault),
                        >((i as int, fault)));
                        lemma_staged_fails(tree@, ts, ps, i as int, n as int);
                    }
                    return Err(PlanError::ApplyFailed { index: i, fault });
                },
                None => {},
            }
            i += 1;
        }
        Ok(copy)
    }

    /// Tells whether the plan may be applied: it must be `Validated`, the
    /// working tree must be clean unless `flags.allow_dirty` is set, and the
    /// plan must be accepted, by `flags.accept_all` or by `confirmed`. The
    /// caller asks this before it stages a file or runs a command; the plan
    /// is left as it is.
    pub fn may_apply(&self, flags: &CommonFlags, tree_clean: bool, confirmed: bool) -> (r: Result<
        (),
        PlanError,
    >)
        ensures
            match refusal(self.state(), *flags, tree_clean, confirmed) {
                Some(error) => r == Err::<(), PlanError>(error),
                None => r is Ok,
            },
    {
        if self.state != PlanState::Validated {
            Err(PlanError::WrongState { state: self.state })
        } else if !flags.allow_dirty && !tree_clean {
            Err(PlanError::DirtyWorkingTree)
        } else if !flags.accept_all && !confirmed {
            Err(PlanError::Declined)
        } else {
            Ok(())
        }
    }

    /// Asks as [`Plan::may_apply`] does, and discards the plan where it is
    /// declined. In every other case the plan is left as it is.
    pub fn gate(&mut self, flags: &CommonFlags, tree_clean: bool, confirmed: bool) -> (r: Result<
        (),
        PlanError,
    >)
        ensures
            may_follow(old(self).state(), final(self).state()),
            match refusal(old(self).state(), *flags, tree_clean, confirmed) {
                Some(error) => r == Err::<(), PlanError>(error),
                None => r is Ok,
            },
            final(self).state() == if r matches Err(PlanError::Declined) {
                PlanState::Discarded
            } else {
                old(self).state()
            },
            final(self).proposals() == if r matches Err(PlanError::Declined) {
                Seq::<ProposalView>::empty()
            } else {
                old(self).proposals()
            },
            !(r matches Err(PlanError::Declined)) ==> final(self).targets() == old(self).targets(),
    {
        match self.may_apply(flags, tree_clean, confirmed) {
            Err(PlanError::Declined) => {
                self.discard();
                Err(PlanError::Declined)
            },
            other => other,
        }
    }

    /// Applies the plan to `tree` as a whole, or not at all.
    ///
    /// The plan must be `Validated`. The working tree must be clean unless
    /// `flags.allow_dirty` is set. The plan must be accepted, by
    /// `flags.accept_all` or by `confirmed`; a plan that is not accepted is
    /// discarded. The proposals are then carried out on a copy of `tree`.
    /// `failed_command` is the place of the first command that failed when
    /// the caller ran the commands of the plan on its staging copy, if one
    /// did. Only where nothing failed is the copy put in the place of `tree`
    /// and the plan `Applied`; in every other case `tree` is what it was.
    pub fn apply(
        &mut self,
        tree: &mut FileTree,
        flags: &CommonFlags,
        tree_clean: bool,
        confirmed: bool,
        failed_command: Option<usize>,
    ) -> (r: Result<(), PlanError>)
        ensures
            may_follow(old(self).state(), final(self).state()),
            r is Err ==> final(tree)@ == old(tree)@,
            r is Ok ==> final(self).state() == PlanState::Applied,
            applies(
                old(self).state(),
                old(self).targets(),
                old(self).proposals(),
                old(tree)@,
                *flags,
                tree_clean,
                confirmed,
                failed_command,
                r,
                final(tree)@,
                final(self).state(),
                final(self).proposals(),
            ),
    {
        match self.gate(flags, tree_clean, confirmed) {
            Err(error) => {
                return Err(error);
            },
            Ok(()) => {},
        }
        let copy = match self.apply_to_tmp(tree) {
            Ok(copy) => copy,
            Err(error) => {
                return Err(error);
            },
        };
        match failed_command {
            Some(index) => {
                return Err(PlanError::ApplyFailed { index, fault: ApplyFault::CommandFailed });
            },
            None => {},
        }
        *tree = copy;
        proof {
            use_type_invariant(&*self);
        }
        self.state = PlanState::Applied;
        Ok(())
    }
}

/// Why a plan may not be applied, before anything is carried out: it is
/// not validated; or the working tree is not clean and that is not
/// allowed; or the plan is not accepted, by the flag or by the operator.
pub open spec fn refusal(state: PlanState, flags: CommonFlags, tree_clean: bool, confirmed: bool) -> Option<
    PlanError,
> {
    if state != PlanState::Validated {
        Some(PlanError::WrongState { state })
    } else if !flags.allow_dirty && !tree_clean {
        Some(PlanError::DirtyWorkingTree)
    } else if !flags.accept_all && !confirmed {
        Some(PlanError::Declined)
    } else {
        None
    }
}

/// What [`Plan::apply`] does, case by case, in the order in which the cases
/// are tried: first what [`Plan::may_apply`] refuses, where a plan that is
/// declined is discarded; then the proposals on a copy of the tree; then
/// the commands that the caller ran.
pub open spec fn applies(
    state: PlanState,
    targets: Seq<Option<Seq<Seq<char>>>>,
    proposals: Seq<ProposalView>,
    tree: Map<Seq<char>, Seq<char>>,
    flags: CommonFlags,
    tree_clean: bool,
    confirmed: bool,
    failed_command: Option<usize>,
    r: Result<(), PlanError>,
    tree_after: Map<Seq<char>, Seq<char>>,
    state_after: PlanState,
    proposals_after: Seq<ProposalView>,
) -> bool {
    if refusal(state, flags, tree_clean, confirmed) is Some {
        let error = refusal(state, flags, tree_clean, confirmed)->0;
        &&& r == Err::<(), PlanError>(error)
        &&& tree_after == tree
        &&& state_after == if error is Declined {
            PlanState::Discarded
        } else {
            state
        }
        &&& proposals_after == if error is Declined {
            Seq::<ProposalView>::empty()
        } else {
            proposals
        }
    } else {
        match staged(tree, targets, proposals, proposals.len() as int) {
            Err((at, why)) => {
                &&& r matches Err(PlanError::ApplyFailed { index, fault })
                &&& index == at
                &&& fault == why
                &&& tree_after == tree
                &&& state_after == state
                &&& proposals_after == proposals
            },
            Ok(done) => match failed_command {
                Some(at) => {
                    &&& r matches Err(PlanError::ApplyFailed { index, fault })
                    &&& index == at
                    &&& fault == ApplyFault::CommandFailed
                    &&& tree_after == tree
                    &&& state_after == state
                    &&& proposals_after == proposals
                },
                None => {
                    &&& r is Ok
                    &&& tree_after == done
                    &&& state_after == PlanState::Applied
                    &&& proposals_after == proposals
                },
            },
        }
    }
}

proof fn lemma_staged_fails(
    tree: Map<Seq<char>, Seq<char>>,
    targets: Seq<Option<Seq<Seq<char>>>>,
    proposals: Seq<ProposalView>,
    at: int,
    n: int,
)
    requires
        0 <= at < n,
        staged(tree, targets, proposals, at) is Ok,
        staged(tree, targets, proposals, at + 1) is Err,
    ensures
        staged(tree, targets, proposals, n) == staged(tree, targets, proposals, at + 1),
    decreases n - at,
{
    if n > at + 1 {
        lemma_staged_fails(tree, targets, proposals, at, n - 1);
    }
}

/// A plan without proposals passes validation in every sandbox, and
/// applying it leaves every tree as it is.
pub proof fn lemma_empty_plan_is_noop(
    roots: Seq<Seq<Seq<char>>>,
    base: Seq<Seq<char>>,
    tree: Map<Seq<char>, Seq<char>>,
)
    ensures
        is_valid(
            roots,
            Seq::<ProposalView>::empty(),
            targets_of(base, Seq::<ProposalView>::empty()),
        ),
        staged(
            tree,
            targets_of(base, Seq::<ProposalView>::empty()),
            Seq::<ProposalView>::empty(),
            0,
        ) == Ok::<Map<Seq<char>, Seq<char>>, (int, ApplyFault)>(tree),
        render_all(Seq::<ProposalView>::empty()) == Seq::<char>::empty(),
{
}

/// A plan that fails part of the way leaves nothing behind: whatever the
/// proposals before the failing one did to the copy, the outcome of the
/// whole is the failure, and no tree comes out of it.
pub proof fn lemma_failure_is_total(
    tree: Map<Seq<char>, Seq<char>>,
    targets: Seq<Option<Seq<Seq<char>>>>,
    proposals: Seq<ProposalView>,
    at: int,
    n: int,
)
    requires
        0 <= at < n,
        staged(tree, targets, proposals, at) is Ok,
        staged(tree, targets, proposals, at + 1) is Err,
    ensures
        staged(tree, targets, proposals, n) is Err,
        staged(tree, targets, proposals, n)->Err_0.0 == at,
{
    lemma_staged_fails(tree, targets, proposals, at, n);
}

} // verus!

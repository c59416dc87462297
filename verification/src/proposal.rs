//! The effects that an extension may ask for. A proposal is data: nothing is
//! done when one is made.

use crate::text::texts;
use vstd::prelude::*;

verus! {

/// One requested effect on the project tree or on the system.
#[derive(Debug)]
pub enum Proposal {
    CreateFile { path: String, content: String },
    ModifyFile { path: String, content: String },
    DeleteFile { path: String },
    RunCommand { command: String, args: Vec<String> },
}

/// A proposal as plain texts.
pub enum ProposalView {
    CreateFile { path: Seq<char>, content: Seq<char> },
    ModifyFile { path: Seq<char>, content: Seq<char> },
    DeleteFile { path: Seq<char> },
    RunCommand { command: Seq<char>, args: Seq<Seq<char>> },
}

impl View for Proposal {
    type V = ProposalView;

    open spec fn view(&self) -> ProposalView {
        match self {
            Proposal::CreateFile { path, content } => ProposalView::CreateFile {
                path: path@,
                content: content@,
            },
            Proposal::ModifyFile { path, content } => ProposalView::ModifyFile {
                path: path@,
                content: content@,
            },
            Proposal::DeleteFile { path } => ProposalView::DeleteFile { path: path@ },
            Proposal::RunCommand { command, args } => ProposalView::RunCommand {
                command: command@,
                args: texts(args@),
            },
        }
    }
}

impl ProposalView {
    /// The path that the proposal is about, where it is about one.
    pub open spec fn path(self) -> Option<Seq<char>> {
        match self {
            ProposalView::CreateFile { path, .. } => Some(path),
            ProposalView::ModifyFile { path, .. } => Some(path),
            ProposalView::DeleteFile { path } => Some(path),
            ProposalView::RunCommand { .. } => None,
        }
    }
}

/// The views of a list of proposals, in order.
pub open spec fn proposal_views(list: Seq<Proposal>) -> Seq<ProposalView> {
    list.map_values(|p: Proposal| p@)
}

impl Proposal {
    /// The path that the proposal is about, where it is about one.
    pub fn path(&self) -> (p: Option<&str>)
        ensures
            match self@.path() {
                Some(text) => p matches Some(found) && found@ == text,
                None => p is None,
            },
    {
        match self {
            Proposal::CreateFile { path, .. } => Some(path.as_str()),
            Proposal::ModifyFile { path, .. } => Some(path.as_str()),
            Proposal::DeleteFile { path } => Some(path.as_str()),
            Proposal::RunCommand { .. } => None,
        }
    }

    /// Tells whether two proposals ask for the same effect.
    pub fn same_as(&self, other: &Proposal) -> (r: bool)
        ensures
            r == (self@ == other@),
    {
        match self {
            Proposal::CreateFile { path: p, content: c } => match other {
                Proposal::CreateFile { path: q, content: d } => *p == *q && *c == *d,
                _ => false,
            },
            Proposal::ModifyFile { path: p, content: c } => match other {
                Proposal::ModifyFile { path: q, content: d } => *p == *q && *c == *d,
                _ => false,
            },
            Proposal::DeleteFile { path: p } => match other {
                Proposal::DeleteFile { path: q } => *p == *q,
                _ => false,
            },
            Proposal::RunCommand { command: p, args: a } => match other {
                Proposal::RunCommand { command: q, args: b } => *p == *q && same_texts(a, b),
                _ => false,
            },
        }
    }
}

/// Tells whether two lists hold the same texts in the same order.
pub fn same_texts(a: &Vec<String>, b: &Vec<String>) -> (r: bool)
    ensures
        r == (texts(a@) == texts(b@)),
{
    if a.len() != b.len() {
        assert(texts(a@).len() != texts(b@).len());
        return false;
    }
    let mut i: usize = 0;
    while i < a.len()
        invariant
            0 <= i <= a@.len(),
            a@.len() == b@.len(),
            forall|k: int| 0 <= k < i ==> #[trigger] texts(a@)[k] == texts(b@)[k],
        decreases a@.len() - i,
    {
        if a[i] != b[i] {
            assert(texts(a@)[i as int] != texts(b@)[i as int]);
            return false;
        }
        i += 1;
    }
    assert(texts(a@) =~= texts(b@));
    true
}

} // verus!

//! The files that a plan works on, held in memory: a map from the text of a
//! path to the content of the file there.

use crate::text::str_eq;
use vstd::prelude::*;

verus! {

/// The texts of a list of entries, in order.
pub open spec fn entry_views(entries: Seq<(String, String)>) -> Seq<(Seq<char>, Seq<char>)> {
    entries.map_values(|e: (String, String)| (e.0@, e.1@))
}

/// The map that a list of entries stands for.
pub open spec fn tree_of(entries: Seq<(Seq<char>, Seq<char>)>) -> Map<Seq<char>, Seq<char>>
    decreases entries.len(),
{
    if entries.len() == 0 {
        Map::empty()
    } else {
        tree_of(entries.drop_last()).insert(entries.last().0, entries.last().1)
    }
}

/// No path occurs twice.
pub open spec fn distinct_paths(entries: Seq<(Seq<char>, Seq<char>)>) -> bool {
    forall|i: int, j: int|
        0 <= i < entries.len() && 0 <= j < entries.len() && i != j ==> (#[trigger] entries[i]).0
            != (#[trigger] entries[j]).0
}

proof fn lemma_tree_dom(entries: Seq<(Seq<char>, Seq<char>)>, path: Seq<char>)
    ensures
        tree_of(entries).dom().contains(path) <==> exists|i: int|
            0 <= i < entries.len() && (#[trigger] entries[i]).0 == path,
    decreases entries.len(),
{
    if entries.len() > 0 {
        let rest = entries.drop_last();
        lemma_tree_dom(rest, path);
        if tree_of(entries).dom().contains(path) {
            if entries.last().0 == path {
                assert(entries[entries.len() - 1].0 == path);
            } else {
                let i = choose|i: int| 0 <= i < rest.len() && (#[trigger] rest[i]).0 == path;
                assert(entries[i].0 == path);
            }
        }
        if exists|i: int| 0 <= i < entries.len() && (#[trigger] entries[i]).0 == path {
            let i = choose|i: int| 0 <= i < entries.len() && (#[trigger] entries[i]).0 == path;
            if i < rest.len() {
                assert(rest[i].0 == path);
            }
        }
    }
}

proof fn lemma_tree_value(entries: Seq<(Seq<char>, Seq<char>)>, i: int)
    requires
        distinct_paths(entries),
        0 <= i < entries.len(),
    ensures
        tree_of(entries).dom().contains(entries[i].0),
        tree_of(entries)[entries[i].0] == entries[i].1,
    decreases entries.len(),
{
    let rest = entries.drop_last();
    if i < entries.len() - 1 {
        assert(distinct_paths(rest)) by {
            assert forall|a: int, b: int|
                0 <= a < rest.len() && 0 <= b < rest.len() && a != b implies (#[trigger] rest[a]).0
                != (#[trigger] rest[b]).0 by {
                assert(rest[a] == entries[a] && rest[b] == entries[b]);
            }
        }
        lemma_tree_value(rest, i);
        assert(rest[i] == entries[i]);
        assert(entries[entries.len() - 1].0 != entries[i].0);
    }
}

proof fn lemma_tree_remove(entries: Seq<(Seq<char>, Seq<char>)>, i: int)
    requires
        distinct_paths(entries),
        0 <= i < entries.len(),
    ensures
        tree_of(entries.remove(i)) == tree_of(entries).remove(entries[i].0),
        distinct_paths(entries.remove(i)),
    decreases entries.len(),
{
    let rest = entries.drop_last();
    let removed = entries.remove(i);
    let last = entries.len() - 1;
    assert(distinct_paths(removed)) by {
        assert forall|a: int, b: int|
            0 <= a < removed.len() && 0 <= b < removed.len() && a != b implies (
            #[trigger] removed[a]).0 != (#[trigger] removed[b]).0 by {
            let x = if a < i { a } else { a + 1 };
            let y = if b < i { b } else { b + 1 };
            assert(removed[a] == entries[x] && removed[b] == entries[y]);
        }
    }
    assert(distinct_paths(rest)) by {
        assert forall|a: int, b: int|
            0 <= a < rest.len() && 0 <= b < rest.len() && a != b implies (#[trigger] rest[a]).0
            != (#[trigger] rest[b]).0 by {
            assert(rest[a] == entries[a] && rest[b] == entries[b]);
        }
    }
    if i == last {
        assert(removed =~= rest);
        lemma_tree_dom(rest, entries[i].0);
        if tree_of(rest).dom().contains(entries[i].0) {
            let k = choose|k: int| 0 <= k < rest.len() && (#[trigger] rest[k]).0 == entries[i].0;
            assert(rest[k] == entries[k]);
            assert(false);
        }
        assert(tree_of(entries).remove(entries[i].0) =~= tree_of(rest));
    } else {
        lemma_tree_remove(rest, i);
        assert(removed.drop_last() =~= rest.remove(i));
        assert(removed.last() == entries.last());
        assert(rest[i] == entries[i]);
        assert(entries[last].0 != entries[i].0);
        assert(tree_of(removed) =~= tree_of(entries).remove(entries[i].0));
    }
}

/// A set of files, each with its content, found by the text of its path.
#[derive(Debug)]
pub struct FileTree {
    entries: Vec<(String, String)>,
}

impl View for FileTree {
    type V = Map<Seq<char>, Seq<char>>;

    closed spec fn view(&self) -> Map<Seq<char>, Seq<char>> {
        tree_of(entry_views(self.entries@))
    }
}

impl FileTree {
    #[verifier::type_invariant]
    closed spec fn well_formed(self) -> bool {
        distinct_paths(entry_views(self.entries@))
    }

    /// A tree without files.
    pub fn new() -> (tree: FileTree)
        ensures
            tree@ == Map::<Seq<char>, Seq<char>>::empty(),
    {
        FileTree { entries: Vec::new() }
    }

    /// The number of files.
    pub fn len(&self) -> (n: usize)
        ensures
            n == self@.dom().len(),
            self@.dom().finite(),
    {
        proof {
            use_type_invariant(self);
            lemma_tree_size(entry_views(self.entries@));
        }
        self.entries.len()
    }

    fn find(&self, path: &str) -> (found: Option<usize>)
        ensures
            match found {
                Some(i) => i < self.entries@.len() && self.entries@[i as int].0@ == path@,
                None => forall|k: int|
                    0 <= k < self.entries@.len() ==> (#[trigger] self.entries@[k]).0@ != path@,
            },
    {
        let mut i: usize = 0;
        while i < self.entries.len()
            invariant
                0 <= i <= self.entries@.len(),
                forall|k: int| 0 <= k < i ==> (#[trigger] self.entries@[k]).0@ != path@,
            decreases self.entries@.len() - i,
        {
            if str_eq(self.entries[i].0.as_str(), path) {
                return Some(i);
            }
            i += 1;
        }
        None
    }

    /// Tells whether there is a file at `path`.
    pub fn contains(&self, path: &str) -> (r: bool)
        ensures
            r == self@.dom().contains(path@),
    {
        let found = self.find(path);
        proof {
            let views = entry_views(self.entries@);
            lemma_tree_dom(views, path@);
            match found {
                Some(i) => {
                    assert(views[i as int].0 == path@);
                },
                None => {
                    assert forall|k: int| 0 <= k < views.len() implies (#[trigger] views[k]).0
                        != path@ by {
                        assert(self.entries@[k].0@ != path@);
                    }
                },
            }
        }
        found.is_some()
    }

    /// The content of the file at `path`, where there is one.
    pub fn get(&self, path: &str) -> (content: Option<&str>)
        ensures
            match content {
                Some(c) => self@.dom().contains(path@) && c@ == self@[path@],
                None => !self@.dom().contains(path@),
            },
    {
        let found = self.find(path);
        proof {
            use_type_invariant(self);
            let views = entry_views(self.entries@);
            lemma_tree_dom(views, path@);
            match found {
                Some(i) => {
                    lemma_tree_value(views, i as int);
                },
                None => {
                    assert forall|k: int| 0 <= k < views.len() implies (#[trigger] views[k]).0
                        != path@ by {
                        assert(self.entries@[k].0@ != path@);
                    }
                },
            }
        }
        match found {
            Some(i) => Some(self.entries[i].1.as_str()),
            None => None,
        }
    }

    /// Takes the file at `path` away; tells whether there was one.
    pub fn remove(&mut self, path: &str) -> (was_there: bool)
        ensures
            was_there == old(self)@.dom().contains(path@),
            final(self)@ == old(self)@.remove(path@),
    {
        let found = self.find(path);
        proof {
            use_type_invariant(&*self);
            let views = entry_views(self.entries@);
            lemma_tree_dom(views, path@);
            match found {
                Some(i) => {
                    assert(views[i as int].0 == path@);
                    lemma_tree_remove(views, i as int);
                    assert(entry_views(self.entries@.remove(i as int)) =~= views.remove(i as int));
                },
                None => {
                    assert forall|k: int| 0 <= k < views.len() implies (#[trigger] views[k]).0
                        != path@ by {
                        assert(self.entries@[k].0@ != path@);
                    }
                    assert(self@.remove(path@) =~= self@);
                },
            }
        }
        match found {
            Some(i) => {
                let mut entries: Vec<(String, String)> = Vec::new();
                std::mem::swap(&mut self.entries, &mut entries);
                entries.remove(i);
                self.entries = entries;
                true
            },
            None => false,
        }
    }

    /// Puts a file at `path`, in place of the one that may be there.
    pub fn insert(&mut self, path: String, content: String)
        ensures
            final(self)@ == old(self)@.insert(path@, content@),
    {
        self.remove(path.as_str());
        let ghost before = entry_views(self.entries@);
        proof {
            use_type_invariant(&*self);
            lemma_tree_dom(before, path@);
        }
        let mut entries: Vec<(String, String)> = Vec::new();
        std::mem::swap(&mut self.entries, &mut entries);
        entries.push((path, content));
        proof {
            let after = entry_views(entries@);
            assert(after =~= before.push((path@, content@)));
            assert(after.drop_last() =~= before);
            assert(distinct_paths(after)) by {
                assert forall|a: int, b: int|
                    0 <= a < after.len() && 0 <= b < after.len() && a != b implies (
                    #[trigger] after[a]).0 != (#[trigger] after[b]).0 by {
                    if a < before.len() {
                        assert(after[a] == before[a]);
                    }
                    if b < before.len() {
                        assert(after[b] == before[b]);
                    }
                }
            }
            assert(old(self)@.remove(path@).insert(path@, content@) =~= old(self)@.insert(
                path@,
                content@,
            ));
        }
        self.entries = entries;
    }

    /// A copy of the tree.
    pub fn duplicate(&self) -> (copy: FileTree)
        ensures
            copy@ == self@,
    {
        let mut entries: Vec<(String, String)> = Vec::new();
        let mut i: usize = 0;
        while i < self.entries.len()
            invariant
                0 <= i <= self.entries@.len(),
                entry_views(entries@) == entry_views(self.entries@).take(i as int),
            decreases self.entries@.len() - i,
        {
            let ghost before = entries@;
            let path = self.entries[i].0.clone();
            let content = self.entries[i].1.clone();
            entries.push((path, content));
            proof {
                assert(entry_views(entries@) =~= entry_views(before).push((path@, content@)));
                assert(entry_views(self.entries@).take(i + 1) =~= entry_views(self.entries@).take(
                    i as int,
                ).push(entry_views(self.entries@)[i as int]));
            }
            i += 1;
        }
        proof {
            use_type_invariant(self);
            assert(entry_views(self.entries@).take(i as int) =~= entry_views(self.entries@));
        }
        FileTree { entries }
    }
}

proof fn lemma_tree_size(entries: Seq<(Seq<char>, Seq<char>)>)
    requires
        distinct_paths(entries),
    ensures
        tree_of(entries).dom().finite(),
        tree_of(entries).dom().len() == entries.len(),
    decreases entries.len(),
{
    if entries.len() > 0 {
        let rest = entries.drop_last();
        assert(distinct_paths(rest)) by {
            assert forall|a: int, b: int|
                0 <= a < rest.len() && 0 <= b < rest.len() && a != b implies (#[trigger] rest[a]).0
                != (#[trigger] rest[b]).0 by {
                assert(rest[a] == entries[a] && rest[b] == entries[b]);
            }
        }
        lemma_tree_size(rest);
        lemma_tree_dom(rest, entries.last().0);
        if tree_of(rest).dom().contains(entries.last().0) {
            let k = choose|k: int| 0 <= k < rest.len() && (#[trigger] rest[k]).0 == entries.last().0;
            assert(rest[k] == entries[k]);
            assert(entries[entries.len() - 1] == entries.last());
            assert(false);
        }
    }
}

} // verus!

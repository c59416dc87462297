//! The directories that an extension may reach, and the lexical form of the
//! paths that are held against them.
//!
//! A path is a sequence of components below the filesystem root. Texts are
//! read with `/` as the separator; symbolic links are resolved by the caller
//! before a text comes here.

use crate::text::{owned, texts};
use vstd::prelude::*;

verus! {

/// Where the reading of a path text stands: the components kept so far, and
/// the characters of the component that is being read.
pub struct Walk {
    pub kept: Seq<Seq<char>>,
    pub current: Seq<char>,
}

/// Ends a component. An empty component and `.` change nothing, `..` gives
/// up the last component kept (at the root there is none to give up), and
/// any other component is kept.
pub open spec fn close_component(kept: Seq<Seq<char>>, component: Seq<char>) -> Seq<Seq<char>> {
    if component.len() == 0 || component == seq!['.'] {
        kept
    } else if component == seq!['.', '.'] {
        if kept.len() > 0 {
            kept.drop_last()
        } else {
            kept
        }
    } else {
        kept.push(component)
    }
}

/// Reads `text` from left to right, starting below `base`.
pub open spec fn walk(base: Seq<Seq<char>>, text: Seq<char>) -> Walk
    decreases text.len(),
{
    if text.len() == 0 {
        Walk { kept: base, current: Seq::empty() }
    } else {
        let w = walk(base, text.drop_last());
        if text.last() == '/' {
            Walk { kept: close_component(w.kept, w.current), current: Seq::empty() }
        } else {
            Walk { kept: w.kept, current: w.current.push(text.last()) }
        }
    }
}

/// The path that `text` names below `base`, with `.` and `..` resolved.
pub open spec fn lexical(base: Seq<Seq<char>>, text: Seq<char>) -> Seq<Seq<char>> {
    let w = walk(base, text);
    close_component(w.kept, w.current)
}

/// A text that starts at the filesystem root.
pub open spec fn is_absolute(text: Seq<char>) -> bool {
    text.len() > 0 && text[0] == '/'
}

/// The path that `text` names: an absolute text counts from the filesystem
/// root, any other from `base`.
pub open spec fn resolve_path(base: Seq<Seq<char>>, text: Seq<char>) -> Seq<Seq<char>> {
    if is_absolute(text) {
        lexical(Seq::empty(), text)
    } else {
        lexical(base, text)
    }
}

/// `path` is `root` or lies below it.
pub open spec fn is_within(root: Seq<Seq<char>>, path: Seq<Seq<char>>) -> bool {
    root.len() <= path.len() && path.subrange(0, root.len() as int) == root
}

/// A component that names a directory entry: not empty, not `.` or `..`, and
/// without a separator.
pub open spec fn is_plain_component(component: Seq<char>) -> bool {
    &&& component.len() > 0
    &&& component != seq!['.']
    &&& component != seq!['.', '.']
    &&& forall|i: int| 0 <= i < component.len() ==> component[i] != '/'
}

/// Every component of the path is plain.
pub open spec fn is_clean(path: Seq<Seq<char>>) -> bool {
    forall|i: int| 0 <= i < path.len() ==> is_plain_component(#[trigger] path[i])
}

/// A path below the filesystem root, as the list of its components.
#[derive(Debug)]
pub struct CanonicalPath {
    components: Vec<String>,
}

impl View for CanonicalPath {
    type V = Seq<Seq<char>>;

    closed spec fn view(&self) -> Seq<Seq<char>> {
        texts(self.components@)
    }
}

fn close_into(kept: &mut Vec<String>, text: &str, from: usize, to: usize)
    requires
        from <= to <= text@.len(),
    ensures
        texts(final(kept)@) == close_component(
            texts(old(kept)@),
            text@.subrange(from as int, to as int),
        ),
{
    let ghost component = text@.subrange(from as int, to as int);
    let len = to - from;
    if len == 0 {
        return ;
    }
    if len == 1 && text.get_char(from) == '.' {
        assert(component =~= seq!['.']);
        return ;
    }
    if len == 2 && text.get_char(from) == '.' && text.get_char(from + 1) == '.' {
        assert(component =~= seq!['.', '.']);
        if kept.len() > 0 {
            kept.pop();
            assert(texts(kept@) =~= texts(old(kept)@).drop_last());
        }
        return ;
    }
    proof {
        if component == seq!['.'] {
            assert(component.len() == 1 && component[0] == '.');
        }
        if component == seq!['.', '.'] {
            assert(component.len() == 2 && component[0] == '.' && component[1] == '.');
        }
    }
    kept.push(owned(text.substring_char(from, to)));
    assert(texts(kept@) =~= texts(old(kept)@).push(component));
}

fn walk_into(kept: &mut Vec<String>, text: &str)
    ensures
        texts(final(kept)@) == lexical(texts(old(kept)@), text@),
{
    let ghost base = texts(old(kept)@);
    let n = text.unicode_len();
    let mut start: usize = 0;
    let mut i: usize = 0;
    assert(text@.take(0) =~= Seq::<char>::empty());
    assert(text@.subrange(0, 0) =~= Seq::<char>::empty());
    while i < n
        invariant
            0 <= start <= i <= n,
            n == text@.len(),
            walk(base, text@.take(i as int)) == (Walk {
                kept: texts(kept@),
                current: text@.subrange(start as int, i as int),
            }),
        decreases n - i,
    {
        let c = text.get_char(i);
        proof {
            assert(text@.take(i + 1).drop_last() =~= text@.take(i as int));
            assert(text@.take(i + 1).last() == c);
            assert(text@.subrange(start as int, i + 1) =~= text@.subrange(
                start as int,
                i as int,
            ).push(c));
        }
        if c == '/' {
            close_into(kept, text, start, i);
            start = i + 1;
            assert(text@.subrange(start as int, i + 1) =~= Seq::<char>::empty());
        }
        i += 1;
    }
    assert(text@.take(n as int) =~= text@);
    close_into(kept, text, start, n);
}

/// Why a path was turned away.
#[derive(Debug)]
pub enum SandboxError {
    /// The path lies outside every directory of the sandbox.
    AccessDenied { path: String },
}

impl CanonicalPath {
    #[verifier::type_invariant]
    closed spec fn well_formed(self) -> bool {
        is_clean(self@)
    }

    /// The filesystem root.
    pub fn root() -> (p: CanonicalPath)
        ensures
            p@ == Seq::<Seq<char>>::empty(),
    {
        let components: Vec<String> = Vec::new();
        assert(texts(components@) =~= Seq::<Seq<char>>::empty());
        CanonicalPath { components }
    }


    /// Reads a text from the filesystem root.
    pub fn parse(text: &str) -> (p: CanonicalPath)
        ensures
            p@ == lexical(Seq::empty(), text@),
            is_clean(p@),
    {
        let mut components: Vec<String> = Vec::new();
        assert(texts(components@) =~= Seq::<Seq<char>>::empty());
        walk_into(&mut components, text);
        proof {
            lemma_lexical_is_clean(Seq::empty(), text@);
        }
        CanonicalPath { components }
    }

    /// The path that `text` names: an absolute text counts from the
    /// filesystem root, any other from this path.
    pub fn resolve(&self, text: &str) -> (p: CanonicalPath)
        ensures
            p@ == resolve_path(self@, text@),
            is_clean(self@),
            is_clean(p@),
    {
        proof {
            use_type_invariant(self);
            lemma_resolved_path_is_clean(self@, text@);
        }
        if text.unicode_len() > 0 && text.get_char(0) == '/' {
            CanonicalPath::parse(text)
        } else {
            let mut components: Vec<String> = Vec::new();
            let mut i: usize = 0;
            while i < self.components.len()
                invariant
                    0 <= i <= self.components@.len(),
                    texts(components@) == texts(self.components@).take(i as int),
                decreases self.components@.len() - i,
            {
                let ghost before = components@;
                let component = self.components[i].clone();
                components.push(component);
                assert(texts(components@) =~= texts(before).push(component@));
                assert(texts(self.components@).take(i + 1) =~= texts(self.components@).take(
                    i as int,
                ).push(self.components@[i as int]@));
                i += 1;
            }
            assert(texts(self.components@).take(i as int) =~= texts(self.components@));
            walk_into(&mut components, text);
            proof {
                use_type_invariant(self);
                lemma_lexical_is_clean(self@, text@);
            }
            CanonicalPath { components }
        }
    }

    /// The number of components.
    pub fn depth(&self) -> (n: usize)
        ensures
            n == self@.len(),
    {
        self.components.len()
    }

    /// The component at place `i`, counted from 0, where there is one.
    pub fn component(&self, i: usize) -> (c: Option<&str>)
        ensures
            match c {
                Some(found) => i < self@.len() && found@ == self@[i as int],
                None => i >= self@.len(),
            },
    {
        if i < self.components.len() {
            Some(self.components[i].as_str())
        } else {
            None
        }
    }

    /// Tells whether this path is `root` or lies below it.
    pub fn starts_with(&self, root: &CanonicalPath) -> (r: bool)
        ensures
            r == is_within(root@, self@),
    {
        if root.components.len() > self.components.len() {
            return false;
        }
        let mut i: usize = 0;
        while i < root.components.len()
            invariant
                0 <= i <= root.components@.len(),
                root.components@.len() <= self.components@.len(),
                forall|k: int| 0 <= k < i ==> #[trigger] self@[k] == root@[k],
            decreases root.components@.len() - i,
        {
            if self.components[i] != root.components[i] {
                assert(self@[i as int] != root@[i as int]);
                assert(self@.subrange(0, root@.len() as int)[i as int] == self@[i as int]);
                return false;
            }
            i += 1;
        }
        assert(self@.subrange(0, root@.len() as int) =~= root@);
        true
    }

    /// Tells whether two paths are the same.
    pub fn same_as(&self, other: &CanonicalPath) -> (r: bool)
        ensures
            r == (self@ == other@),
    {
        if self.components.len() != other.components.len() {
            return false;
        }
        let within = self.starts_with(other);
        proof {
            assert(self@.subrange(0, other@.len() as int) =~= self@);
        }
        within
    }
}

/// The text of a path: `/` for the root, else each component behind a `/`.
pub open spec fn path_text(path: Seq<Seq<char>>) -> Seq<char>
    decreases path.len(),
{
    if path.len() == 0 {
        seq!['/']
    } else if path.len() == 1 {
        seq!['/'] + path[0]
    } else {
        path_text(path.drop_last()) + seq!['/'] + path.last()
    }
}

impl CanonicalPath {
    /// The path as text.
    pub fn to_text(&self) -> (t: String)
        ensures
            t@ == path_text(self@),
            is_absolute(t@),
            lexical(Seq::empty(), t@) == self@,
    {
        proof {
            use_type_invariant(self);
            lemma_path_text_reads_back(self@);
        }
        let mut t = owned("/");
        proof {
            reveal_strlit("/");
            assert(t@ =~= seq!['/']);
        }
        if self.components.len() == 0 {
            return t;
        }
        t.append(self.components[0].as_str());
        assert(self@.take(1).len() == 1 && self@.take(1)[0] == self@[0]);
        assert(t@ == path_text(self@.take(1)));
        let mut i: usize = 1;
        while i < self.components.len()
            invariant
                1 <= i <= self.components@.len(),
                t@ == path_text(self@.take(i as int)),
            decreases self.components@.len() - i,
        {
            t.append("/");
            t.append(self.components[i].as_str());
            proof {
                reveal_strlit("/");
                assert("/"@ =~= seq!['/']);
                assert(self@.take(i + 1).drop_last() =~= self@.take(i as int));
                assert(self@.take(i + 1).last() == self@[i as int]);
                assert(t@ =~= path_text(self@.take(i as int)) + seq!['/'] + self@[i as int]);
            }
            i += 1;
        }
        assert(self@.take(i as int) =~= self@);
        t
    }
}

/// The directories that an extension may reach.
#[derive(Debug)]
pub struct SandboxView {
    roots: Vec<CanonicalPath>,
}

/// The paths of a list, in order.
pub open spec fn paths(list: Seq<CanonicalPath>) -> Seq<Seq<Seq<char>>> {
    list.map_values(|p: CanonicalPath| p@)
}

/// `path` is one of `roots` or lies below one of them.
pub open spec fn is_allowed(roots: Seq<Seq<Seq<char>>>, path: Seq<Seq<char>>) -> bool {
    exists|i: int| 0 <= i < roots.len() && is_within(#[trigger] roots[i], path)
}

/// What [`SandboxView::open`] answers for a canonical text: the path it
/// names, where the text is absolute and the path is allowed.
pub open spec fn opens(roots: Seq<Seq<Seq<char>>>, text: Seq<char>) -> Option<Seq<Seq<char>>> {
    if is_absolute(text) && is_allowed(roots, lexical(Seq::empty(), text)) {
        Some(lexical(Seq::empty(), text))
    } else {
        None
    }
}

impl SandboxView {
    /// The roots of the sandbox.
    pub closed spec fn roots(&self) -> Seq<Seq<Seq<char>>> {
        paths(self.roots@)
    }

    /// A sandbox with the given roots, each a canonical absolute text.
    pub fn new(roots: &Vec<String>) -> (view: SandboxView)
        ensures
            view.roots() == texts(roots@).map_values(|t: Seq<char>| lexical(Seq::empty(), t)),
    {
        let mut list: Vec<CanonicalPath> = Vec::new();
        let mut i: usize = 0;
        while i < roots.len()
            invariant
                0 <= i <= roots@.len(),
                list@.len() == i,
                forall|k: int|
                    0 <= k < i ==> (#[trigger] list@[k])@ == lexical(Seq::empty(), roots@[k]@),
            decreases roots@.len() - i,
        {
            list.push(CanonicalPath::parse(roots[i].as_str()));
            i += 1;
        }
        let view = SandboxView { roots: list };
        assert(view.roots() =~= texts(roots@).map_values(|t: Seq<char>| lexical(Seq::empty(), t)));
        view
    }

    /// Tells whether a path is one of the roots or lies below one.
    pub fn contains(&self, path: &CanonicalPath) -> (r: bool)
        ensures
            r == is_allowed(self.roots(), path@),
    {
        let mut i: usize = 0;
        while i < self.roots.len()
            invariant
                0 <= i <= self.roots@.len(),
                forall|k: int| 0 <= k < i ==> !is_within(#[trigger] self.roots()[k], path@),
            decreases self.roots@.len() - i,
        {
            if path.starts_with(&self.roots[i]) {
                assert(is_within(self.roots()[i as int], path@));
                return true;
            }
            i += 1;
        }
        false
    }

    /// Admits a canonical path text to the sandbox. The text must be absolute
    /// and name one of the roots or something below one; any other text is
    /// turned away.
    pub fn open(&self, path: &str) -> (r: Result<CanonicalPath, SandboxError>)
        ensures
            match opens(self.roots(), path@) {
                Some(p) => r matches Ok(found) && found@ == p,
                None => r matches Err(SandboxError::AccessDenied { path: denied }) && denied@
                    == path@,
            },
    {
        if path.unicode_len() > 0 && path.get_char(0) == '/' {
            let found = CanonicalPath::parse(path);
            if self.contains(&found) {
                return Ok(found);
            }
        }
        Err(SandboxError::AccessDenied { path: owned(path) })
    }

    /// Resolves a path that a proposal names, relative to `base`, and admits
    /// it where it stays inside the sandbox.
    pub fn locate(&self, base: &CanonicalPath, text: &str) -> (r: Result<CanonicalPath, SandboxError>)
        ensures
            match r {
                Ok(found) => found@ == resolve_path(base@, text@) && is_allowed(
                    self.roots(),
                    found@,
                ),
                Err(SandboxError::AccessDenied { path: denied }) => denied@ == text@ && !is_allowed(
                    self.roots(),
                    resolve_path(base@, text@),
                ),
            },
    {
        let found = base.resolve(text);
        if self.contains(&found) {
            Ok(found)
        } else {
            Err(SandboxError::AccessDenied { path: owned(text) })
        }
    }
}

impl SandboxError {
    /// The text shown to the operator.
    pub fn message(&self) -> (m: String)
        ensures
            self matches SandboxError::AccessDenied { path } && m@ == "Access to "@ + path@
                + " denied"@,
    {
        match self {
            SandboxError::AccessDenied { path } => {
                let mut m = owned("Access to ");
                m.append(path.as_str());
                m.append(" denied");
                m
            },
        }
    }
}

proof fn lemma_walk_clean(base: Seq<Seq<char>>, text: Seq<char>)
    requires
        is_clean(base),
    ensures
        is_clean(walk(base, text).kept),
        forall|i: int| 0 <= i < walk(base, text).current.len() ==> walk(base, text).current[i] != '/',
    decreases text.len(),
{
    if text.len() > 0 {
        lemma_walk_clean(base, text.drop_last());
        let w = walk(base, text.drop_last());
        lemma_close_clean(w.kept, w.current);
    }
}

proof fn lemma_close_clean(kept: Seq<Seq<char>>, component: Seq<char>)
    requires
        is_clean(kept),
        forall|i: int| 0 <= i < component.len() ==> component[i] != '/',
    ensures
        is_clean(close_component(kept, component)),
{
    let closed = close_component(kept, component);
    assert forall|i: int| 0 <= i < closed.len() implies is_plain_component(#[trigger] closed[i]) by {
        if i < kept.len() {
            assert(closed[i] == kept[i]);
        }
    }
}

/// Reading a text below a path of plain components gives a path of plain
/// components.
pub proof fn lemma_lexical_is_clean(base: Seq<Seq<char>>, text: Seq<char>)
    requires
        is_clean(base),
    ensures
        is_clean(lexical(base, text)),
{
    lemma_walk_clean(base, text);
    let w = walk(base, text);
    lemma_close_clean(w.kept, w.current);
}

/// A resolved path holds no `.`, no `..`, no empty component and no
/// separator: what was checked against the roots cannot climb out of them
/// afterwards.
pub proof fn lemma_resolved_path_is_clean(base: Seq<Seq<char>>, text: Seq<char>)
    requires
        is_clean(base),
    ensures
        is_clean(resolve_path(base, text)),
{
    lemma_lexical_is_clean(Seq::empty(), text);
    lemma_lexical_is_clean(base, text);
}

proof fn lemma_walk_plain_suffix(base: Seq<Seq<char>>, text: Seq<char>, more: Seq<char>)
    requires
        forall|i: int| 0 <= i < more.len() ==> more[i] != '/',
    ensures
        walk(base, text + more) == (Walk {
            kept: walk(base, text).kept,
            current: walk(base, text).current + more,
        }),
    decreases more.len(),
{
    if more.len() == 0 {
        assert(text + more =~= text);
        assert(walk(base, text).current + more =~= walk(base, text).current);
    } else {
        let shorter = more.drop_last();
        lemma_walk_plain_suffix(base, text, shorter);
        assert((text + more).drop_last() =~= text + shorter);
        assert((text + more).last() == more.last());
        assert(walk(base, text).current + more =~= (walk(base, text).current + shorter).push(
            more.last(),
        ));
    }
}

proof fn lemma_walk_of_separator(base: Seq<Seq<char>>)
    ensures
        walk(base, seq!['/']) == (Walk { kept: base, current: Seq::empty() }),
{
    let slash = seq!['/'];
    assert(slash.drop_last() =~= Seq::<char>::empty());
    assert(walk(base, slash.drop_last()) == (Walk { kept: base, current: Seq::empty() }));
    assert(slash.last() == '/');
}

proof fn lemma_walk_of_path_text(path: Seq<Seq<char>>)
    requires
        is_clean(path),
        path.len() > 0,
    ensures
        walk(Seq::empty(), path_text(path)) == (Walk { kept: path.drop_last(), current: path.last() }),
    decreases path.len(),
{
    let none = Seq::<Seq<char>>::empty();
    let slash = seq!['/'];
    if path.len() == 1 {
        lemma_walk_of_separator(none);
        lemma_walk_plain_suffix(none, slash, path[0]);
        assert(Seq::<char>::empty() + path[0] =~= path[0]);
        assert(path.drop_last() =~= none);
    } else {
        let before = path.drop_last();
        assert(is_clean(before)) by {
            assert forall|i: int| 0 <= i < before.len() implies is_plain_component(
                #[trigger] before[i],
            ) by {
                assert(before[i] == path[i]);
            }
        }
        lemma_walk_of_path_text(before);
        let head = path_text(before);
        assert((head + slash).drop_last() =~= head);
        assert((head + slash).last() == '/');
        assert(is_plain_component(before.last())) by {
            assert(before.last() == before[before.len() - 1]);
        }
        assert(close_component(before.drop_last(), before.last()) =~= before);
        assert(walk(none, head + slash) == (Walk { kept: before, current: Seq::empty() }));
        assert(is_plain_component(path.last())) by {
            assert(path.last() == path[path.len() - 1]);
        }
        lemma_walk_plain_suffix(none, head + slash, path.last());
        assert(Seq::<char>::empty() + path.last() =~= path.last());
    }
}

/// The text of a path of plain components reads back as that path: what
/// is opened under the text is what was checked.
pub proof fn lemma_path_text_reads_back(path: Seq<Seq<char>>)
    requires
        is_clean(path),
    ensures
        is_absolute(path_text(path)),
        lexical(Seq::empty(), path_text(path)) == path,
{
    let none = Seq::<Seq<char>>::empty();
    if path.len() == 0 {
        let slash = seq!['/'];
        lemma_walk_of_separator(none);
        assert(path =~= none);
    } else {
        lemma_walk_of_path_text(path);
        assert(is_plain_component(path.last())) by {
            assert(path.last() == path[path.len() - 1]);
        }
        assert(path.drop_last().push(path.last()) =~= path);
        lemma_path_text_starts_at_root(path);
    }
}

proof fn lemma_path_text_starts_at_root(path: Seq<Seq<char>>)
    ensures
        path_text(path).len() > 0,
        path_text(path)[0] == '/',
    decreases path.len(),
{
    if path.len() > 1 {
        lemma_path_text_starts_at_root(path.drop_last());
    }
}

/// Two paths of plain components with the same text are the same path: no
/// two targets share a file.
pub proof fn lemma_path_text_is_injective(a: Seq<Seq<char>>, b: Seq<Seq<char>>)
    requires
        is_clean(a),
        is_clean(b),
        path_text(a) == path_text(b),
    ensures
        a == b,
{
    lemma_path_text_reads_back(a);
    lemma_path_text_reads_back(b);
}

/// A plain name below a base names the entry of that name in the base, and
/// what lies in an allowed directory is allowed: a file of the project root
/// is never turned away.
pub proof fn lemma_plain_name_descends(roots: Seq<Seq<Seq<char>>>, base: Seq<Seq<char>>, name: Seq<char>)
    requires
        is_plain_component(name),
    ensures
        resolve_path(base, name) == base.push(name),
        is_allowed(roots, base) ==> is_allowed(roots, resolve_path(base, name)),
{
    let none = Seq::<char>::empty();
    lemma_walk_plain_suffix(base, none, name);
    assert(none + name =~= name);
    assert(walk(base, none) == (Walk { kept: base, current: none }));
    assert(name[0] != '/');
    if is_allowed(roots, base) {
        let i = choose|i: int| 0 <= i < roots.len() && is_within(#[trigger] roots[i], base);
        let below = base.push(name);
        assert(below.subrange(0, roots[i].len() as int) =~= base.subrange(0, roots[i].len() as int));
        assert(is_within(roots[i], below));
    }
}

/// Climbing from a root with `..` leaves the root: the parent of a root is
/// not within it.
pub proof fn lemma_parent_of_root_is_outside(root: Seq<Seq<char>>)
    requires
        root.len() > 0,
    ensures
        resolve_path(root, seq!['.', '.']) == root.drop_last(),
        !is_within(root, resolve_path(root, seq!['.', '.'])),
{
    let none = Seq::<char>::empty();
    let up = seq!['.', '.'];
    lemma_walk_plain_suffix(root, none, up);
    assert(none + up =~= up);
    assert(walk(root, none) == (Walk { kept: root, current: none }));
    assert(up != seq!['.']) by {
        assert(up.len() != seq!['.'].len());
    }
}

/// A path above a root, or beside it, is not within it: a path that is
/// within a root has the root's components as its first ones.
pub proof fn lemma_within_shares_prefix(root: Seq<Seq<char>>, path: Seq<Seq<char>>, i: int)
    requires
        is_within(root, path),
        0 <= i < root.len(),
    ensures
        root.len() <= path.len(),
        path[i] == root[i],
{
    assert(path.subrange(0, root.len() as int)[i] == path[i]);
}

/// A text that is turned away by every root is turned away by the sandbox:
/// `open` admits exactly the absolute texts whose path is within a root.
pub proof fn lemma_outside_is_denied(roots: Seq<Seq<Seq<char>>>, text: Seq<char>)
    requires
        forall|i: int| 0 <= i < roots.len() ==> !is_within(#[trigger] roots[i], lexical(Seq::empty(), text)),
    ensures
        opens(roots, text) is None,
{
}

} // verus!

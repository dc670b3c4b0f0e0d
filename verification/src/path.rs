//! File paths as lists of components.
//!
//! Two paths are the same where their components are, however they were
//! written down.

use vstd::prelude::*;
use vstd::string::*;

use crate::text;

verus! {

/// One component of a path: a root (or a drive), or a name in a directory.
#[derive(Debug, PartialEq, Eq)]
pub enum PathPart {
    Root(String),
    Name(String),
}

/// What a component is.
pub enum PartModel {
    Root(Seq<char>),
    Name(Seq<char>),
}

impl View for PathPart {
    type V = PartModel;

    open spec fn view(&self) -> PartModel {
        match self {
            PathPart::Root(s) => PartModel::Root(s@),
            PathPart::Name(s) => PartModel::Name(s@),
        }
    }
}

impl PathPart {
    fn duplicate(&self) -> (r: PathPart)
        ensures
            r@ == self@,
    {
        match self {
            PathPart::Root(s) => PathPart::Root(s.clone()),
            PathPart::Name(s) => PathPart::Name(s.clone()),
        }
    }

    fn same(&self, other: &PathPart) -> (r: bool)
        ensures
            r == (self@ == other@),
    {
        match (self, other) {
            (PathPart::Root(a), PathPart::Root(b)) => text::same_text(a, b),
            (PathPart::Name(a), PathPart::Name(b)) => text::same_text(a, b),
            _ => false,
        }
    }
}

/// A file path.
#[derive(Debug, PartialEq, Eq)]
pub struct FilePath {
    pub parts: Vec<PathPart>,
}

impl View for FilePath {
    type V = Seq<PartModel>;

    open spec fn view(&self) -> Seq<PartModel> {
        self.parts@.map_values(|p: PathPart| p@)
    }
}

/// The directory that a path lies in: all but the last component. The empty path
/// and a path that ends in a root lie in none.
pub open spec fn parent_of(path: Seq<PartModel>) -> Option<Seq<PartModel>> {
    if path.len() > 0 && path.last() is Name {
        Some(path.drop_last())
    } else {
        None
    }
}

/// The path of `name` in the directory `dir`.
pub open spec fn under(dir: Seq<PartModel>, name: Seq<char>) -> Seq<PartModel> {
    dir.push(PartModel::Name(name))
}

/// Whether `path` lies in `base` or is `base` itself, component by component.
pub open spec fn lies_in(path: Seq<PartModel>, base: Seq<PartModel>) -> bool {
    base.is_prefix_of(path)
}

/// How a path is written: its components with `/` between them, but none after a
/// root.
pub open spec fn written(path: Seq<PartModel>) -> Seq<char>
    decreases path.len(),
{
    if path.len() == 0 {
        Seq::empty()
    } else {
        let front = path.drop_last();
        let name = match path.last() {
            PartModel::Root(s) => s,
            PartModel::Name(s) => s,
        };
        if front.len() == 0 {
            name
        } else if front.last() is Root {
            written(front) + name
        } else {
            written(front) + "/"@ + name
        }
    }
}

/// What lies directly under a directory has that directory as its parent.
pub proof fn parent_of_under(dir: Seq<PartModel>, name: Seq<char>)
    ensures
        parent_of(under(dir, name)) == Some(dir),
        lies_in(under(dir, name), dir),
{
    assert(under(dir, name).drop_last() =~= dir);
}

impl FilePath {
    /// The path with the given components.
    pub fn new(parts: Vec<PathPart>) -> (r: FilePath)
        ensures
            r@ == parts@.map_values(|p: PathPart| p@),
    {
        FilePath { parts }
    }

    /// The same path once more.
    pub fn duplicate(&self) -> (r: FilePath)
        ensures
            r@ == self@,
    {
        let mut parts: Vec<PathPart> = Vec::new();
        let mut i: usize = 0;
        while i < self.parts.len()
            invariant
                i <= self.parts@.len(),
                parts@.len() == i,
                forall|j: int| 0 <= j < i ==> (#[trigger] parts@[j])@ == self.parts@[j]@,
            decreases self.parts@.len() - i,
        {
            parts.push(self.parts[i].duplicate());
            i += 1;
        }
        let r = FilePath { parts };
        assert(r@ =~= self@);
        r
    }

    /// The path of `name` in this directory.
    pub fn join(&self, name: &str) -> (r: FilePath)
        ensures
            r@ == under(self@, name@),
    {
        let mut r: FilePath = self.duplicate();
        let ghost before = r@;
        r.parts.push(PathPart::Name(name.to_owned()));
        assert(r@ =~= under(before, name@));
        r
    }

    /// The directory that this path lies in.
    pub fn parent(&self) -> (r: Option<FilePath>)
        ensures
            match r {
                Some(p) => parent_of(self@) == Some(p@),
                None => parent_of(self@) is None,
            },
    {
        let n: usize = self.parts.len();
        if n == 0 {
            return None;
        }
        assert(self@.last() == self.parts@.last()@);
        match &self.parts[n - 1] {
            PathPart::Root(_) => None,
            PathPart::Name(_) => {
                let mut r: FilePath = self.duplicate();
                let ghost before = r@;
                let _ = r.parts.pop();
                assert(r@ =~= before.drop_last());
                Some(r)
            },
        }
    }

    /// The path as it is written.
    pub fn display(&self) -> (r: String)
        ensures
            r@ == written(self@),
    {
        let mut r: String = String::new();
        let mut i: usize = 0;
        assert(self@.take(0) =~= Seq::<PartModel>::empty());
        assert(r@ =~= Seq::<char>::empty());
        while i < self.parts.len()
            invariant
                i <= self.parts@.len(),
                r@ == written(self@.take(i as int)),
            decreases self.parts@.len() - i,
        {
            let ghost upto = self@.take(i + 1);
            assert(upto.drop_last() =~= self@.take(i as int));
            assert(upto.last() == self.parts@[i as int]@);
            if i > 0 {
                assert(self@.take(i as int).last() == self.parts@[i - 1]@);
                match &self.parts[i - 1] {
                    PathPart::Root(_) => {},
                    PathPart::Name(_) => {
                        r.append("/");
                    },
                }
            }
            match &self.parts[i] {
                PathPart::Root(s) => {
                    if i == 0 {
                        r = s.clone();
                    } else {
                        r.append(s.as_str());
                    }
                },
                PathPart::Name(s) => {
                    if i == 0 {
                        r = s.clone();
                    } else {
                        r.append(s.as_str());
                    }
                },
            }
            i += 1;
        }
        assert(self@.take(self@.len() as int) =~= self@);
        r
    }

    /// Whether this path lies in `base` or is `base` itself.
    pub fn starts_with(&self, base: &FilePath) -> (r: bool)
        ensures
            r == lies_in(self@, base@),
    {
        if base.parts.len() > self.parts.len() {
            return false;
        }
        let mut i: usize = 0;
        while i < base.parts.len()
            invariant
                i <= base.parts@.len() <= self.parts@.len(),
                forall|j: int| 0 <= j < i ==> self@[j] == #[trigger] base@[j],
            decreases base.parts@.len() - i,
        {
            assert(self@[i as int] == self.parts@[i as int]@);
            assert(base@[i as int] == base.parts@[i as int]@);
            if !self.parts[i].same(&base.parts[i]) {
                return false;
            }
            i += 1;
        }
        assert(base@ =~= self@.subrange(0, base@.len() as int));
        true
    }
}

/// The path, where there is one, as a model.
pub open spec fn path_option(path: Option<FilePath>) -> Option<Seq<PartModel>> {
    match path {
        Some(p) => Some(p@),
        None => None,
    }
}

/// The same optional path once more.
pub fn duplicate_option(path: &Option<FilePath>) -> (r: Option<FilePath>)
    ensures
        path_option(r) == path_option(*path),
{
    match path {
        Some(p) => Some(p.duplicate()),
        None => None,
    }
}

/// Paths by their components: what lies under a directory has one more component,
/// a name, at its end; the parent is all but a name at the end; and a path lies in
/// another where it begins with its components.
pub proof fn paths_are_their_components(path: Seq<PartModel>, base: Seq<PartModel>, name: Seq<char>)
    ensures
        under(path, name).len() == path.len() + 1,
        forall|i: int| 0 <= i < path.len() ==> #[trigger] under(path, name)[i] == path[i],
        under(path, name)[path.len() as int] == PartModel::Name(name),
        forall|dir: Seq<PartModel>| #[trigger]
            parent_of(path) == Some(dir) <==> path.len() == dir.len() + 1 && path.last() is Name
                && dir == path.take(dir.len() as int),
        lies_in(path, base) <==> base.len() <= path.len() && forall|i: int|
            0 <= i < base.len() ==> #[trigger] base[i] == path[i],
{
    assert forall|dir: Seq<PartModel>| #[trigger] parent_of(path) == Some(dir) <==> path.len()
        == dir.len() + 1 && path.last() is Name && dir == path.take(dir.len() as int) by {
        if path.len() > 0 {
            assert(path.drop_last() =~= path.take(path.len() - 1));
        }
    }
    if base.len() <= path.len() && forall|i: int|
        0 <= i < base.len() ==> #[trigger] base[i] == path[i] {
        assert(base =~= path.subrange(0, base.len() as int));
    }
    if lies_in(path, base) {
        assert forall|i: int| 0 <= i < base.len() implies #[trigger] base[i] == path[i] by {
            assert(path.subrange(0, base.len() as int)[i] == path[i]);
        }
    }
}

/// A path is written component by component, with a slash between names, and none
/// after a root.
pub proof fn paths_are_written_in_order(dir: Seq<PartModel>, name: Seq<char>, root: Seq<char>)
    ensures
        written(Seq::empty()) == Seq::<char>::empty(),
        written(seq![PartModel::Root(root)]) == root,
        written(seq![PartModel::Name(name)]) == name,
        dir.len() > 0 && dir.last() is Root ==> written(under(dir, name)) == written(dir) + name,
        dir.len() > 0 && dir.last() is Name ==> written(under(dir, name)) == written(dir) + "/"@
            + name,
{
    assert(under(dir, name).drop_last() =~= dir);
    assert(seq![PartModel::Root(root)].drop_last() =~= Seq::<PartModel>::empty());
    assert(seq![PartModel::Name(name)].drop_last() =~= Seq::<PartModel>::empty());
}

/// A path says what it holds.
pub proof fn paths_say_what_they_hold(p: FilePath, part: PathPart, i: int)
    ensures
        p@.len() == p.parts@.len(),
        0 <= i < p.parts@.len() ==> p@[i] == p.parts@[i]@,
        part matches PathPart::Root(s) ==> part@ == PartModel::Root(s@),
        part matches PathPart::Name(s) ==> part@ == PartModel::Name(s@),
{
}

} // verus!

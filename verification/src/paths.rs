//! Paths as the organizer sees them: a sequence of components, compared
//! component by component.

use vstd::prelude::*;
use vstd::string::*;
use crate::text::str_eq;

verus! {

/// A path, held as its components from the first to the last.
#[derive(Clone, Debug, PartialEq, Eq)]
pub struct FilePath {
    pub parts: Vec<String>,
}

impl View for FilePath {
    type V = Seq<Seq<char>>;

    open spec fn view(&self) -> Seq<Seq<char>> {
        Seq::new(self.parts@.len(), |i: int| self.parts@[i]@)
    }
}

/// Whether a component names a file or a directory: it is not empty, is
/// neither `.` nor `..`, and holds no separator.
pub open spec fn is_name(component: Seq<char>) -> bool {
    &&& component.len() > 0
    &&& component != "."@
    &&& component != ".."@
    &&& !component.contains('/')
}

/// The final component of a path, where it is a name.
pub open spec fn file_name(path: Seq<Seq<char>>) -> Option<Seq<char>> {
    if path.len() > 0 && is_name(path.last()) {
        Some(path.last())
    } else {
        None
    }
}

/// The position of the last dot of a name, or -1 where it has none.
pub open spec fn last_dot(name: Seq<char>) -> int
    decreases name.len(),
{
    if name.len() == 0 {
        -1
    } else if name.last() == '.' {
        name.len() - 1
    } else {
        last_dot(name.drop_last())
    }
}

/// The extension of a name: what follows its last dot, unless the name has
/// no dot or its only dot comes first.
pub open spec fn name_extension(name: Seq<char>) -> Option<Seq<char>> {
    if last_dot(name) > 0 {
        Some(name.subrange(last_dot(name) + 1, name.len() as int))
    } else {
        None
    }
}

/// The extension of the file that a path names.
pub open spec fn path_extension(path: Seq<Seq<char>>) -> Option<Seq<char>> {
    match file_name(path) {
        Some(name) => name_extension(name),
        None => None,
    }
}

/// A dot with no dot after it is the last dot.
pub proof fn lemma_last_dot_found(name: Seq<char>, i: int)
    requires
        0 <= i < name.len(),
        name[i] == '.',
        forall|k: int| i < k < name.len() ==> name[k] != '.',
    ensures
        last_dot(name) == i,
    decreases name.len(),
{
    if name.last() != '.' {
        lemma_last_dot_found(name.drop_last(), i);
    }
}

/// A name without a dot has no last dot.
pub proof fn lemma_last_dot_missing(name: Seq<char>)
    requires
        forall|k: int| 0 <= k < name.len() ==> name[k] != '.',
    ensures
        last_dot(name) == -1,
    decreases name.len(),
{
    if name.len() > 0 {
        lemma_last_dot_missing(name.drop_last());
    }
}

/// Whether a component names a file or a directory.
pub fn is_name_str(component: &str) -> (named: bool)
    ensures
        named == is_name(component@),
{
    let n: usize = component.unicode_len();
    if n == 0 || str_eq(component, ".") || str_eq(component, "..") {
        return false;
    }
    let mut i: usize = 0;
    while i < n
        invariant
            n == component@.len(),
            i <= n,
            forall|k: int| 0 <= k < i ==> component@[k] != '/',
        decreases n - i,
    {
        if component.get_char(i) == '/' {
            return false;
        }
        i += 1;
    }
    true
}

/// The extension of a name, without its dot.
pub fn extension_of_name(name: &str) -> (ext: Option<String>)
    ensures
        match ext {
            Some(e) => name_extension(name@) == Some(e@),
            None => name_extension(name@) is None,
        },
{
    let n: usize = name.unicode_len();
    let mut i: usize = n;
    while i > 0
        invariant
            n == name@.len(),
            i <= n,
            forall|k: int| i <= k < n ==> name@[k] != '.',
        decreases i,
    {
        i -= 1;
        if name.get_char(i) == '.' {
            proof {
                lemma_last_dot_found(name@, i as int);
            }
            if i > 0 {
                return Some(name.substring_char(i + 1, n).to_owned());
            } else {
                return None;
            }
        }
    }
    proof {
        lemma_last_dot_missing(name@);
    }
    None
}

impl FilePath {
    /// The path with the given components.
    pub fn new(parts: Vec<String>) -> (path: FilePath)
        ensures
            path.parts == parts,
    {
        FilePath { parts }
    }

    /// The number of components.
    pub fn depth(&self) -> (n: usize)
        ensures
            n == self@.len(),
    {
        self.parts.len()
    }

    /// A copy of the path.
    pub fn duplicate(&self) -> (copy: FilePath)
        ensures
            copy@ == self@,
    {
        let mut parts: Vec<String> = Vec::new();
        let mut i: usize = 0;
        while i < self.parts.len()
            invariant
                i <= self.parts@.len(),
                parts@.len() == i,
                forall|k: int| 0 <= k < i ==> parts@[k]@ == self.parts@[k]@,
            decreases self.parts@.len() - i,
        {
            parts.push(self.parts[i].clone());
            i += 1;
        }
        let copy = FilePath { parts };
        assert(copy@ =~= self@);
        copy
    }

    /// The path one component longer.
    pub fn join(&self, name: &str) -> (longer: FilePath)
        ensures
            longer@ == self@.push(name@),
    {
        let mut longer = self.duplicate();
        longer.parts.push(name.to_owned());
        assert(longer@ =~= self@.push(name@));
        longer
    }

    /// The final component, where it names a file or a directory.
    pub fn file_name(&self) -> (name: Option<&str>)
        ensures
            match name {
                Some(n) => file_name(self@) == Some(n@),
                None => file_name(self@) is None,
            },
    {
        let n: usize = self.parts.len();
        if n == 0 {
            return None;
        }
        let last: &str = self.parts[n - 1].as_str();
        assert(self@.last() == last@);
        if is_name_str(last) {
            Some(last)
        } else {
            None
        }
    }

    /// The extension of the file that the path names.
    pub fn extension(&self) -> (ext: Option<String>)
        ensures
            match ext {
                Some(e) => path_extension(self@) == Some(e@),
                None => path_extension(self@) is None,
            },
    {
        match self.file_name() {
            Some(name) => extension_of_name(name),
            None => None,
        }
    }

    /// Whether two paths have the same components.
    pub fn same_as(&self, other: &FilePath) -> (same: bool)
        ensures
            same == (self@ == other@),
    {
        if self.parts.len() != other.parts.len() {
            assert(self@.len() != other@.len());
            return false;
        }
        let mut i: usize = 0;
        while i < self.parts.len()
            invariant
                self.parts@.len() == other.parts@.len(),
                i <= self.parts@.len(),
                forall|k: int| 0 <= k < i ==> self@[k] == other@[k],
            decreases self.parts@.len() - i,
        {
            if !str_eq(self.parts[i].as_str(), other.parts[i].as_str()) {
                assert(self@[i as int] != other@[i as int]);
                return false;
            }
            i += 1;
        }
        assert(self@ =~= other@);
        true
    }
}

} // verus!

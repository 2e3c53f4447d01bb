//! Paths as sequences of component names.
//!
//! A [`FilePath`] holds the components of a path in order, outermost first, each
//! component a name between two separators. An absolute path begins with the empty
//! component, as its text form begins with a separator. Nothing here touches a disk:
//! a path is a value, and two paths are the same when their components are.

use crate::format::{format_of_extension, SourceFormat};
use crate::name::{extension, extension_of, is_file_name, stem, stem_of};
use vstd::prelude::*;
use vstd::string::StringExecFns;

verus! {

/// A path as a value of specifications: the texts of its components.
pub type PathText = Seq<Seq<char>>;

/// The text of each component of a list of names.
pub open spec fn texts(parts: Seq<String>) -> PathText {
    parts.map_values(|s: String| s@)
}

/// Whether `base` is an ancestor of `path` or `path` itself, component by component.
pub open spec fn has_prefix(path: PathText, base: PathText) -> bool {
    base.len() <= path.len() && path.subrange(0, base.len() as int) == base
}

/// The last component of a path, where it names a file or directory.
pub open spec fn file_name_of(path: PathText) -> Option<Seq<char>> {
    if path.len() > 0 && is_file_name(path.last()) {
        Some(path.last())
    } else {
        None
    }
}

/// The stem of the last component of a path, where it names a file or directory.
pub open spec fn file_stem_of(path: PathText) -> Option<Seq<char>> {
    match file_name_of(path) {
        Some(name) => Some(stem_of(name)),
        None => None,
    }
}

/// The extension of the last component of a path, where it has one.
pub open spec fn path_extension_of(path: PathText) -> Option<Seq<char>> {
    match file_name_of(path) {
        Some(name) => extension_of(name),
        None => None,
    }
}

/// The format that the extension of a path stands for, if any.
pub open spec fn path_format_of(path: PathText) -> Option<SourceFormat> {
    format_of_extension(path_extension_of(path))
}

/// The components of a path written one after another with `/` between them.
pub open spec fn text_of(path: PathText) -> Seq<char>
    decreases path.len(),
{
    if path.len() == 0 {
        Seq::empty()
    } else if path.len() == 1 {
        path[0]
    } else {
        text_of(path.drop_last()) + seq!['/'] + path.last()
    }
}

/// A path, held as the names of its components.
#[derive(Debug, PartialEq, Eq)]
pub struct FilePath {
    parts: Vec<String>,
}

impl View for FilePath {
    type V = PathText;

    closed spec fn view(&self) -> PathText {
        texts(self.parts@)
    }
}

impl Clone for FilePath {
    fn clone(&self) -> (res: Self)
        ensures
            res@ == self@,
    {
        let mut parts: Vec<String> = Vec::new();
        let mut i: usize = 0;
        while i < self.parts.len()
            invariant
                i <= self.parts.len(),
                parts.len() == i,
                forall|j: int| 0 <= j < i ==> parts@[j]@ == self.parts@[j]@,
            decreases self.parts.len() - i,
        {
            parts.push(self.parts[i].clone());
            i += 1;
        }
        assert(texts(parts@) =~= texts(self.parts@));
        FilePath { parts }
    }
}

impl FilePath {
    /// The path with no components.
    pub fn new() -> (res: FilePath)
        ensures
            res@ == Seq::<Seq<char>>::empty(),
    {
        FilePath { parts: Vec::new() }
    }

    /// The path made of the given components, outermost first.
    pub fn from_parts(parts: Vec<String>) -> (res: FilePath)
        ensures
            res@ == texts(parts@),
    {
        FilePath { parts }
    }

    /// The components, outermost first.
    pub fn parts(&self) -> (res: &Vec<String>)
        ensures
            texts(res@) == self@,
    {
        &self.parts
    }

    /// The number of components.
    pub fn len(&self) -> (res: usize)
        ensures
            res == self@.len(),
    {
        self.parts.len()
    }

    /// Whether the two paths have the same components.
    pub fn same_as(&self, other: &FilePath) -> (res: bool)
        ensures
            res == (self@ == other@),
    {
        if self.parts.len() != other.parts.len() {
            assert(self@.len() != other@.len());
            return false;
        }
        let mut i: usize = 0;
        while i < self.parts.len()
            invariant
                i <= self.parts.len(),
                self.parts.len() == other.parts.len(),
                forall|j: int| 0 <= j < i ==> self@[j] == other@[j],
            decreases self.parts.len() - i,
        {
            if self.parts[i] != other.parts[i] {
                assert(self@[i as int] != other@[i as int]);
                return false;
            }
            i += 1;
        }
        assert(self@ =~= other@);
        true
    }

    /// Whether `base` is this path or one of its ancestors.
    pub fn starts_with(&self, base: &FilePath) -> (res: bool)
        ensures
            res == has_prefix(self@, base@),
    {
        if base.parts.len() > self.parts.len() {
            return false;
        }
        let mut i: usize = 0;
        while i < base.parts.len()
            invariant
                i <= base.parts.len() <= self.parts.len(),
                forall|j: int| 0 <= j < i ==> self@[j] == base@[j],
            decreases base.parts.len() - i,
        {
            if self.parts[i] != base.parts[i] {
                assert(self@.subrange(0, base@.len() as int)[i as int] != base@[i as int]);
                return false;
            }
            i += 1;
        }
        assert(self@.subrange(0, base@.len() as int) =~= base@);
        true
    }

    /// This path with one more component at its end.
    pub fn child(&self, name: &str) -> (res: FilePath)
        ensures
            res@ == self@.push(name@),
    {
        let mut out = self.clone();
        out.parts.push(String::from_str(name));
        assert(out@ =~= self@.push(name@));
        out
    }

    /// This path followed by the components of `tail`.
    pub fn join(&self, tail: &FilePath) -> (res: FilePath)
        ensures
            res@ == self@ + tail@,
    {
        let mut out = self.clone();
        let mut i: usize = 0;
        while i < tail.parts.len()
            invariant
                i <= tail.parts.len(),
                out@ == self@ + tail@.subrange(0, i as int),
            decreases tail.parts.len() - i,
        {
            let ghost before = out@;
            out.parts.push(tail.parts[i].clone());
            assert(out@ =~= before.push(tail@[i as int]));
            assert(out@ =~= self@ + tail@.subrange(0, i + 1));
            i += 1;
        }
        assert(tail@.subrange(0, i as int) =~= tail@);
        out
    }

    /// What is left of this path below `base`, where `base` is this path or one of
    /// its ancestors; nothing otherwise.
    pub fn strip_prefix(&self, base: &FilePath) -> (res: Option<FilePath>)
        ensures
            match res {
                Some(rest) => has_prefix(self@, base@) && rest@ == self@.skip(base@.len() as int),
                None => !has_prefix(self@, base@),
            },
    {
        if !self.starts_with(base) {
            return None;
        }
        let mut parts: Vec<String> = Vec::new();
        let mut i: usize = base.parts.len();
        while i < self.parts.len()
            invariant
                base.parts.len() <= i <= self.parts.len(),
                parts.len() == i - base.parts.len(),
                forall|j: int| 0 <= j < parts.len() ==> parts@[j]@ == self.parts@[j + base.parts.len()]@,
            decreases self.parts.len() - i,
        {
            parts.push(self.parts[i].clone());
            i += 1;
        }
        let rest = FilePath { parts };
        assert(rest@ =~= self@.skip(base@.len() as int));
        Some(rest)
    }

    /// The path without its last component; nothing for the empty path.
    pub fn parent(&self) -> (res: Option<FilePath>)
        ensures
            match res {
                Some(dir) => self@.len() > 0 && dir@ == self@.drop_last(),
                None => self@.len() == 0,
            },
    {
        if self.parts.len() == 0 {
            return None;
        }
        let mut parts: Vec<String> = Vec::new();
        let mut i: usize = 0;
        while i < self.parts.len() - 1
            invariant
                self.parts.len() > 0,
                i <= self.parts.len() - 1,
                parts.len() == i,
                forall|j: int| 0 <= j < i ==> parts@[j]@ == self.parts@[j]@,
            decreases self.parts.len() - i,
        {
            parts.push(self.parts[i].clone());
            i += 1;
        }
        let dir = FilePath { parts };
        assert(dir@ =~= self@.drop_last());
        Some(dir)
    }

    /// The last component, where it names a file or directory.
    pub fn file_name(&self) -> (res: Option<&String>)
        ensures
            match res {
                Some(name) => file_name_of(self@) == Some(name@),
                None => file_name_of(self@) is None,
            },
    {
        if self.parts.len() == 0 {
            return None;
        }
        let name = &self.parts[self.parts.len() - 1];
        assert(name@ == self@.last());
        proof {
            reveal_strlit("");
            reveal_strlit(".");
            reveal_strlit("..");
            assert(""@ =~= Seq::<char>::empty());
            assert("."@ =~= seq!['.']);
            assert(".."@ =~= seq!['.', '.']);
        }
        let empty = String::from_str("");
        let here = String::from_str(".");
        let above = String::from_str("..");
        if *name == empty || *name == here || *name == above {
            assert(name@.len() == 0 ==> name@ =~= ""@);
            None
        } else {
            assert(name@.len() > 0) by {
                if name@.len() == 0 {
                    assert(name@ =~= ""@);
                }
            }
            Some(name)
        }
    }

    /// The stem of the last component, where it names a file or directory.
    pub fn file_stem(&self) -> (res: Option<String>)
        ensures
            match res {
                Some(text) => file_stem_of(self@) == Some(text@),
                None => file_stem_of(self@) is None,
            },
    {
        match self.file_name() {
            Some(name) => Some(stem(name.as_str())),
            None => None,
        }
    }

    /// The extension of the last component, where it has one.
    pub fn extension(&self) -> (res: Option<String>)
        ensures
            match res {
                Some(text) => path_extension_of(self@) == Some(text@),
                None => path_extension_of(self@) is None,
            },
    {
        match self.file_name() {
            Some(name) => extension(name.as_str()),
            None => None,
        }
    }

    /// The format that the extension stands for, if any.
    pub fn format(&self) -> (res: Option<SourceFormat>)
        ensures
            res == path_format_of(self@),
    {
        match self.extension() {
            Some(ext) => SourceFormat::from_extension(ext.as_str()),
            None => None,
        }
    }

    /// The path as text, its components separated by `/`.
    pub fn to_text(&self) -> (res: String)
        ensures
            res@ == text_of(self@),
    {
        let mut out = String::new();
        let mut i: usize = 0;
        while i < self.parts.len()
            invariant
                i <= self.parts.len(),
                out@ == text_of(self@.subrange(0, i as int)),
            decreases self.parts.len() - i,
        {
            proof {
                reveal_strlit("/");
                assert("/"@ =~= seq!['/']);
                let before = self@.subrange(0, i as int);
                let after = self@.subrange(0, i + 1);
                assert(after.drop_last() =~= before);
                assert(after.last() == self.parts@[i as int]@);
            }
            if i > 0 {
                out.append("/");
            }
            out.append(self.parts[i].as_str());
            proof {
                let after = self@.subrange(0, i + 1);
                if i == 0 {
                    assert(out@ =~= after[0]);
                } else {
                    assert(out@ =~= text_of(after.drop_last()) + seq!['/'] + after.last());
                }
            }
            i += 1;
        }
        assert(self@.subrange(0, i as int) =~= self@);
        out
    }
}

} // verus!

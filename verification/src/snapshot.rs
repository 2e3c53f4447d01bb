//! What is known to exist on the destination side of a run.
//!
//! A [`Snapshot`] is the set of paths that exist: taken from the disk before a run is
//! planned, and extended as the plan adds directories and files, so that each decision
//! sees what the steps before it will have left behind.

use crate::path::{has_prefix, FilePath, PathText};
use vstd::prelude::*;

verus! {

/// The views of a list of paths.
pub open spec fn path_texts(paths: Seq<FilePath>) -> Seq<PathText> {
    paths.map_values(|p: FilePath| p@)
}

/// A directory and every directory above it: all that exists once it has been created.
pub open spec fn lineage(dir: PathText) -> Set<PathText> {
    Set::new(|p: PathText| 0 < p.len() && has_prefix(dir, p))
}

/// The set `existing` once `dir` and its ancestors have been created.
pub open spec fn with_dir(existing: Set<PathText>, dir: PathText) -> Set<PathText> {
    existing + lineage(dir)
}

/// The set of paths that exist.
#[derive(Debug)]
pub struct Snapshot {
    paths: Vec<FilePath>,
}

impl View for Snapshot {
    type V = Set<PathText>;

    closed spec fn view(&self) -> Set<PathText> {
        path_texts(self.paths@).to_set()
    }
}

impl Clone for Snapshot {
    fn clone(&self) -> (res: Self)
        ensures
            res@ == self@,
    {
        let mut paths: Vec<FilePath> = Vec::new();
        let mut i: usize = 0;
        while i < self.paths.len()
            invariant
                i <= self.paths.len(),
                paths.len() == i,
                forall|j: int| 0 <= j < i ==> paths@[j]@ == self.paths@[j]@,
            decreases self.paths.len() - i,
        {
            paths.push(self.paths[i].clone());
            i += 1;
        }
        assert(path_texts(paths@) =~= path_texts(self.paths@));
        Snapshot { paths }
    }
}

impl Snapshot {
    /// The snapshot of an empty destination.
    pub fn new() -> (res: Snapshot)
        ensures
            res@ == Set::<PathText>::empty(),
    {
        let res = Snapshot { paths: Vec::new() };
        assert(res@ =~= Set::<PathText>::empty());
        res
    }

    /// The snapshot in which exactly the given paths exist.
    pub fn from_paths(paths: Vec<FilePath>) -> (res: Snapshot)
        ensures
            res@ == path_texts(paths@).to_set(),
    {
        Snapshot { paths }
    }

    /// Whether `path` exists. A snapshot holds finitely many paths, no more than a
    /// machine can count.
    pub fn contains(&self, path: &FilePath) -> (res: bool)
        ensures
            res == self@.contains(path@),
            self@.finite(),
            self@.len() <= usize::MAX,
    {
        let n = self.paths.len();
        proof {
            assert(path_texts(self.paths@).len() == n);
            path_texts(self.paths@).lemma_cardinality_of_set();
            vstd::seq_lib::seq_to_set_is_finite(path_texts(self.paths@));
        }
        let mut i: usize = 0;
        while i < self.paths.len()
            invariant
                i <= self.paths.len(),
                forall|j: int| 0 <= j < i ==> self.paths@[j]@ != path@,
                self@.finite(),
                self@.len() <= usize::MAX,
            decreases self.paths.len() - i,
        {
            if self.paths[i].same_as(path) {
                assert(path_texts(self.paths@)[i as int] == path@);
                return true;
            }
            i += 1;
        }
        assert(!path_texts(self.paths@).contains(path@));
        false
    }

    /// Notes that `path` exists from now on.
    pub fn record(&mut self, path: FilePath)
        ensures
            final(self)@ == old(self)@.insert(path@),
    {
        let ghost before = path_texts(self.paths@);
        self.paths.push(path);
        assert(path_texts(self.paths@) =~= before.push(path@));
        assert(before.push(path@).to_set() =~= before.to_set().insert(path@)) by {
            assert forall|p: PathText| before.to_set().insert(path@).contains(p) implies before.push(
                path@,
            ).to_set().contains(p) by {
                if p == path@ {
                    assert(before.push(path@)[before.len() as int] == p);
                } else {
                    let j = choose|j: int| 0 <= j < before.len() && before[j] == p;
                    assert(before.push(path@)[j] == p);
                }
            }
        }
    }

    /// Notes that `dir` and every directory above it exist from now on.
    pub fn record_dir(&mut self, dir: &FilePath)
        ensures
            final(self)@ == with_dir(old(self)@, dir@),
    {
        let mut end: usize = 0;
        let mut prefix = FilePath::new();
        let n = dir.len();
        while end < n
            invariant
                end <= n,
                n == dir@.len(),
                prefix@ == dir@.subrange(0, end as int),
                self@ == old(self)@ + Set::new(
                    |p: PathText| 0 < p.len() <= end && has_prefix(dir@, p),
                ),
            decreases n - end,
        {
            prefix = prefix.child(dir.parts()[end].as_str());
            end += 1;
            assert(prefix@ =~= dir@.subrange(0, end as int));
            self.record(prefix.clone());
            assert(self@ =~= old(self)@ + Set::new(
                |p: PathText| 0 < p.len() <= end && has_prefix(dir@, p),
            )) by {
                assert forall|p: PathText| 0 < p.len() <= end && has_prefix(dir@, p) implies (p
                    == prefix@ || (0 < p.len() <= end - 1 && has_prefix(dir@, p))) by {
                    if p.len() == end {
                        assert(p =~= prefix@);
                    }
                }
                assert(has_prefix(dir@, prefix@)) by {
                    assert(dir@.subrange(0, prefix@.len() as int) =~= prefix@);
                }
            }
        }
        assert(self@ =~= with_dir(old(self)@, dir@));
    }
}

} // verus!

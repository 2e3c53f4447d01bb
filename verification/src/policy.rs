//! What to do when the file a conversion would write already exists.
//!
//! The output of a source file with stem `s` is `s.webp` in its destination
//! directory. Where that name is taken, the renaming policy tries `s-1.webp`,
//! `s-2.webp` and so on, and settles on the first that is free.

use crate::name::{decimal, decimal_text, lemma_decimal_injective, lemma_decimal_value};
use crate::path::{FilePath, PathText};
use crate::snapshot::Snapshot;
use vstd::prelude::*;
use vstd::string::StringExecFns;

verus! {

/// How a conversion treats an output file that is already there.
#[derive(Debug, PartialEq, Eq, Clone, Copy, Structural)]
pub enum OverwriteMode {
    /// Leave the existing file alone and convert nothing.
    Skip,
    /// Replace the existing file.
    Overwrite,
    /// Keep the existing file and write beside it under a numbered name.
    Rename,
}

/// The extension of every output file, dot included.
pub open spec fn webp_suffix() -> Seq<char> {
    seq!['.', 'w', 'e', 'b', 'p']
}

/// What stands between stem and extension at a given attempt: nothing at the first,
/// then a hyphen and the attempt's number.
pub open spec fn attempt_mark(attempt: nat) -> Seq<char> {
    if attempt == 0 {
        Seq::empty()
    } else {
        seq!['-'] + decimal(attempt)
    }
}

/// The name tried at a given attempt for a source with the given stem.
pub open spec fn output_name(stem: Seq<char>, attempt: nat) -> Seq<char> {
    stem + attempt_mark(attempt) + webp_suffix()
}

/// The path tried at a given attempt.
pub open spec fn candidate(dir: PathText, stem: Seq<char>, attempt: nat) -> PathText {
    dir.push(output_name(stem, attempt))
}

/// The path that a source with the given stem is converted to when nothing is in the
/// way.
pub open spec fn desired(dir: PathText, stem: Seq<char>) -> PathText {
    candidate(dir, stem, 0)
}

/// Whether `attempt` is the first whose path does not exist.
pub open spec fn is_first_free(
    existing: Set<PathText>,
    dir: PathText,
    stem: Seq<char>,
    attempt: nat,
) -> bool {
    &&& !existing.contains(candidate(dir, stem, attempt))
    &&& forall|earlier: nat| earlier < attempt ==> existing.contains(#[trigger] candidate(dir, stem, earlier))
}

/// The first attempt whose path does not exist.
pub open spec fn first_free(existing: Set<PathText>, dir: PathText, stem: Seq<char>) -> nat {
    choose|attempt: nat| is_first_free(existing, dir, stem, attempt)
}

/// The path to write for a source with the given stem, or nothing where the source is
/// to be passed over.
pub open spec fn resolved(
    existing: Set<PathText>,
    dir: PathText,
    stem: Seq<char>,
    mode: OverwriteMode,
) -> Option<PathText> {
    match mode {
        OverwriteMode::Skip => if existing.contains(desired(dir, stem)) {
            None
        } else {
            Some(desired(dir, stem))
        },
        OverwriteMode::Overwrite => Some(desired(dir, stem)),
        OverwriteMode::Rename => Some(candidate(dir, stem, first_free(existing, dir, stem))),
    }
}

/// Different attempts try different names.
pub proof fn lemma_output_name_injective(stem: Seq<char>, a: nat, b: nat)
    requires
        output_name(stem, a) == output_name(stem, b),
    ensures
        a == b,
{
    let ma = attempt_mark(a);
    let mb = attempt_mark(b);
    let na = output_name(stem, a);
    let nb = output_name(stem, b);
    assert(na.len() == stem.len() + ma.len() + 5);
    assert(nb.len() == stem.len() + mb.len() + 5);
    assert(ma =~= mb) by {
        assert forall|i: int| 0 <= i < ma.len() implies ma[i] == mb[i] by {
            assert(na[stem.len() + i] == ma[i]);
            assert(nb[stem.len() + i] == mb[i]);
        }
    }
    lemma_decimal_value(a);
    lemma_decimal_value(b);
    if a != 0 && b != 0 {
        assert(decimal(a) =~= ma.skip(1));
        assert(decimal(b) =~= mb.skip(1));
        lemma_decimal_injective(a, b);
    }
}

/// Different attempts try different paths.
pub proof fn lemma_candidate_injective(dir: PathText, stem: Seq<char>, a: nat, b: nat)
    requires
        candidate(dir, stem, a) == candidate(dir, stem, b),
    ensures
        a == b,
{
    assert(candidate(dir, stem, a).last() == output_name(stem, a));
    assert(candidate(dir, stem, b).last() == output_name(stem, b));
    lemma_output_name_injective(stem, a, b);
}

/// Where the paths of the first `count` attempts all exist, at least `count` paths
/// exist.
pub proof fn lemma_taken_attempts_bounded(
    existing: Set<PathText>,
    dir: PathText,
    stem: Seq<char>,
    count: nat,
)
    requires
        existing.finite(),
        forall|earlier: nat| earlier < count ==> existing.contains(#[trigger] candidate(dir, stem, earlier)),
    ensures
        count <= existing.len(),
    decreases count,
{
    if count > 0 {
        let last = candidate(dir, stem, (count - 1) as nat);
        let rest = existing.remove(last);
        assert forall|earlier: nat| earlier < count - 1 implies rest.contains(
            #[trigger] candidate(dir, stem, earlier),
        ) by {
            if candidate(dir, stem, earlier) == last {
                lemma_candidate_injective(dir, stem, earlier, (count - 1) as nat);
            }
        }
        lemma_taken_attempts_bounded(rest, dir, stem, (count - 1) as nat);
        vstd::set::axiom_set_remove_len(existing, last);
    }
}

/// Only one attempt is the first free one.
pub proof fn lemma_first_free_is(
    existing: Set<PathText>,
    dir: PathText,
    stem: Seq<char>,
    attempt: nat,
)
    requires
        is_first_free(existing, dir, stem, attempt),
    ensures
        first_free(existing, dir, stem) == attempt,
{
    let chosen = first_free(existing, dir, stem);
    assert(is_first_free(existing, dir, stem, chosen));
    if chosen < attempt {
        assert(existing.contains(candidate(dir, stem, chosen)));
    } else if attempt < chosen {
        assert(existing.contains(candidate(dir, stem, attempt)));
    }
}

/// The name tried at a given attempt for a source with the given stem.
pub fn output_file_name(stem: &str, attempt: u64) -> (res: String)
    ensures
        res@ == output_name(stem@, attempt as nat),
{
    proof {
        reveal_strlit("-");
        reveal_strlit(".webp");
        assert("-"@ =~= seq!['-']);
        assert(".webp"@ =~= webp_suffix());
    }
    let mut name = String::from_str(stem);
    if attempt > 0 {
        name.append("-");
        let number = decimal_text(attempt);
        name.append(number.as_str());
    }
    name.append(".webp");
    assert(name@ =~= output_name(stem@, attempt as nat));
    name
}

/// Decides where the output of a source with the given stem goes in `dir`, given what
/// exists there: the plain name, a numbered name, or nowhere.
pub fn resolve(dir: &FilePath, stem: &str, mode: &OverwriteMode, existing: &Snapshot) -> (res:
    Option<FilePath>)
    ensures
        match res {
            Some(target) => resolved(existing@, dir@, stem@, *mode) == Some(target@),
            None => resolved(existing@, dir@, stem@, *mode) is None,
        },
{
    let plain = dir.child(output_file_name(stem, 0).as_str());
    match mode {
        OverwriteMode::Overwrite => Some(plain),
        OverwriteMode::Skip => {
            if existing.contains(&plain) {
                None
            } else {
                Some(plain)
            }
        },
        OverwriteMode::Rename => {
            let mut attempt: u64 = 0;
            let mut target = plain;
            while existing.contains(&target)
                invariant
                    target@ == candidate(dir@, stem@, attempt as nat),
                    forall|earlier: nat|
                        earlier < attempt ==> existing@.contains(
                            #[trigger] candidate(dir@, stem@, earlier),
                        ),
                    attempt <= usize::MAX,
                decreases usize::MAX - attempt,
            {
                proof {
                    lemma_taken_attempts_bounded(existing@, dir@, stem@, (attempt + 1) as nat);
                }
                attempt += 1;
                target = dir.child(output_file_name(stem, attempt).as_str());
            }
            proof {
                lemma_first_free_is(existing@, dir@, stem@, attempt as nat);
            }
            Some(target)
        },
    }
}

} // verus!

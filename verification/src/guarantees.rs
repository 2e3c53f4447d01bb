//! What holds of every plan.
//!
//! The planning functions state what they compute; the lemmas here state what
//! follows for the files on disk: which names outputs get, that sources are never
//! written to, what each policy does to files that exist, and what a second run
//! finds after a first.

use crate::error::ConversionErrorKind;
use crate::format::{format_of, lowered};
use crate::name::{extension_of, last_index_of, lemma_last_index_of_is};
use crate::path::{file_name_of, file_stem_of, has_prefix, path_format_of, PathText};
use crate::plan::{decide_file, extend, files_plan, finished, many_plan, mirrored_dir, refusal_detail};
use crate::plan::{single_plan, stopped, tree_plan, walk_plan, FileDecision, StepText, WalkItemText};
use crate::policy::{attempt_mark, candidate, desired, first_free, is_first_free, lemma_first_free_is};
use crate::policy::{lemma_taken_attempts_bounded, output_name, resolved, webp_suffix, OverwriteMode};
use crate::snapshot::{lineage, with_dir};
use vstd::prelude::*;

verus! {

/// Every output name ends in `.webp`, and that dot is its last.
pub proof fn lemma_output_name_ends_in_webp(stem: Seq<char>, attempt: nat)
    ensures
        last_index_of(output_name(stem, attempt), '.') == output_name(stem, attempt).len() - 5,
        output_name(stem, attempt).len() >= 5,
        output_name(stem, attempt).subrange(
            output_name(stem, attempt).len() - 4,
            output_name(stem, attempt).len() as int,
        ) == seq!['w', 'e', 'b', 'p'],
{
    let name = output_name(stem, attempt);
    let head = stem + attempt_mark(attempt);
    assert(name =~= head + webp_suffix());
    assert(name.len() == head.len() + 5);
    assert(name[head.len() as int] == '.');
    assert forall|j: int| head.len() < j < name.len() implies name[j] != '.' by {
        assert(name[j] == webp_suffix()[j - head.len()]);
    }
    lemma_last_index_of_is(name, '.', head.len() as int);
    assert(name.subrange(name.len() - 4, name.len() as int) =~= seq!['w', 'e', 'b', 'p']);
}

/// No output is itself a file that could be converted: the extension `webp` stands
/// for no source format.
pub proof fn lemma_outputs_are_not_sources(dir: PathText, stem: Seq<char>, attempt: nat)
    ensures
        path_format_of(candidate(dir, stem, attempt)) is None,
{
    let name = output_name(stem, attempt);
    let path = candidate(dir, stem, attempt);
    lemma_output_name_ends_in_webp(stem, attempt);
    assert(path.last() == name);
    if file_name_of(path) is Some && extension_of(name) is Some {
        let ext = extension_of(name)->0;
        assert(ext == seq!['w', 'e', 'b', 'p']);
        let word = lowered(ext);
        assert(word.len() == 4);
        assert(word[0] == 'w');
        assert(word != seq!['p', 'n', 'g']);
        assert(word != seq!['j', 'p', 'g']);
        assert(word != seq!['b', 'm', 'p']);
        assert(seq!['j', 'p', 'e', 'g'][0] == 'j');
        assert(word != seq!['j', 'p', 'e', 'g']);
    }
}

/// Case plays no part in telling a format from an extension.
pub proof fn lemma_extension_case_is_ignored(a: Seq<char>, b: Seq<char>)
    requires
        lowered(a) == lowered(b),
    ensures
        format_of(a) == format_of(b),
{
}

/// A finite set of existing paths always leaves an attempt free, and the first free
/// attempt is free indeed.
pub proof fn lemma_first_free_exists(existing: Set<PathText>, dir: PathText, stem: Seq<char>)
    requires
        existing.finite(),
    ensures
        is_first_free(existing, dir, stem, first_free(existing, dir, stem)),
        first_free(existing, dir, stem) <= existing.len(),
{
    let found = search_free(existing, dir, stem, 0);
    lemma_first_free_is(existing, dir, stem, found);
    lemma_taken_attempts_bounded(existing, dir, stem, found);
}

/// Looks for the first free attempt from `from` on, all attempts before it being
/// taken.
proof fn search_free(existing: Set<PathText>, dir: PathText, stem: Seq<char>, from: nat) -> (found:
    nat)
    requires
        existing.finite(),
        forall|earlier: nat| earlier < from ==> existing.contains(#[trigger] candidate(dir, stem, earlier)),
    ensures
        is_first_free(existing, dir, stem, found),
    decreases existing.len() - from,
{
    lemma_taken_attempts_bounded(existing, dir, stem, from);
    if existing.contains(candidate(dir, stem, from)) {
        lemma_taken_attempts_bounded(existing, dir, stem, from + 1);
        search_free(existing, dir, stem, from + 1)
    } else {
        from
    }
}

/// The renaming policy always finds a name, and never one that exists.
pub proof fn lemma_rename_finds_a_free_name(existing: Set<PathText>, dir: PathText, stem: Seq<char>)
    requires
        existing.finite(),
    ensures
        resolved(existing, dir, stem, OverwriteMode::Rename) matches Some(target)
            && !existing.contains(target),
{
    lemma_first_free_exists(existing, dir, stem);
}

/// Where the plain name is taken and no numbered one is, the renaming policy gives
/// the name numbered one; where the names up to a number are taken, the next.
pub proof fn lemma_rename_takes_the_next_number(
    existing: Set<PathText>,
    dir: PathText,
    stem: Seq<char>,
    taken: nat,
)
    requires
        forall|earlier: nat| earlier < taken ==> existing.contains(#[trigger] candidate(dir, stem, earlier)),
        !existing.contains(candidate(dir, stem, taken)),
    ensures
        resolved(existing, dir, stem, OverwriteMode::Rename) == Some(candidate(dir, stem, taken)),
{
    lemma_first_free_is(existing, dir, stem, taken);
}

/// No policy writes to a name that exists, save the one that is meant to: skipping
/// and renaming resolve to a path only where nothing is there.
pub proof fn lemma_only_overwrite_replaces(
    existing: Set<PathText>,
    dir: PathText,
    stem: Seq<char>,
    mode: OverwriteMode,
)
    requires
        existing.finite(),
        mode != OverwriteMode::Overwrite,
    ensures
        resolved(existing, dir, stem, mode) matches Some(target) ==> !existing.contains(target),
{
    lemma_first_free_exists(existing, dir, stem);
}

/// The overwriting policy resolves to the plain name whatever exists.
pub proof fn lemma_overwrite_ignores_what_exists(
    existing: Set<PathText>,
    dir: PathText,
    stem: Seq<char>,
)
    ensures
        resolved(existing, dir, stem, OverwriteMode::Overwrite) == Some(desired(dir, stem)),
{
}

/// A source with a supported extension whose plain output name is free is converted
/// to that name, `<stem>.webp` in the output directory, under every policy.
pub proof fn lemma_fresh_source_goes_to_plain_name(
    existing: Set<PathText>,
    source: PathText,
    dir: PathText,
    mode: OverwriteMode,
)
    requires
        path_format_of(source) is Some,
        !existing.contains(desired(dir, file_stem_of(source)->0)),
    ensures
        file_stem_of(source) is Some,
        single_plan(existing, source, dir, mode) == extend(
            seq![
                StepText::EnsureDir { dir },
                StepText::Convert {
                    source,
                    format: path_format_of(source)->0,
                    target: dir.push(file_stem_of(source)->0 + webp_suffix()),
                },
            ],
            finished(),
        ),
{
    let stem = file_stem_of(source)->0;
    lemma_first_free_is(existing, dir, stem, 0);
    assert(output_name(stem, 0) =~= stem + webp_suffix());
}

/// A single source that has a file name but no supported extension is refused as
/// such, and nothing is done on disk.
pub proof fn lemma_unsupported_source_is_refused(
    existing: Set<PathText>,
    source: PathText,
    dir: PathText,
    mode: OverwriteMode,
)
    requires
        file_name_of(source) is Some,
        path_format_of(source) is None,
    ensures
        single_plan(existing, source, dir, mode) == stopped(
            ConversionErrorKind::UnsupportedExtension,
            source,
            refusal_detail(ConversionErrorKind::UnsupportedExtension),
        ),
        single_plan(existing, source, dir, mode).steps.len() == 0,
{
}

/// What exists once a step has been carried out.
pub open spec fn after_step(existing: Set<PathText>, step: StepText) -> Set<PathText> {
    match step {
        StepText::EnsureDir { dir } => with_dir(existing, dir),
        StepText::Convert { source, format, target } => existing.insert(target),
    }
}

/// What exists once a list of steps has been carried out in order.
pub open spec fn after_steps(existing: Set<PathText>, steps: Seq<StepText>) -> Set<PathText>
    decreases steps.len(),
{
    if steps.len() == 0 {
        existing
    } else {
        after_steps(after_step(existing, steps[0]), steps.skip(1))
    }
}

/// Whether a list of steps writes no file.
pub open spec fn writes_nothing(steps: Seq<StepText>) -> bool {
    forall|i: int| 0 <= i < steps.len() ==> steps[i] is EnsureDir
}

/// Whether each file that a list of steps writes is new when its turn comes: it was
/// not there at the start, and no earlier step wrote or made it.
pub open spec fn never_overwrites(existing: Set<PathText>, steps: Seq<StepText>) -> bool
    decreases steps.len(),
{
    if steps.len() == 0 {
        true
    } else {
        &&& steps[0] matches StepText::Convert { source, format, target } ==> !existing.contains(target)
        &&& never_overwrites(after_step(existing, steps[0]), steps.skip(1))
    }
}

/// Carrying out two lists of steps on end is carrying out the first and then the
/// second.
pub proof fn lemma_after_steps_of_both(existing: Set<PathText>, first: Seq<StepText>, second: Seq<StepText>)
    ensures
        after_steps(existing, first + second) == after_steps(after_steps(existing, first), second),
    decreases first.len(),
{
    if first.len() == 0 {
        assert(first + second =~= second);
    } else {
        assert((first + second)[0] == first[0]);
        assert((first + second).skip(1) =~= first.skip(1) + second);
        lemma_after_steps_of_both(after_step(existing, first[0]), first.skip(1), second);
    }
}

/// Steps only add to what exists.
pub proof fn lemma_steps_keep_what_exists(existing: Set<PathText>, steps: Seq<StepText>)
    ensures
        existing.subset_of(after_steps(existing, steps)),
    decreases steps.len(),
{
    if steps.len() > 0 {
        lemma_steps_keep_what_exists(after_step(existing, steps[0]), steps.skip(1));
    }
}

/// Two lists of steps on end overwrite nothing exactly when the first overwrites
/// nothing and the second overwrites nothing of what the first leaves.
pub proof fn lemma_never_overwrites_of_both(
    existing: Set<PathText>,
    first: Seq<StepText>,
    second: Seq<StepText>,
)
    ensures
        never_overwrites(existing, first + second) == (never_overwrites(existing, first)
            && never_overwrites(after_steps(existing, first), second)),
    decreases first.len(),
{
    if first.len() == 0 {
        assert(first + second =~= second);
    } else {
        assert((first + second)[0] == first[0]);
        assert((first + second).skip(1) =~= first.skip(1) + second);
        lemma_never_overwrites_of_both(after_step(existing, first[0]), first.skip(1), second);
    }
}

/// A directory has finitely many ancestors.
pub proof fn lemma_lineage_is_finite(dir: PathText)
    ensures
        lineage(dir).finite(),
    decreases dir.len(),
{
    if dir.len() == 0 {
        assert(lineage(dir) =~= Set::<PathText>::empty());
    } else {
        let above = dir.drop_last();
        lemma_lineage_is_finite(above);
        assert(lineage(dir) =~= lineage(above).insert(dir)) by {
            assert forall|p: PathText| lineage(dir).contains(p) implies lineage(above).insert(
                dir,
            ).contains(p) by {
                if p.len() == dir.len() {
                    assert(dir.subrange(0, p.len() as int) =~= dir);
                } else {
                    assert(above.subrange(0, p.len() as int) =~= dir.subrange(0, p.len() as int));
                }
            }
            assert forall|p: PathText| lineage(above).insert(dir).contains(p) implies lineage(
                dir,
            ).contains(p) by {
                if p == dir {
                    assert(dir.subrange(0, dir.len() as int) =~= dir);
                } else {
                    assert(above.subrange(0, p.len() as int) =~= dir.subrange(0, p.len() as int));
                }
            }
        }
    }
}

/// What exists stays finite when a directory is made.
pub proof fn lemma_with_dir_is_finite(existing: Set<PathText>, dir: PathText)
    requires
        existing.finite(),
    ensures
        with_dir(existing, dir).finite(),
{
    lemma_lineage_is_finite(dir);
    vstd::set_lib::lemma_set_union_finite_iff(existing, lineage(dir));
}

/// Under the skipping and the renaming policy, the plan for a list of files writes
/// only files that are new when their turn comes. No file that exists is replaced,
/// and no two sources are written to one name.
pub proof fn lemma_files_overwrite_nothing(
    existing: Set<PathText>,
    sources: Seq<PathText>,
    dir: PathText,
    mode: OverwriteMode,
)
    requires
        existing.finite(),
        mode != OverwriteMode::Overwrite,
    ensures
        never_overwrites(existing, files_plan(existing, sources, dir, mode).steps),
    decreases sources.len(),
{
    if sources.len() > 0 {
        let source = sources[0];
        let rest = sources.skip(1);
        match decide_file(existing, source, dir, mode) {
            FileDecision::Refuse { kind } => {},
            FileDecision::PassOver => {
                lemma_files_overwrite_nothing(existing, rest, dir, mode);
            },
            FileDecision::Write { format, target } => {
                lemma_only_overwrite_replaces(existing, dir, file_stem_of(source)->0, mode);
                lemma_files_overwrite_nothing(existing.insert(target), rest, dir, mode);
                let tail = files_plan(existing.insert(target), rest, dir, mode).steps;
                let steps = files_plan(existing, sources, dir, mode).steps;
                assert(steps.skip(1) =~= tail);
            },
        }
    }
}

/// Under the skipping and the renaming policy, the plan for what a walk found writes
/// only files that are new when their turn comes.
pub proof fn lemma_walk_overwrites_nothing(
    existing: Set<PathText>,
    items: Seq<WalkItemText>,
    root: PathText,
    out: PathText,
    mode: OverwriteMode,
)
    requires
        existing.finite(),
        mode != OverwriteMode::Overwrite,
    ensures
        never_overwrites(existing, walk_plan(existing, items, root, out, mode).steps),
    decreases items.len(),
{
    if items.len() > 0 {
        let rest = items.skip(1);
        match items[0] {
            WalkItemText::Unreadable { path, detail } => {},
            WalkItemText::Entry { path, is_file } => {
                if !is_file || path_format_of(path) is None {
                    lemma_walk_overwrites_nothing(existing, rest, root, out, mode);
                } else if has_prefix(path, root) {
                    let dir = mirrored_dir(path, root, out);
                    let known = with_dir(existing, dir);
                    let steps = walk_plan(existing, items, root, out, mode).steps;
                    lemma_with_dir_is_finite(existing, dir);
                    match decide_file(known, path, dir, mode) {
                        FileDecision::Refuse { kind } => {
                            assert(steps.skip(1) =~= Seq::<StepText>::empty());
                            assert(never_overwrites(known, steps.skip(1)));
                        },
                        FileDecision::PassOver => {
                            lemma_walk_overwrites_nothing(known, rest, root, out, mode);
                            assert(steps.skip(1) =~= walk_plan(known, rest, root, out, mode).steps);
                        },
                        FileDecision::Write { format, target } => {
                            lemma_only_overwrite_replaces(known, dir, file_stem_of(path)->0, mode);
                            lemma_walk_overwrites_nothing(known.insert(target), rest, root, out, mode);
                            let tail = walk_plan(known.insert(target), rest, root, out, mode).steps;
                            assert(steps.skip(1)[0] == (StepText::Convert { source: path, format, target }));
                            assert(steps.skip(1).skip(1) =~= tail);
                            assert(never_overwrites(known, steps.skip(1)));
                        },
                    }
                }
            },
        }
    }
}

/// Making a directory writes no file, and leaves the directory and its ancestors
/// behind.
pub proof fn lemma_making_a_directory(existing: Set<PathText>, dir: PathText)
    ensures
        after_steps(existing, seq![StepText::EnsureDir { dir }]) == with_dir(existing, dir),
        never_overwrites(existing, seq![StepText::EnsureDir { dir }]),
        writes_nothing(seq![StepText::EnsureDir { dir }]),
{
    let made = seq![StepText::EnsureDir { dir }];
    let known = with_dir(existing, dir);
    assert(made.skip(1) =~= Seq::<StepText>::empty());
    assert(after_steps(known, made.skip(1)) == known);
    assert(never_overwrites(known, made.skip(1)));
}

/// Under the skipping and the renaming policy, converting a single file replaces no
/// file: what the plan writes is new when its turn comes.
pub proof fn lemma_single_plan_overwrites_nothing(
    existing: Set<PathText>,
    source: PathText,
    dir: PathText,
    mode: OverwriteMode,
)
    requires
        existing.finite(),
        mode != OverwriteMode::Overwrite,
    ensures
        never_overwrites(existing, single_plan(existing, source, dir, mode).steps),
{
    let made = seq![StepText::EnsureDir { dir }];
    let known = with_dir(existing, dir);
    lemma_making_a_directory(existing, dir);
    match decide_file(existing, source, dir, mode) {
        FileDecision::Refuse { kind } => {},
        FileDecision::PassOver => {
            assert(single_plan(existing, source, dir, mode).steps =~= made);
        },
        FileDecision::Write { format, target } => {
            let steps = single_plan(existing, source, dir, mode).steps;
            lemma_only_overwrite_replaces(existing, dir, file_stem_of(source)->0, mode);
            lemma_candidates_lie_below(existing, dir, file_stem_of(source)->0, mode);
            assert(steps.skip(1)[0] == (StepText::Convert { source, format, target }));
            assert(steps.skip(1).skip(1) =~= Seq::<StepText>::empty());
            assert(never_overwrites(known.insert(target), steps.skip(1).skip(1)));
            assert(never_overwrites(known, steps.skip(1)));
        },
    }
}

/// Under the skipping and the renaming policy, converting a list of files replaces
/// no file, and no two sources of the list are written to one name.
pub proof fn lemma_many_plan_overwrites_nothing(
    existing: Set<PathText>,
    sources: Seq<PathText>,
    dir: PathText,
    mode: OverwriteMode,
)
    requires
        existing.finite(),
        mode != OverwriteMode::Overwrite,
    ensures
        never_overwrites(existing, many_plan(existing, sources, dir, mode).steps),
{
    let made = seq![StepText::EnsureDir { dir }];
    let known = with_dir(existing, dir);
    lemma_making_a_directory(existing, dir);
    lemma_with_dir_is_finite(existing, dir);
    // The names tried all lie in `dir`, which making `dir` does not touch.
    lemma_files_plan_ignores_the_directory(existing, sources, dir, mode);
    lemma_files_overwrite_nothing(known, sources, dir, mode);
    lemma_never_overwrites_of_both(existing, made, files_plan(existing, sources, dir, mode).steps);
}

/// Under the skipping and the renaming policy, converting a tree replaces no file,
/// and no two files of the tree are written to one name.
pub proof fn lemma_tree_plan_overwrites_nothing(
    existing: Set<PathText>,
    items: Seq<WalkItemText>,
    root: PathText,
    out: PathText,
    mode: OverwriteMode,
)
    requires
        existing.finite(),
        mode != OverwriteMode::Overwrite,
    ensures
        never_overwrites(existing, tree_plan(existing, items, root, out, mode).steps),
{
    let made = seq![StepText::EnsureDir { dir: out }];
    let known = with_dir(existing, out);
    lemma_making_a_directory(existing, out);
    lemma_with_dir_is_finite(existing, out);
    lemma_walk_overwrites_nothing(known, items, root, out, mode);
    lemma_never_overwrites_of_both(existing, made, walk_plan(known, items, root, out, mode).steps);
}

/// A path resolved for an output lies directly in its directory, and so is none of
/// the directories made for it.
pub proof fn lemma_candidates_lie_below(
    existing: Set<PathText>,
    dir: PathText,
    stem: Seq<char>,
    mode: OverwriteMode,
)
    requires
        existing.finite(),
    ensures
        forall|attempt: nat| !lineage(dir).contains(#[trigger] candidate(dir, stem, attempt)),
        resolved(with_dir(existing, dir), dir, stem, mode) == resolved(existing, dir, stem, mode),
{
    assert forall|attempt: nat| !lineage(dir).contains(#[trigger] candidate(dir, stem, attempt)) by {
        assert(candidate(dir, stem, attempt).len() == dir.len() + 1);
    }
    let known = with_dir(existing, dir);
    assert forall|attempt: nat|
        known.contains(#[trigger] candidate(dir, stem, attempt)) == existing.contains(
            candidate(dir, stem, attempt),
        ) by {}
    if mode == OverwriteMode::Rename {
        lemma_first_free_exists(existing, dir, stem);
        let attempt = first_free(existing, dir, stem);
        assert forall|earlier: nat| earlier < attempt implies known.contains(
            #[trigger] candidate(dir, stem, earlier),
        ) by {
            assert(existing.contains(candidate(dir, stem, earlier)));
        }
        lemma_first_free_is(known, dir, stem, attempt);
    }
}

/// The plan for a list of files is the same whether or not their output directory
/// is counted among what exists.
pub proof fn lemma_files_plan_ignores_the_directory(
    existing: Set<PathText>,
    sources: Seq<PathText>,
    dir: PathText,
    mode: OverwriteMode,
)
    requires
        existing.finite(),
    ensures
        files_plan(with_dir(existing, dir), sources, dir, mode) == files_plan(
            existing,
            sources,
            dir,
            mode,
        ),
    decreases sources.len(),
{
    if sources.len() > 0 {
        let source = sources[0];
        let rest = sources.skip(1);
        if file_stem_of(source) is Some {
            lemma_candidates_lie_below(existing, dir, file_stem_of(source)->0, mode);
        }
        match decide_file(existing, source, dir, mode) {
            FileDecision::Refuse { kind } => {},
            FileDecision::PassOver => {
                lemma_files_plan_ignores_the_directory(existing, rest, dir, mode);
            },
            FileDecision::Write { format, target } => {
                lemma_files_plan_ignores_the_directory(existing.insert(target), rest, dir, mode);
                assert(with_dir(existing, dir).insert(target) =~= with_dir(
                    existing.insert(target),
                    dir,
                ));
            },
        }
    }
}

/// Under the skipping policy, a list of files planned against what a successful
/// first run has left needs nothing done: every source finds its output in place.
pub proof fn lemma_files_settle_under_skip(
    existing: Set<PathText>,
    sources: Seq<PathText>,
    dir: PathText,
    later: Set<PathText>,
)
    requires
        files_plan(existing, sources, dir, OverwriteMode::Skip).verdict is Ok,
        after_steps(
            existing,
            files_plan(existing, sources, dir, OverwriteMode::Skip).steps,
        ).subset_of(later),
    ensures
        files_plan(later, sources, dir, OverwriteMode::Skip) == finished(),
    decreases sources.len(),
{
    let mode = OverwriteMode::Skip;
    if sources.len() > 0 {
        let source = sources[0];
        let rest = sources.skip(1);
        let steps = files_plan(existing, sources, dir, mode).steps;
        lemma_steps_keep_what_exists(existing, steps);
        match decide_file(existing, source, dir, mode) {
            FileDecision::Refuse { kind } => {},
            FileDecision::PassOver => {
                lemma_files_settle_under_skip(existing, rest, dir, later);
            },
            FileDecision::Write { format, target } => {
                let tail = files_plan(existing.insert(target), rest, dir, mode).steps;
                assert(steps.skip(1) =~= tail);
                lemma_steps_keep_what_exists(existing.insert(target), tail);
                assert(existing.insert(target).contains(target));
                lemma_files_settle_under_skip(existing.insert(target), rest, dir, later);
            },
        }
    }
}

/// Under the skipping policy, what a walk found, planned against what a successful
/// first run has left, has no file written: directories are made again, which
/// changes nothing, and every image finds its output in place.
pub proof fn lemma_walk_settles_under_skip(
    existing: Set<PathText>,
    items: Seq<WalkItemText>,
    root: PathText,
    out: PathText,
    later: Set<PathText>,
)
    requires
        walk_plan(existing, items, root, out, OverwriteMode::Skip).verdict is Ok,
        after_steps(
            existing,
            walk_plan(existing, items, root, out, OverwriteMode::Skip).steps,
        ).subset_of(later),
    ensures
        writes_nothing(walk_plan(later, items, root, out, OverwriteMode::Skip).steps),
        walk_plan(later, items, root, out, OverwriteMode::Skip).verdict is Ok,
    decreases items.len(),
{
    let mode = OverwriteMode::Skip;
    if items.len() > 0 {
        let rest = items.skip(1);
        match items[0] {
            WalkItemText::Unreadable { path, detail } => {},
            WalkItemText::Entry { path, is_file } => {
                if !is_file || path_format_of(path) is None {
                    lemma_walk_settles_under_skip(existing, rest, root, out, later);
                } else if has_prefix(path, root) {
                    let dir = mirrored_dir(path, root, out);
                    let known = with_dir(existing, dir);
                    let again = with_dir(later, dir);
                    let made = seq![StepText::EnsureDir { dir }];
                    let steps = walk_plan(existing, items, root, out, mode).steps;
                    match decide_file(known, path, dir, mode) {
                        FileDecision::Refuse { kind } => {},
                        FileDecision::PassOver => {
                            let tail = walk_plan(known, rest, root, out, mode).steps;
                            assert(steps.skip(1) =~= tail);
                            lemma_steps_keep_what_exists(known, tail);
                            lemma_walk_settles_under_skip(known, rest, root, out, again);
                            let second = walk_plan(again, rest, root, out, mode).steps;
                            assert(walk_plan(later, items, root, out, mode).steps =~= made + second);
                        },
                        FileDecision::Write { format, target } => {
                            let tail = walk_plan(known.insert(target), rest, root, out, mode).steps;
                            assert(steps.skip(1).skip(1) =~= tail);
                            assert(after_steps(known, steps.skip(1)) == after_steps(
                                known.insert(target),
                                tail,
                            ));
                            lemma_steps_keep_what_exists(known.insert(target), tail);
                            assert(known.insert(target).contains(target));
                            assert(again.contains(target));
                            lemma_walk_settles_under_skip(
                                known.insert(target),
                                rest,
                                root,
                                out,
                                again,
                            );
                            let second = walk_plan(again, rest, root, out, mode).steps;
                            assert(walk_plan(later, items, root, out, mode).steps =~= made + second);
                        },
                    }
                }
            },
        }
    }
}

/// Running twice under the skipping policy, one file: after a first run that
/// succeeded, the same run planned again writes no file. What the first run wrote is
/// left as it is.
pub proof fn lemma_second_single_run_under_skip(
    existing: Set<PathText>,
    source: PathText,
    dir: PathText,
)
    requires
        single_plan(existing, source, dir, OverwriteMode::Skip).verdict is Ok,
    ensures
        writes_nothing(
            single_plan(
                after_steps(existing, single_plan(existing, source, dir, OverwriteMode::Skip).steps),
                source,
                dir,
                OverwriteMode::Skip,
            ).steps,
        ),
{
    let mode = OverwriteMode::Skip;
    let made = seq![StepText::EnsureDir { dir }];
    let known = with_dir(existing, dir);
    let first = single_plan(existing, source, dir, mode);
    let later = after_steps(existing, first.steps);
    lemma_making_a_directory(existing, dir);
    lemma_steps_keep_what_exists(existing, first.steps);
    match decide_file(existing, source, dir, mode) {
        FileDecision::Refuse { kind } => {},
        FileDecision::PassOver => {
            assert(single_plan(later, source, dir, mode).steps =~= made);
        },
        FileDecision::Write { format, target } => {
            let write = seq![StepText::Convert { source, format, target }];
            assert(first.steps =~= made + write);
            lemma_after_steps_of_both(existing, made, write);
            assert(write.skip(1) =~= Seq::<StepText>::empty());
            assert(after_steps(known.insert(target), write.skip(1)) == known.insert(target));
            assert(later.contains(target));
            assert(single_plan(later, source, dir, mode).steps =~= made);
        },
    }
}

/// Running twice under the skipping policy, a list of files: after a first run that
/// succeeded, the same run planned again writes no file.
pub proof fn lemma_second_many_run_under_skip(
    existing: Set<PathText>,
    sources: Seq<PathText>,
    dir: PathText,
)
    requires
        many_plan(existing, sources, dir, OverwriteMode::Skip).verdict is Ok,
    ensures
        writes_nothing(
            many_plan(
                after_steps(existing, many_plan(existing, sources, dir, OverwriteMode::Skip).steps),
                sources,
                dir,
                OverwriteMode::Skip,
            ).steps,
        ),
{
    let mode = OverwriteMode::Skip;
    let made = seq![StepText::EnsureDir { dir }];
    let known = with_dir(existing, dir);
    let first = many_plan(existing, sources, dir, mode);
    let inner = files_plan(existing, sources, dir, mode);
    let later = after_steps(existing, first.steps);
    lemma_making_a_directory(existing, dir);
    lemma_after_steps_of_both(existing, made, inner.steps);
    lemma_after_steps_grow_with_the_start(existing, known, inner.steps);
    lemma_files_settle_under_skip(existing, sources, dir, later);
    assert(many_plan(later, sources, dir, mode).steps =~= made);
}

/// Running twice under the skipping policy, a tree: after a first run that
/// succeeded, the same run planned again for the same tree writes no file. It makes
/// the directories again, which changes nothing, and succeeds.
pub proof fn lemma_second_tree_run_under_skip(
    existing: Set<PathText>,
    items: Seq<WalkItemText>,
    root: PathText,
    out: PathText,
)
    requires
        tree_plan(existing, items, root, out, OverwriteMode::Skip).verdict is Ok,
    ensures
        writes_nothing(
            tree_plan(
                after_steps(existing, tree_plan(existing, items, root, out, OverwriteMode::Skip).steps),
                items,
                root,
                out,
                OverwriteMode::Skip,
            ).steps,
        ),
        tree_plan(
            after_steps(existing, tree_plan(existing, items, root, out, OverwriteMode::Skip).steps),
            items,
            root,
            out,
            OverwriteMode::Skip,
        ).verdict is Ok,
{
    let mode = OverwriteMode::Skip;
    let made = seq![StepText::EnsureDir { dir: out }];
    let known = with_dir(existing, out);
    let first = tree_plan(existing, items, root, out, mode);
    let inner = walk_plan(known, items, root, out, mode);
    let later = after_steps(existing, first.steps);
    lemma_making_a_directory(existing, out);
    lemma_after_steps_of_both(existing, made, inner.steps);
    lemma_walk_settles_under_skip(known, items, root, out, with_dir(later, out));
    let second = walk_plan(with_dir(later, out), items, root, out, mode).steps;
    assert(tree_plan(later, items, root, out, mode).steps =~= made + second);
}

/// Starting with more, steps leave more.
pub proof fn lemma_after_steps_grow_with_the_start(
    fewer: Set<PathText>,
    more: Set<PathText>,
    steps: Seq<StepText>,
)
    requires
        fewer.subset_of(more),
    ensures
        after_steps(fewer, steps).subset_of(after_steps(more, steps)),
    decreases steps.len(),
{
    if steps.len() > 0 {
        lemma_after_steps_grow_with_the_start(
            after_step(fewer, steps[0]),
            after_step(more, steps[0]),
            steps.skip(1),
        );
    }
}

/// Under the overwriting policy, what exists plays no part in the plan for a list of
/// files: every source is converted to its plain name again, replacing what a run
/// before has put there.
pub proof fn lemma_files_plan_under_overwrite(
    existing: Set<PathText>,
    other: Set<PathText>,
    sources: Seq<PathText>,
    dir: PathText,
)
    ensures
        files_plan(existing, sources, dir, OverwriteMode::Overwrite) == files_plan(
            other,
            sources,
            dir,
            OverwriteMode::Overwrite,
        ),
    decreases sources.len(),
{
    if sources.len() > 0 {
        let source = sources[0];
        let rest = sources.skip(1);
        match decide_file(existing, source, dir, OverwriteMode::Overwrite) {
            FileDecision::Refuse { kind } => {},
            FileDecision::PassOver => {},
            FileDecision::Write { format, target } => {
                lemma_files_plan_under_overwrite(
                    existing.insert(target),
                    other.insert(target),
                    rest,
                    dir,
                );
            },
        }
    }
}

/// Under the overwriting policy, what exists plays no part in the plan for a tree.
pub proof fn lemma_walk_plan_under_overwrite(
    existing: Set<PathText>,
    other: Set<PathText>,
    items: Seq<WalkItemText>,
    root: PathText,
    out: PathText,
)
    ensures
        walk_plan(existing, items, root, out, OverwriteMode::Overwrite) == walk_plan(
            other,
            items,
            root,
            out,
            OverwriteMode::Overwrite,
        ),
    decreases items.len(),
{
    let mode = OverwriteMode::Overwrite;
    if items.len() > 0 {
        let rest = items.skip(1);
        match items[0] {
            WalkItemText::Unreadable { path, detail } => {},
            WalkItemText::Entry { path, is_file } => {
                if !is_file || path_format_of(path) is None {
                    lemma_walk_plan_under_overwrite(existing, other, rest, root, out);
                } else if has_prefix(path, root) {
                    let dir = mirrored_dir(path, root, out);
                    match decide_file(with_dir(existing, dir), path, dir, mode) {
                        FileDecision::Refuse { kind } => {},
                        FileDecision::PassOver => {},
                        FileDecision::Write { format, target } => {
                            lemma_walk_plan_under_overwrite(
                                with_dir(existing, dir).insert(target),
                                with_dir(other, dir).insert(target),
                                rest,
                                root,
                                out,
                            );
                        },
                    }
                }
            },
        }
    }
}

/// Under the overwriting policy a run is planned alike whatever exists. Planned
/// again after a first run, it converts every source to the same path again, so what
/// the first run wrote there is replaced.
pub proof fn lemma_overwrite_runs_repeat(
    existing: Set<PathText>,
    other: Set<PathText>,
    source: PathText,
    sources: Seq<PathText>,
    items: Seq<WalkItemText>,
    root: PathText,
    dir: PathText,
)
    ensures
        single_plan(existing, source, dir, OverwriteMode::Overwrite) == single_plan(
            other,
            source,
            dir,
            OverwriteMode::Overwrite,
        ),
        many_plan(existing, sources, dir, OverwriteMode::Overwrite) == many_plan(
            other,
            sources,
            dir,
            OverwriteMode::Overwrite,
        ),
        tree_plan(existing, items, root, dir, OverwriteMode::Overwrite) == tree_plan(
            other,
            items,
            root,
            dir,
            OverwriteMode::Overwrite,
        ),
{
    lemma_files_plan_under_overwrite(existing, other, sources, dir);
    lemma_walk_plan_under_overwrite(
        with_dir(existing, dir),
        with_dir(other, dir),
        items,
        root,
        dir,
    );
}

/// Under the overwriting policy every source of a list that is reached is written to
/// its plain name: the plan lists, for each source in order, its conversion to
/// `<stem>.webp`, up to the first source that is refused.
pub proof fn lemma_overwrite_writes_every_source(
    existing: Set<PathText>,
    sources: Seq<PathText>,
    dir: PathText,
    at: int,
)
    requires
        files_plan(existing, sources, dir, OverwriteMode::Overwrite).verdict is Ok,
        0 <= at < sources.len(),
    ensures
        path_format_of(sources[at]) is Some,
        files_plan(existing, sources, dir, OverwriteMode::Overwrite).steps.len() == sources.len(),
        files_plan(existing, sources, dir, OverwriteMode::Overwrite).steps[at] == (
        StepText::Convert {
            source: sources[at],
            format: path_format_of(sources[at])->0,
            target: desired(dir, file_stem_of(sources[at])->0),
        }),
    decreases sources.len(),
{
    let mode = OverwriteMode::Overwrite;
    let source = sources[0];
    let rest = sources.skip(1);
    match decide_file(existing, source, dir, mode) {
        FileDecision::Refuse { kind } => {},
        FileDecision::PassOver => {},
        FileDecision::Write { format, target } => {
            let tail = files_plan(existing.insert(target), rest, dir, mode);
            if rest.len() > 0 {
                lemma_overwrite_writes_every_source(
                    existing.insert(target),
                    rest,
                    dir,
                    if at == 0 { 0 } else { at - 1 },
                );
            }
            let steps = files_plan(existing, sources, dir, mode).steps;
            if at > 0 {
                assert(steps[at] == tail.steps[at - 1]);
                assert(rest[at - 1] == sources[at]);
            }
        },
    }
}

/// Whether each conversion of a list of steps reads a file with a supported
/// extension and writes one without: no step writes to a file that a run reads.
pub open spec fn spares_sources(steps: Seq<StepText>) -> bool {
    forall|i: int|
        0 <= i < steps.len() ==> (#[trigger] steps[i] matches StepText::Convert {
            source,
            format,
            target,
        } ==> path_format_of(source) == Some(format) && path_format_of(target) is None)
}

/// Whatever is decided for a source, a conversion decided on reads a file with a
/// supported extension and writes to one of the names tried for its stem.
pub proof fn lemma_decision_names_an_output(
    existing: Set<PathText>,
    source: PathText,
    dir: PathText,
    mode: OverwriteMode,
)
    ensures
        decide_file(existing, source, dir, mode) matches FileDecision::Write { format, target } ==> {
            &&& path_format_of(source) == Some(format)
            &&& file_stem_of(source) is Some
            &&& path_format_of(target) is None
            &&& target.len() == dir.len() + 1
            &&& target.drop_last() == dir
            &&& exists|attempt: nat| target == #[trigger] candidate(dir, file_stem_of(source)->0, attempt)
            &&& mode != OverwriteMode::Rename ==> target == desired(dir, file_stem_of(source)->0)
        },
{
    if let FileDecision::Write { format, target } = decide_file(existing, source, dir, mode) {
        let stem = file_stem_of(source)->0;
        let attempt = if mode == OverwriteMode::Rename {
            first_free(existing, dir, stem)
        } else {
            0
        };
        assert(target == candidate(dir, stem, attempt));
        lemma_outputs_are_not_sources(dir, stem, attempt);
        assert(target.drop_last() =~= dir);
    }
}

/// No plan for a list of files writes to a file that a run could read.
pub proof fn lemma_files_plan_spares_sources(
    existing: Set<PathText>,
    sources: Seq<PathText>,
    dir: PathText,
    mode: OverwriteMode,
)
    ensures
        spares_sources(files_plan(existing, sources, dir, mode).steps),
    decreases sources.len(),
{
    if sources.len() > 0 {
        let source = sources[0];
        let rest = sources.skip(1);
        lemma_decision_names_an_output(existing, source, dir, mode);
        match decide_file(existing, source, dir, mode) {
            FileDecision::Refuse { kind } => {},
            FileDecision::PassOver => {
                lemma_files_plan_spares_sources(existing, rest, dir, mode);
            },
            FileDecision::Write { format, target } => {
                lemma_files_plan_spares_sources(existing.insert(target), rest, dir, mode);
                let tail = files_plan(existing.insert(target), rest, dir, mode).steps;
                let steps = files_plan(existing, sources, dir, mode).steps;
                assert forall|i: int| 0 <= i < steps.len() implies (#[trigger] steps[i] matches StepText::Convert {
                    source,
                    format,
                    target,
                } ==> path_format_of(source) == Some(format) && path_format_of(target) is None) by {
                    if i > 0 {
                        assert(steps[i] == tail[i - 1]);
                    }
                }
            },
        }
    }
}

/// Whether each step of a list keeps to a tree's layout: every directory made lies
/// at or below `out`, and every conversion reads a file below `root` and writes, in
/// the directory that mirrors the file's own, one of the names tried for its stem.
pub open spec fn mirrors_tree(steps: Seq<StepText>, root: PathText, out: PathText) -> bool {
    forall|i: int|
        0 <= i < steps.len() ==> match #[trigger] steps[i] {
            StepText::EnsureDir { dir } => has_prefix(dir, out),
            StepText::Convert { source, format, target } => {
                &&& has_prefix(source, root)
                &&& path_format_of(source) == Some(format)
                &&& path_format_of(target) is None
                &&& target.drop_last() == mirrored_dir(source, root, out)
                &&& exists|attempt: nat|
                    target == #[trigger] candidate(
                        mirrored_dir(source, root, out),
                        file_stem_of(source)->0,
                        attempt,
                    )
            },
        }
}

/// The directory that mirrors a file's own lies at or below the output root.
pub proof fn lemma_mirrored_dir_lies_below(path: PathText, root: PathText, out: PathText)
    ensures
        has_prefix(mirrored_dir(path, root, out), out),
{
    assert(mirrored_dir(path, root, out).subrange(0, out.len() as int) =~= out);
}

/// The plan for what a walk found keeps to the tree's layout under every policy:
/// each output lies where its source lies, `out` standing for `root`.
pub proof fn lemma_walk_plan_mirrors_tree(
    existing: Set<PathText>,
    items: Seq<WalkItemText>,
    root: PathText,
    out: PathText,
    mode: OverwriteMode,
)
    ensures
        mirrors_tree(walk_plan(existing, items, root, out, mode).steps, root, out),
    decreases items.len(),
{
    if items.len() > 0 {
        let rest = items.skip(1);
        match items[0] {
            WalkItemText::Unreadable { path, detail } => {},
            WalkItemText::Entry { path, is_file } => {
                if !is_file || path_format_of(path) is None {
                    lemma_walk_plan_mirrors_tree(existing, rest, root, out, mode);
                } else if has_prefix(path, root) {
                    let dir = mirrored_dir(path, root, out);
                    let known = with_dir(existing, dir);
                    let steps = walk_plan(existing, items, root, out, mode).steps;
                    lemma_mirrored_dir_lies_below(path, root, out);
                    lemma_decision_names_an_output(known, path, dir, mode);
                    match decide_file(known, path, dir, mode) {
                        FileDecision::Refuse { kind } => {},
                        FileDecision::PassOver => {
                            lemma_walk_plan_mirrors_tree(known, rest, root, out, mode);
                            let tail = walk_plan(known, rest, root, out, mode).steps;
                            assert forall|i: int| 0 <= i < steps.len() implies match #[trigger] steps[i] {
                                StepText::EnsureDir { dir } => has_prefix(dir, out),
                                StepText::Convert { source, format, target } => {
                                    &&& has_prefix(source, root)
                                    &&& path_format_of(source) == Some(format)
                                    &&& path_format_of(target) is None
                                    &&& target.drop_last() == mirrored_dir(source, root, out)
                                    &&& exists|attempt: nat|
                                        target == #[trigger] candidate(
                                            mirrored_dir(source, root, out),
                                            file_stem_of(source)->0,
                                            attempt,
                                        )
                                },
                            } by {
                                if i > 0 {
                                    assert(steps[i] == tail[i - 1]);
                                }
                            }
                        },
                        FileDecision::Write { format, target } => {
                            lemma_walk_plan_mirrors_tree(known.insert(target), rest, root, out, mode);
                            let tail = walk_plan(known.insert(target), rest, root, out, mode).steps;
                            assert forall|i: int| 0 <= i < steps.len() implies match #[trigger] steps[i] {
                                StepText::EnsureDir { dir } => has_prefix(dir, out),
                                StepText::Convert { source, format, target } => {
                                    &&& has_prefix(source, root)
                                    &&& path_format_of(source) == Some(format)
                                    &&& path_format_of(target) is None
                                    &&& target.drop_last() == mirrored_dir(source, root, out)
                                    &&& exists|attempt: nat|
                                        target == #[trigger] candidate(
                                            mirrored_dir(source, root, out),
                                            file_stem_of(source)->0,
                                            attempt,
                                        )
                                },
                            } by {
                                if i > 1 {
                                    assert(steps[i] == tail[i - 2]);
                                }
                            }
                        },
                    }
                }
            },
        }
    }
}

/// A plan for a tree that succeeds leaves the plain output of every image in place:
/// for each regular file with a supported extension that the walk found, the file
/// lies under `root`, and `<stem>.webp` exists afterwards in the directory under
/// `out` that mirrors the file's own. It was written by this run, or was there
/// before.
pub proof fn lemma_walk_plan_converts_every_image(
    existing: Set<PathText>,
    items: Seq<WalkItemText>,
    root: PathText,
    out: PathText,
    mode: OverwriteMode,
    at: int,
)
    requires
        existing.finite(),
        walk_plan(existing, items, root, out, mode).verdict is Ok,
        0 <= at < items.len(),
        items[at] matches WalkItemText::Entry { path, is_file } && is_file && path_format_of(path)
            is Some,
    ensures
        has_prefix(items[at]->Entry_path, root),
        after_steps(existing, walk_plan(existing, items, root, out, mode).steps).contains(
            desired(
                mirrored_dir(items[at]->Entry_path, root, out),
                file_stem_of(items[at]->Entry_path)->0,
            ),
        ),
    decreases items.len(),
{
    let rest = items.skip(1);
    let steps = walk_plan(existing, items, root, out, mode).steps;
    match items[0] {
        WalkItemText::Unreadable { path, detail } => {},
        WalkItemText::Entry { path, is_file } => {
            if !is_file || path_format_of(path) is None {
                assert(rest[at - 1] == items[at]);
                lemma_walk_plan_converts_every_image(existing, rest, root, out, mode, at - 1);
            } else if has_prefix(path, root) {
                let dir = mirrored_dir(path, root, out);
                let known = with_dir(existing, dir);
                let stem = file_stem_of(path)->0;
                lemma_with_dir_is_finite(existing, dir);
                match decide_file(known, path, dir, mode) {
                    FileDecision::Refuse { kind } => {},
                    FileDecision::PassOver => {
                        let tail = walk_plan(known, rest, root, out, mode).steps;
                        assert(steps.skip(1) =~= tail);
                        if at == 0 {
                            lemma_steps_keep_what_exists(known, tail);
                        } else {
                            assert(rest[at - 1] == items[at]);
                            lemma_walk_plan_converts_every_image(known, rest, root, out, mode, at - 1);
                        }
                    },
                    FileDecision::Write { format, target } => {
                        let tail = walk_plan(known.insert(target), rest, root, out, mode).steps;
                        assert(steps.skip(1).skip(1) =~= tail);
                        assert(after_steps(known, steps.skip(1)) == after_steps(
                            known.insert(target),
                            tail,
                        ));
                        if at == 0 {
                            lemma_steps_keep_what_exists(known.insert(target), tail);
                            if mode == OverwriteMode::Rename {
                                lemma_first_free_exists(known, dir, stem);
                                if known.contains(desired(dir, stem)) {
                                    assert(known.insert(target).contains(desired(dir, stem)));
                                } else {
                                    lemma_first_free_is(known, dir, stem, 0);
                                }
                            }
                            assert(known.insert(target).contains(desired(dir, stem)));
                        } else {
                            assert(rest[at - 1] == items[at]);
                            lemma_walk_plan_converts_every_image(
                                known.insert(target),
                                rest,
                                root,
                                out,
                                mode,
                                at - 1,
                            );
                        }
                    },
                }
            }
        },
    }
}

/// The plan for a tree keeps to the tree's layout under every policy: each output
/// lies under `out` where its source lies under `root`.
pub proof fn lemma_tree_plan_mirrors_tree(
    existing: Set<PathText>,
    items: Seq<WalkItemText>,
    root: PathText,
    out: PathText,
    mode: OverwriteMode,
)
    ensures
        mirrors_tree(tree_plan(existing, items, root, out, mode).steps, root, out),
{
    let inner = walk_plan(with_dir(existing, out), items, root, out, mode).steps;
    let steps = tree_plan(existing, items, root, out, mode).steps;
    lemma_walk_plan_mirrors_tree(with_dir(existing, out), items, root, out, mode);
    assert(has_prefix(out, out)) by {
        assert(out.subrange(0, out.len() as int) =~= out);
    }
    assert forall|i: int| 0 <= i < steps.len() implies match #[trigger] steps[i] {
        StepText::EnsureDir { dir } => has_prefix(dir, out),
        StepText::Convert { source, format, target } => {
            &&& has_prefix(source, root)
            &&& path_format_of(source) == Some(format)
            &&& path_format_of(target) is None
            &&& target.drop_last() == mirrored_dir(source, root, out)
            &&& exists|attempt: nat|
                target == #[trigger] candidate(
                    mirrored_dir(source, root, out),
                    file_stem_of(source)->0,
                    attempt,
                )
        },
    } by {
        if i > 0 {
            assert(steps[i] == inner[i - 1]);
        }
    }
}

/// A run over a tree that succeeds leaves the plain output of every image in place:
/// for a file `root/a/b/img.png` that the walk found, `out/a/b/img.webp` exists
/// afterwards, whatever the policy.
pub proof fn lemma_tree_plan_converts_every_image(
    existing: Set<PathText>,
    items: Seq<WalkItemText>,
    root: PathText,
    out: PathText,
    mode: OverwriteMode,
    at: int,
)
    requires
        existing.finite(),
        tree_plan(existing, items, root, out, mode).verdict is Ok,
        0 <= at < items.len(),
        items[at] matches WalkItemText::Entry { path, is_file } && is_file && path_format_of(path)
            is Some,
    ensures
        has_prefix(items[at]->Entry_path, root),
        after_steps(existing, tree_plan(existing, items, root, out, mode).steps).contains(
            desired(
                mirrored_dir(items[at]->Entry_path, root, out),
                file_stem_of(items[at]->Entry_path)->0,
            ),
        ),
{
    let made = seq![StepText::EnsureDir { dir: out }];
    let known = with_dir(existing, out);
    lemma_making_a_directory(existing, out);
    lemma_with_dir_is_finite(existing, out);
    lemma_after_steps_of_both(existing, made, walk_plan(known, items, root, out, mode).steps);
    lemma_walk_plan_converts_every_image(known, items, root, out, mode, at);
}

/// An entry that is no regular file with a supported extension leaves no trace in
/// the plan for a tree, wherever in the walk it stands: the plan is the one for the
/// walk without it.
pub proof fn lemma_other_entries_leave_no_trace(
    existing: Set<PathText>,
    items: Seq<WalkItemText>,
    root: PathText,
    out: PathText,
    mode: OverwriteMode,
    at: int,
)
    requires
        0 <= at < items.len(),
        items[at] matches WalkItemText::Entry { path, is_file } && (!is_file || path_format_of(path)
            is None),
    ensures
        walk_plan(existing, items, root, out, mode) == walk_plan(
            existing,
            items.remove(at),
            root,
            out,
            mode,
        ),
        tree_plan(existing, items, root, out, mode) == tree_plan(
            existing,
            items.remove(at),
            root,
            out,
            mode,
        ),
{
    lemma_other_entries_leave_no_trace_in_walk(existing, items, root, out, mode, at);
    lemma_other_entries_leave_no_trace_in_walk(with_dir(existing, out), items, root, out, mode, at);
}

/// The walk without an entry that is passed by has the same plan.
proof fn lemma_other_entries_leave_no_trace_in_walk(
    existing: Set<PathText>,
    items: Seq<WalkItemText>,
    root: PathText,
    out: PathText,
    mode: OverwriteMode,
    at: int,
)
    requires
        0 <= at < items.len(),
        items[at] matches WalkItemText::Entry { path, is_file } && (!is_file || path_format_of(path)
            is None),
    ensures
        walk_plan(existing, items, root, out, mode) == walk_plan(
            existing,
            items.remove(at),
            root,
            out,
            mode,
        ),
    decreases items.len(),
{
    let fewer = items.remove(at);
    let rest = items.skip(1);
    if at == 0 {
        assert(fewer =~= rest);
    } else {
        assert(fewer[0] == items[0]);
        assert(fewer.skip(1) =~= rest.remove(at - 1));
        assert(rest[at - 1] == items[at]);
        match items[0] {
            WalkItemText::Unreadable { path, detail } => {},
            WalkItemText::Entry { path, is_file } => {
                if !is_file || path_format_of(path) is None {
                    lemma_other_entries_leave_no_trace_in_walk(existing, rest, root, out, mode, at - 1);
                } else if has_prefix(path, root) {
                    let dir = mirrored_dir(path, root, out);
                    let known = with_dir(existing, dir);
                    match decide_file(known, path, dir, mode) {
                        FileDecision::Refuse { kind } => {},
                        FileDecision::PassOver => {
                            lemma_other_entries_leave_no_trace_in_walk(known, rest, root, out, mode, at - 1);
                        },
                        FileDecision::Write { format, target } => {
                            lemma_other_entries_leave_no_trace_in_walk(
                                known.insert(target),
                                rest,
                                root,
                                out,
                                mode,
                                at - 1,
                            );
                        },
                    }
                }
            },
        }
    }
}

/// No run writes to a file that it reads, whatever its input and policy: every
/// conversion reads a file with a supported extension and writes one without.
pub proof fn lemma_runs_spare_sources(
    existing: Set<PathText>,
    source: PathText,
    sources: Seq<PathText>,
    items: Seq<WalkItemText>,
    root: PathText,
    dir: PathText,
    mode: OverwriteMode,
)
    ensures
        spares_sources(single_plan(existing, source, dir, mode).steps),
        spares_sources(many_plan(existing, sources, dir, mode).steps),
        spares_sources(tree_plan(existing, items, root, dir, mode).steps),
{
    lemma_decision_names_an_output(existing, source, dir, mode);
    lemma_files_plan_spares_sources(existing, sources, dir, mode);
    let listed = files_plan(existing, sources, dir, mode).steps;
    let many = many_plan(existing, sources, dir, mode).steps;
    assert forall|i: int| 0 <= i < many.len() implies (#[trigger] many[i] matches StepText::Convert {
        source,
        format,
        target,
    } ==> path_format_of(source) == Some(format) && path_format_of(target) is None) by {
        if i > 0 {
            assert(many[i] == listed[i - 1]);
        }
    }
    lemma_tree_plan_mirrors_tree(existing, items, root, dir, mode);
}

/// Where every conversion reads a file with a supported extension and writes one
/// without, no file that is read is ever written: the source of each conversion is
/// untouched by all of them.
pub proof fn lemma_spared_sources_are_untouched(steps: Seq<StepText>, reading: int, writing: int)
    requires
        spares_sources(steps),
        0 <= reading < steps.len(),
        0 <= writing < steps.len(),
        steps[reading] is Convert,
        steps[writing] is Convert,
    ensures
        steps[reading]->source != steps[writing]->target,
{
}

/// The first image that a walk finds outside `root` ends the plan there: where only
/// entries that are passed by come before it, nothing is converted, and the verdict
/// is that the file does not lie under the root.
pub proof fn lemma_first_image_outside_the_root_ends_the_walk(
    existing: Set<PathText>,
    items: Seq<WalkItemText>,
    root: PathText,
    out: PathText,
    mode: OverwriteMode,
    at: int,
)
    requires
        0 <= at < items.len(),
        forall|before: int|
            0 <= before < at ==> (#[trigger] items[before] matches WalkItemText::Entry {
                path,
                is_file,
            } && (!is_file || path_format_of(path) is None)),
        items[at] matches WalkItemText::Entry { path, is_file } && is_file && path_format_of(path)
            is Some && !has_prefix(path, root),
    ensures
        walk_plan(existing, items, root, out, mode) == stopped(
            ConversionErrorKind::RelativePathFailure,
            items[at]->Entry_path,
            "le fichier n'est pas sous le répertoire à convertir"@,
        ),
        tree_plan(existing, items, root, out, mode).steps == seq![StepText::EnsureDir { dir: out }],
        tree_plan(existing, items, root, out, mode).verdict == walk_plan(
            existing,
            items,
            root,
            out,
            mode,
        ).verdict,
{
    lemma_first_image_outside_the_root_ends_any_walk(existing, items, root, out, mode, at);
    lemma_first_image_outside_the_root_ends_any_walk(
        with_dir(existing, out),
        items,
        root,
        out,
        mode,
        at,
    );
    assert(tree_plan(existing, items, root, out, mode).steps =~= seq![
        StepText::EnsureDir { dir: out },
    ]);
}

/// The walk up to the first image outside the root, whatever exists.
proof fn lemma_first_image_outside_the_root_ends_any_walk(
    existing: Set<PathText>,
    items: Seq<WalkItemText>,
    root: PathText,
    out: PathText,
    mode: OverwriteMode,
    at: int,
)
    requires
        0 <= at < items.len(),
        forall|before: int|
            0 <= before < at ==> (#[trigger] items[before] matches WalkItemText::Entry {
                path,
                is_file,
            } && (!is_file || path_format_of(path) is None)),
        items[at] matches WalkItemText::Entry { path, is_file } && is_file && path_format_of(path)
            is Some && !has_prefix(path, root),
    ensures
        walk_plan(existing, items, root, out, mode) == stopped(
            ConversionErrorKind::RelativePathFailure,
            items[at]->Entry_path,
            "le fichier n'est pas sous le répertoire à convertir"@,
        ),
    decreases at,
{
    if at > 0 {
        let rest = items.skip(1);
        assert(items[0] matches WalkItemText::Entry { path, is_file } && (!is_file
            || path_format_of(path) is None));
        assert forall|before: int| 0 <= before < at - 1 implies (#[trigger] rest[before] matches WalkItemText::Entry {
            path,
            is_file,
        } && (!is_file || path_format_of(path) is None)) by {
            assert(rest[before] == items[before + 1]);
        }
        assert(rest[at - 1] == items[at]);
        lemma_first_image_outside_the_root_ends_any_walk(existing, rest, root, out, mode, at - 1);
    }
}

} // verus!

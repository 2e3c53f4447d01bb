//! Planning a run: which directories to make and which files to convert to where.
//!
//! A plan is worked out from values alone: the sources, the destination, the policy
//! for taken names, and a snapshot of what exists. It lists the steps in the order in
//! which they are to be carried out and ends in a verdict, the outcome of the run
//! where every step succeeds. A source that cannot be converted ends the plan at its
//! place: the steps before it stay, none follows, and the verdict names it.

use crate::error::{outcome_text, ConversionError, ConversionErrorKind, ConversionOutcome};
use crate::error::{Fault, OutcomeText};
use crate::format::SourceFormat;
use crate::path::{file_stem_of, has_prefix, path_format_of, FilePath, PathText};
use crate::policy::{resolve, resolved, OverwriteMode};
use crate::snapshot::{path_texts, with_dir, Snapshot};
use vstd::prelude::*;

verus! {

/// One thing to do on disk.
#[derive(Debug, PartialEq, Eq)]
pub enum Step {
    /// Make sure that a directory exists, creating it and its ancestors as needed.
    EnsureDir { dir: FilePath },
    /// Read `source` as an image of the given format and write it to `target` as WebP.
    Convert { source: FilePath, format: SourceFormat, target: FilePath },
}

/// A step as a value of specifications.
pub enum StepText {
    EnsureDir { dir: PathText },
    Convert { source: PathText, format: SourceFormat, target: PathText },
}

impl View for Step {
    type V = StepText;

    open spec fn view(&self) -> StepText {
        match self {
            Step::EnsureDir { dir } => StepText::EnsureDir { dir: dir@ },
            Step::Convert { source, format, target } => StepText::Convert {
                source: source@,
                format: *format,
                target: target@,
            },
        }
    }
}

impl Clone for Step {
    fn clone(&self) -> (res: Self)
        ensures
            res@ == self@,
    {
        match self {
            Step::EnsureDir { dir } => Step::EnsureDir { dir: dir.clone() },
            Step::Convert { source, format, target } => Step::Convert {
                source: source.clone(),
                format: *format,
                target: target.clone(),
            },
        }
    }
}

/// The views of a list of steps.
pub open spec fn step_texts(steps: Seq<Step>) -> Seq<StepText> {
    steps.map_values(|s: Step| s@)
}

/// The steps of a run and the outcome it has where they all succeed.
#[derive(Debug, PartialEq, Eq)]
pub struct Plan {
    pub steps: Vec<Step>,
    pub verdict: ConversionOutcome,
}

/// A plan as a value of specifications.
pub struct PlanText {
    pub steps: Seq<StepText>,
    pub verdict: OutcomeText,
}

impl View for Plan {
    type V = PlanText;

    open spec fn view(&self) -> PlanText {
        PlanText { steps: step_texts(self.steps@), verdict: outcome_text(self.verdict) }
    }
}

/// What a directory walk reports of one place in the input tree.
#[derive(Debug, PartialEq, Eq)]
pub enum WalkItem {
    /// Something was found at `path`; `is_file` tells whether it is a regular file.
    Entry { path: FilePath, is_file: bool },
    /// The walk could not read what is at `path`.
    Unreadable { path: FilePath, detail: String },
}

/// A walk item as a value of specifications.
pub enum WalkItemText {
    Entry { path: PathText, is_file: bool },
    Unreadable { path: PathText, detail: Seq<char> },
}

impl View for WalkItem {
    type V = WalkItemText;

    open spec fn view(&self) -> WalkItemText {
        match self {
            WalkItem::Entry { path, is_file } => WalkItemText::Entry { path: path@, is_file: *is_file },
            WalkItem::Unreadable { path, detail } => WalkItemText::Unreadable {
                path: path@,
                detail: detail@,
            },
        }
    }
}

/// The views of a list of walk items.
pub open spec fn walk_texts(items: Seq<WalkItem>) -> Seq<WalkItemText> {
    items.map_values(|w: WalkItem| w@)
}

/// What is decided for one source file.
pub enum FileDecision {
    /// The source cannot be converted.
    Refuse { kind: ConversionErrorKind },
    /// The source is left alone: its output is there already.
    PassOver,
    /// The source is converted to `target`.
    Write { format: SourceFormat, target: PathText },
}

/// The cause stated when a source is refused before anything is read.
pub open spec fn refusal_detail(kind: ConversionErrorKind) -> Seq<char> {
    if kind == ConversionErrorKind::InvalidFileName {
        "le chemin ne se termine pas par un nom de fichier"@
    } else {
        "seuls les fichiers png, jpg, jpeg et bmp peuvent être convertis"@
    }
}

/// The decision for one source whose output belongs in `dir`: refused where it has no
/// file name, or an extension that stands for no supported format; otherwise written
/// or passed over as the policy resolves its output name against what exists.
pub open spec fn decide_file(
    existing: Set<PathText>,
    source: PathText,
    dir: PathText,
    mode: OverwriteMode,
) -> FileDecision {
    match file_stem_of(source) {
        None => FileDecision::Refuse { kind: ConversionErrorKind::InvalidFileName },
        Some(stem) => match path_format_of(source) {
            None => FileDecision::Refuse { kind: ConversionErrorKind::UnsupportedExtension },
            Some(format) => match resolved(existing, dir, stem, mode) {
                None => FileDecision::PassOver,
                Some(target) => FileDecision::Write { format, target },
            },
        },
    }
}

/// The plan that does nothing more and succeeds.
pub open spec fn finished() -> PlanText {
    PlanText { steps: Seq::empty(), verdict: Ok(()) }
}

/// The plan that does nothing more and fails.
pub open spec fn stopped(kind: ConversionErrorKind, path: PathText, detail: Seq<char>) -> PlanText {
    PlanText { steps: Seq::empty(), verdict: Err(Fault { kind, path, detail }) }
}

/// The plan that carries out `done` and then `rest`.
pub open spec fn extend(done: Seq<StepText>, rest: PlanText) -> PlanText {
    PlanText { steps: done + rest.steps, verdict: rest.verdict }
}

/// The plan for one source whose output belongs in `dir`. A refused source leaves
/// the disk untouched; any other has `dir` made first.
pub open spec fn single_plan(
    existing: Set<PathText>,
    source: PathText,
    dir: PathText,
    mode: OverwriteMode,
) -> PlanText {
    match decide_file(existing, source, dir, mode) {
        FileDecision::Refuse { kind } => stopped(kind, source, refusal_detail(kind)),
        FileDecision::PassOver => extend(seq![StepText::EnsureDir { dir }], finished()),
        FileDecision::Write { format, target } => extend(
            seq![StepText::EnsureDir { dir }, StepText::Convert { source, format, target }],
            finished(),
        ),
    }
}

/// The plan for a list of sources whose outputs all belong in `dir`, taken in order.
/// The first refused source ends it; each output written exists for the sources after
/// it.
pub open spec fn files_plan(
    existing: Set<PathText>,
    sources: Seq<PathText>,
    dir: PathText,
    mode: OverwriteMode,
) -> PlanText
    decreases sources.len(),
{
    if sources.len() == 0 {
        finished()
    } else {
        let source = sources[0];
        let rest = sources.skip(1);
        match decide_file(existing, source, dir, mode) {
            FileDecision::Refuse { kind } => stopped(kind, source, refusal_detail(kind)),
            FileDecision::PassOver => files_plan(existing, rest, dir, mode),
            FileDecision::Write { format, target } => extend(
                seq![StepText::Convert { source, format, target }],
                files_plan(existing.insert(target), rest, dir, mode),
            ),
        }
    }
}

/// The plan for a list of sources: `dir` is made once, then the sources follow.
pub open spec fn many_plan(
    existing: Set<PathText>,
    sources: Seq<PathText>,
    dir: PathText,
    mode: OverwriteMode,
) -> PlanText {
    extend(seq![StepText::EnsureDir { dir }], files_plan(existing, sources, dir, mode))
}

/// The directory part of a relative path: the path without its last component, and
/// the empty path for the empty path.
pub open spec fn directory_part(relative: PathText) -> PathText {
    if relative.len() == 0 {
        relative
    } else {
        relative.drop_last()
    }
}

/// Where the output of a file of the input tree belongs: under `out`, in the
/// directory that the file has under `root`.
pub open spec fn mirrored_dir(path: PathText, root: PathText, out: PathText) -> PathText {
    out + directory_part(path.skip(root.len() as int))
}

/// The plan for what a walk of an input tree found, item by item. What is no regular
/// file, or has no supported extension, is passed by. An unreadable place ends the
/// plan, and so does a file that does not lie under `root`. Every other file has its
/// mirrored directory made and is then decided like any single source.
pub open spec fn walk_plan(
    existing: Set<PathText>,
    items: Seq<WalkItemText>,
    root: PathText,
    out: PathText,
    mode: OverwriteMode,
) -> PlanText
    decreases items.len(),
{
    if items.len() == 0 {
        finished()
    } else {
        let rest = items.skip(1);
        match items[0] {
            WalkItemText::Unreadable { path, detail } => stopped(
                ConversionErrorKind::DirectoryReadFailure,
                path,
                detail,
            ),
            WalkItemText::Entry { path, is_file } => {
                if !is_file || path_format_of(path) is None {
                    walk_plan(existing, rest, root, out, mode)
                } else if !has_prefix(path, root) {
                    stopped(
                        ConversionErrorKind::RelativePathFailure,
                        path,
                        "le fichier n'est pas sous le répertoire à convertir"@,
                    )
                } else {
                    let dir = mirrored_dir(path, root, out);
                    let known = with_dir(existing, dir);
                    let made = seq![StepText::EnsureDir { dir }];
                    match decide_file(known, path, dir, mode) {
                        FileDecision::Refuse { kind } => extend(
                            made,
                            stopped(kind, path, refusal_detail(kind)),
                        ),
                        FileDecision::PassOver => extend(
                            made,
                            walk_plan(known, rest, root, out, mode),
                        ),
                        FileDecision::Write { format, target } => extend(
                            made.push(StepText::Convert { source: path, format, target }),
                            walk_plan(known.insert(target), rest, root, out, mode),
                        ),
                    }
                }
            },
        }
    }
}

/// The plan for an input tree: the output root is made first, then what the walk
/// found follows.
pub open spec fn tree_plan(
    existing: Set<PathText>,
    items: Seq<WalkItemText>,
    root: PathText,
    out: PathText,
    mode: OverwriteMode,
) -> PlanText {
    extend(
        seq![StepText::EnsureDir { dir: out }],
        walk_plan(with_dir(existing, out), items, root, out, mode),
    )
}

/// What is decided for one source file, with the step or the error that results.
pub enum FileVerdict {
    Refuse { error: ConversionError },
    PassOver,
    Write { step: Step },
}

/// Whether a verdict states the given decision for the given source.
pub open spec fn verdict_states(verdict: FileVerdict, decision: FileDecision, source: PathText) -> bool {
    match verdict {
        FileVerdict::Refuse { error } => decision matches FileDecision::Refuse { kind } && error@ == (
        Fault { kind, path: source, detail: refusal_detail(kind) }),
        FileVerdict::PassOver => decision is PassOver,
        FileVerdict::Write { step } => decision matches FileDecision::Write { format, target }
            && step@ == (StepText::Convert { source, format, target }),
    }
}

/// Decides what to do with one source whose output belongs in `dir`.
pub fn plan_file(source: &FilePath, dir: &FilePath, mode: &OverwriteMode, existing: &Snapshot) -> (res:
    FileVerdict)
    ensures
        verdict_states(res, decide_file(existing@, source@, dir@, *mode), source@),
{
    let stem = match source.file_stem() {
        Some(stem) => stem,
        None => {
            return FileVerdict::Refuse {
                error: ConversionError::new(
                    ConversionErrorKind::InvalidFileName,
                    source,
                    "le chemin ne se termine pas par un nom de fichier",
                ),
            };
        },
    };
    let format = match source.format() {
        Some(format) => format,
        None => {
            return FileVerdict::Refuse {
                error: ConversionError::new(
                    ConversionErrorKind::UnsupportedExtension,
                    source,
                    "seuls les fichiers png, jpg, jpeg et bmp peuvent être convertis",
                ),
            };
        },
    };
    match resolve(dir, stem.as_str(), mode, existing) {
        None => FileVerdict::PassOver,
        Some(target) => FileVerdict::Write {
            step: Step::Convert { source: source.clone(), format, target },
        },
    }
}

/// Carrying out `first` and then the steps of a plan that itself begins with `second`
/// is carrying out both lists on end and then the rest.
pub proof fn lemma_extend_twice(first: Seq<StepText>, second: Seq<StepText>, rest: PlanText)
    ensures
        extend(first, extend(second, rest)) == extend(first + second, rest),
{
    assert(first + (second + rest.steps) =~= (first + second) + rest.steps);
}

/// Plans the conversion of one file into `output_dir`, given what exists.
///
/// A source without a file name or without a supported extension is refused and the
/// plan holds no step. Otherwise the plan makes `output_dir` and then converts the
/// source to the name that `overwrite_mode` resolves, or stops there where the policy
/// passes the source over.
pub fn convert_single_image(
    input_path: &FilePath,
    output_dir: &FilePath,
    overwrite_mode: &OverwriteMode,
    existing: &Snapshot,
) -> (plan: Plan)
    ensures
        plan@ == single_plan(existing@, input_path@, output_dir@, *overwrite_mode),
{
    let mut steps: Vec<Step> = Vec::new();
    match plan_file(input_path, output_dir, overwrite_mode, existing) {
        FileVerdict::Refuse { error } => {
            let plan = Plan { steps, verdict: Err(error) };
            assert(plan@.steps =~= Seq::empty());
            plan
        },
        FileVerdict::PassOver => {
            steps.push(Step::EnsureDir { dir: output_dir.clone() });
            let plan = Plan { steps, verdict: Ok(()) };
            assert(plan@.steps =~= seq![StepText::EnsureDir { dir: output_dir@ }] + finished().steps);
            plan
        },
        FileVerdict::Write { step } => {
            let ghost convert = step@;
            steps.push(Step::EnsureDir { dir: output_dir.clone() });
            steps.push(step);
            let plan = Plan { steps, verdict: Ok(()) };
            assert(plan@.steps =~= seq![StepText::EnsureDir { dir: output_dir@ }, convert]
                + finished().steps);
            plan
        },
    }
}

/// Plans the conversion of several files into `output_dir`, given what exists.
///
/// The plan makes `output_dir` once and then treats each source in the order given,
/// as a single file is treated. The first source that is refused ends the plan with
/// its error as the verdict.
pub fn convert_multiple_files(
    input_paths: &[FilePath],
    output_dir: &FilePath,
    overwrite_mode: &OverwriteMode,
    existing: &Snapshot,
) -> (plan: Plan)
    ensures
        plan@ == many_plan(existing@, path_texts(input_paths@), output_dir@, *overwrite_mode),
{
    let ghost sources = path_texts(input_paths@);
    let ghost dir = output_dir@;
    let ghost mode = *overwrite_mode;
    let mut known = existing.clone();
    let mut steps: Vec<Step> = Vec::new();
    steps.push(Step::EnsureDir { dir: output_dir.clone() });
    assert(step_texts(steps@) =~= seq![StepText::EnsureDir { dir }]);
    assert(sources.skip(0) =~= sources);
    let mut i: usize = 0;
    while i < input_paths.len()
        invariant
            i <= input_paths.len(),
            sources == path_texts(input_paths@),
            dir == output_dir@,
            mode == *overwrite_mode,
            many_plan(existing@, sources, dir, mode) == extend(
                step_texts(steps@),
                files_plan(known@, sources.skip(i as int), dir, mode),
            ),
        decreases input_paths.len() - i,
    {
        let ghost done = step_texts(steps@);
        let ghost left = sources.skip(i as int);
        assert(left[0] == input_paths@[i as int]@);
        assert(left.skip(1) =~= sources.skip(i + 1));
        match plan_file(&input_paths[i], output_dir, overwrite_mode, &known) {
            FileVerdict::Refuse { error } => {
                let plan = Plan { steps, verdict: Err(error) };
                assert(plan@.steps =~= done + Seq::<StepText>::empty());
                return plan;
            },
            FileVerdict::PassOver => {},
            FileVerdict::Write { step } => {
                let ghost convert = step@;
                match &step {
                    Step::Convert { target, .. } => {
                        known.record(target.clone());
                    },
                    Step::EnsureDir { .. } => {},
                }
                steps.push(step);
                assert(step_texts(steps@) =~= done + seq![convert]);
                proof {
                    lemma_extend_twice(
                        done,
                        seq![convert],
                        files_plan(known@, sources.skip(i + 1), dir, mode),
                    );
                }
            },
        }
        i += 1;
    }
    let plan = Plan { steps, verdict: Ok(()) };
    assert(plan@.steps =~= step_texts(plan.steps@) + finished().steps);
    plan
}

/// Plans the conversion of a directory tree, given what a walk of it found and what
/// exists on the output side.
///
/// `walk` lists what lies under the directory being walked, in the order in which it
/// was found; `input_dir` is the root that relative paths are taken from. The plan
/// makes `output_base_dir`, then for each regular file with a supported extension
/// makes the directory that mirrors the file's own under `output_base_dir` and
/// converts the file into it. Other entries are passed by without a step. An
/// unreadable entry, or a file that is not under `input_dir`, ends the plan with its
/// error as the verdict.
pub fn convert_images_in_directory(
    input_dir: &FilePath,
    output_base_dir: &FilePath,
    walk: &[WalkItem],
    overwrite_mode: &OverwriteMode,
    existing: &Snapshot,
) -> (plan: Plan)
    ensures
        plan@ == tree_plan(
            existing@,
            walk_texts(walk@),
            input_dir@,
            output_base_dir@,
            *overwrite_mode,
        ),
{
    let ghost items = walk_texts(walk@);
    let ghost root = input_dir@;
    let ghost out = output_base_dir@;
    let ghost mode = *overwrite_mode;
    let mut known = existing.clone();
    known.record_dir(output_base_dir);
    let mut steps: Vec<Step> = Vec::new();
    steps.push(Step::EnsureDir { dir: output_base_dir.clone() });
    assert(step_texts(steps@) =~= seq![StepText::EnsureDir { dir: out }]);
    assert(items.skip(0) =~= items);
    let mut i: usize = 0;
    while i < walk.len()
        invariant
            i <= walk.len(),
            items == walk_texts(walk@),
            root == input_dir@,
            out == output_base_dir@,
            mode == *overwrite_mode,
            tree_plan(existing@, items, root, out, mode) == extend(
                step_texts(steps@),
                walk_plan(known@, items.skip(i as int), root, out, mode),
            ),
        decreases walk.len() - i,
    {
        let ghost done = step_texts(steps@);
        let ghost left = items.skip(i as int);
        assert(left[0] == walk@[i as int]@);
        assert(left.skip(1) =~= items.skip(i + 1));
        match &walk[i] {
            WalkItem::Unreadable { path, detail } => {
                let error = ConversionError::new(
                    ConversionErrorKind::DirectoryReadFailure,
                    path,
                    detail.as_str(),
                );
                let plan = Plan { steps, verdict: Err(error) };
                assert(plan@.steps =~= done + Seq::<StepText>::empty());
                return plan;
            },
            WalkItem::Entry { path, is_file } => {
                if *is_file && path.format().is_some() {
                    let relative = match path.strip_prefix(input_dir) {
                        Some(relative) => relative,
                        None => {
                            let error = ConversionError::new(
                                ConversionErrorKind::RelativePathFailure,
                                path,
                                "le fichier n'est pas sous le répertoire à convertir",
                            );
                            let plan = Plan { steps, verdict: Err(error) };
                            assert(plan@.steps =~= done + Seq::<StepText>::empty());
                            return plan;
                        },
                    };
                    let below = match relative.parent() {
                        Some(below) => below,
                        None => relative,
                    };
                    let target_dir = output_base_dir.join(&below);
                    assert(target_dir@ == mirrored_dir(path@, root, out));
                    known.record_dir(&target_dir);
                    let ghost made = StepText::EnsureDir { dir: target_dir@ };
                    let verdict = plan_file(path, &target_dir, overwrite_mode, &known);
                    steps.push(Step::EnsureDir { dir: target_dir });
                    assert(step_texts(steps@) =~= done + seq![made]);
                    match verdict {
                        FileVerdict::Refuse { error } => {
                            let plan = Plan { steps, verdict: Err(error) };
                            assert(plan@.steps =~= done + (seq![made] + Seq::<StepText>::empty()));
                            return plan;
                        },
                        FileVerdict::PassOver => {
                            proof {
                                lemma_extend_twice(
                                    done,
                                    seq![made],
                                    walk_plan(known@, items.skip(i + 1), root, out, mode),
                                );
                            }
                        },
                        FileVerdict::Write { step } => {
                            let ghost convert = step@;
                            match &step {
                                Step::Convert { target, .. } => {
                                    known.record(target.clone());
                                },
                                Step::EnsureDir { .. } => {},
                            }
                            steps.push(step);
                            assert(step_texts(steps@) =~= done + seq![made].push(convert));
                            proof {
                                lemma_extend_twice(
                                    done,
                                    seq![made].push(convert),
                                    walk_plan(known@, items.skip(i + 1), root, out, mode),
                                );
                            }
                        },
                    }
                }
            },
        }
        i += 1;
    }
    let plan = Plan { steps, verdict: Ok(()) };
    assert(plan@.steps =~= step_texts(plan.steps@) + finished().steps);
    plan
}

} // verus!

//! What a run is asked to convert: one file, one directory tree, or a list of files.

use crate::name::{decimal, decimal_text};
use crate::path::{file_name_of, text_of, FilePath, PathText};
use crate::plan::{convert_images_in_directory, convert_multiple_files, convert_single_image};
use crate::plan::{many_plan, single_plan, tree_plan, walk_texts, Plan, PlanText, WalkItem, WalkItemText};
use crate::policy::OverwriteMode;
use crate::snapshot::{path_texts, Snapshot};
use vstd::prelude::*;
use vstd::string::StringExecFns;

verus! {

/// The input of a run.
#[derive(Debug, PartialEq, Eq)]
pub enum InputType {
    /// One image file.
    SingleFile(FilePath),
    /// A directory, converted with everything below it.
    Directory(FilePath),
    /// Several image files that need not lie together.
    MultipleFiles(Vec<FilePath>),
}

/// An input as a value of specifications.
pub enum InputText {
    SingleFile(PathText),
    Directory(PathText),
    MultipleFiles(Seq<PathText>),
}

impl View for InputType {
    type V = InputText;

    open spec fn view(&self) -> InputText {
        match self {
            InputType::SingleFile(path) => InputText::SingleFile(path@),
            InputType::Directory(path) => InputText::Directory(path@),
            InputType::MultipleFiles(paths) => InputText::MultipleFiles(path_texts(paths@)),
        }
    }
}

impl Clone for InputType {
    fn clone(&self) -> (res: Self)
        ensures
            res@ == self@,
    {
        match self {
            InputType::SingleFile(path) => InputType::SingleFile(path.clone()),
            InputType::Directory(path) => InputType::Directory(path.clone()),
            InputType::MultipleFiles(paths) => {
                let mut copies: Vec<FilePath> = Vec::new();
                let mut i: usize = 0;
                while i < paths.len()
                    invariant
                        i <= paths.len(),
                        copies.len() == i,
                        forall|j: int| 0 <= j < i ==> copies@[j]@ == paths@[j]@,
                    decreases paths.len() - i,
                {
                    copies.push(paths[i].clone());
                    i += 1;
                }
                assert(path_texts(copies@) =~= path_texts(paths@));
                InputType::MultipleFiles(copies)
            },
        }
    }
}

/// What was found at a path handed over by the user.
#[derive(Debug, PartialEq, Eq, Clone, Copy, Structural)]
pub enum EntryKind {
    File,
    Directory,
    Other,
}

/// The file name of a path, or the empty text for a path that has none.
pub open spec fn name_or_empty(path: PathText) -> Seq<char> {
    match file_name_of(path) {
        Some(name) => name,
        None => Seq::empty(),
    }
}

/// The file names of a list of paths with a comma and a space between them.
pub open spec fn names_listed(paths: Seq<PathText>) -> Seq<char>
    decreases paths.len(),
{
    if paths.len() == 0 {
        Seq::empty()
    } else if paths.len() == 1 {
        name_or_empty(paths[0])
    } else {
        names_listed(paths.drop_last()) + seq![',', ' '] + name_or_empty(paths.last())
    }
}

/// What is shown in full for an input: the path of a file or directory, the file
/// names of a list.
pub open spec fn display_text(input: InputText) -> Seq<char> {
    match input {
        InputText::SingleFile(path) => text_of(path),
        InputText::Directory(path) => text_of(path),
        InputText::MultipleFiles(paths) => names_listed(paths),
    }
}

/// What is shown in short for an input: its kind and its name, or how many files.
pub open spec fn summary_text(input: InputText) -> Seq<char> {
    match input {
        InputText::SingleFile(path) => "Fichier: "@ + name_or_empty(path),
        InputText::Directory(path) => "Répertoire: "@ + name_or_empty(path),
        InputText::MultipleFiles(paths) => decimal(paths.len()) + " fichiers"@,
    }
}

/// The input that paths handed over together stand for: nothing for none; a file or
/// a directory for one path, by what was found there; the list for several.
pub open spec fn selection_of(paths: Seq<PathText>, sole: EntryKind) -> Option<InputText> {
    if paths.len() == 1 {
        match sole {
            EntryKind::File => Some(InputText::SingleFile(paths[0])),
            EntryKind::Directory => Some(InputText::Directory(paths[0])),
            EntryKind::Other => None,
        }
    } else if paths.len() > 1 {
        Some(InputText::MultipleFiles(paths))
    } else {
        None
    }
}

/// Where the output of a directory goes: into a directory of the same name under the
/// output location, or into the output location itself where the directory has no
/// name.
pub open spec fn tree_output(dir: PathText, output_dir: PathText) -> PathText {
    match file_name_of(dir) {
        Some(name) => output_dir.push(name),
        None => output_dir,
    }
}

/// The plan of a run: that of the one file, of the list, or of the tree, by the kind
/// of input. `walk` is what lies under the directory of a directory input and plays
/// no part for the others.
pub open spec fn run_plan(
    existing: Set<PathText>,
    input: InputText,
    output_dir: PathText,
    walk: Seq<WalkItemText>,
    mode: OverwriteMode,
) -> PlanText {
    match input {
        InputText::SingleFile(path) => single_plan(existing, path, output_dir, mode),
        InputText::MultipleFiles(paths) => many_plan(existing, paths, output_dir, mode),
        InputText::Directory(dir) => tree_plan(existing, walk, dir, tree_output(dir, output_dir), mode),
    }
}

/// The view of an optional input.
pub open spec fn selection_text(input: Option<InputType>) -> Option<InputText> {
    match input {
        Some(input) => Some(input@),
        None => None,
    }
}

/// The view of an optional path.
pub open spec fn optional_path_text(path: Option<&FilePath>) -> Option<PathText> {
    match path {
        Some(path) => Some(path@),
        None => None,
    }
}

/// The one path that the output location is checked against before a run, where the
/// input has one.
pub open spec fn validation_path(input: InputText) -> Option<PathText> {
    match input {
        InputText::SingleFile(path) => Some(path),
        InputText::Directory(path) => Some(path),
        InputText::MultipleFiles(paths) => None,
    }
}

impl InputType {
    /// The input that paths handed over together stand for. `sole` tells what was
    /// found at the path where there is exactly one.
    pub fn from_dropped(paths: Vec<FilePath>, sole: EntryKind) -> (res: Option<InputType>)
        ensures
            selection_text(res) == selection_of(path_texts(paths@), sole),
    {
        let mut paths = paths;
        if paths.len() == 1 {
            match sole {
                EntryKind::Other => None,
                EntryKind::File => match paths.pop() {
                    Some(path) => Some(InputType::SingleFile(path)),
                    None => None,
                },
                EntryKind::Directory => match paths.pop() {
                    Some(path) => Some(InputType::Directory(path)),
                    None => None,
                },
            }
        } else if paths.len() > 1 {
            Some(InputType::MultipleFiles(paths))
        } else {
            None
        }
    }

    /// The path to check the output location against before a run. A list of files
    /// has no single such path and is not checked.
    pub fn get_path_for_validation(&self) -> (res: Option<&FilePath>)
        ensures
            optional_path_text(res) == validation_path(self@),
    {
        match self {
            InputType::SingleFile(path) => Some(path),
            InputType::Directory(path) => Some(path),
            InputType::MultipleFiles(_) => None,
        }
    }

    /// The input in full: the path of a file or directory, the file names of a list.
    pub fn get_display_path(&self) -> (res: String)
        ensures
            res@ == display_text(self@),
    {
        match self {
            InputType::SingleFile(path) => path.to_text(),
            InputType::Directory(path) => path.to_text(),
            InputType::MultipleFiles(paths) => {
                let mut out = String::new();
                let mut i: usize = 0;
                while i < paths.len()
                    invariant
                        i <= paths.len(),
                        out@ == names_listed(path_texts(paths@).subrange(0, i as int)),
                    decreases paths.len() - i,
                {
                    proof {
                        reveal_strlit(", ");
                        assert(", "@ =~= seq![',', ' ']);
                        let before = path_texts(paths@).subrange(0, i as int);
                        let after = path_texts(paths@).subrange(0, i + 1);
                        assert(after.drop_last() =~= before);
                        assert(after.last() == paths@[i as int]@);
                    }
                    if i > 0 {
                        out.append(", ");
                    }
                    match paths[i].file_name() {
                        Some(name) => {
                            out.append(name.as_str());
                        },
                        None => {},
                    }
                    proof {
                        let after = path_texts(paths@).subrange(0, i + 1);
                        if i == 0 {
                            assert(out@ =~= name_or_empty(after[0]));
                        } else {
                            assert(out@ =~= names_listed(after.drop_last()) + seq![',', ' ']
                                + name_or_empty(after.last()));
                        }
                    }
                    i += 1;
                }
                assert(path_texts(paths@).subrange(0, i as int) =~= path_texts(paths@));
                out
            },
        }
    }

    /// The input in short: its kind and its name, or how many files.
    pub fn summary(&self) -> (res: String)
        ensures
            res@ == summary_text(self@),
    {
        match self {
            InputType::SingleFile(path) => {
                let mut out = String::from_str("Fichier: ");
                match path.file_name() {
                    Some(name) => {
                        out.append(name.as_str());
                    },
                    None => {
                        assert(out@ =~= "Fichier: "@ + Seq::<char>::empty());
                    },
                }
                out
            },
            InputType::Directory(path) => {
                let mut out = String::from_str("Répertoire: ");
                match path.file_name() {
                    Some(name) => {
                        out.append(name.as_str());
                    },
                    None => {
                        assert(out@ =~= "Répertoire: "@ + Seq::<char>::empty());
                    },
                }
                out
            },
            InputType::MultipleFiles(paths) => {
                let mut out = decimal_text(paths.len() as u64);
                out.append(" fichiers");
                out
            },
        }
    }

    /// Plans the run for this input, given what exists on the output side and, for a
    /// directory, what a walk of it found.
    pub fn plan(
        &self,
        output_dir: &FilePath,
        walk: &[WalkItem],
        overwrite_mode: &OverwriteMode,
        existing: &Snapshot,
    ) -> (res: Plan)
        ensures
            res@ == run_plan(existing@, self@, output_dir@, walk_texts(walk@), *overwrite_mode),
    {
        match self {
            InputType::SingleFile(path) => convert_single_image(
                path,
                output_dir,
                overwrite_mode,
                existing,
            ),
            InputType::MultipleFiles(paths) => convert_multiple_files(
                paths.as_slice(),
                output_dir,
                overwrite_mode,
                existing,
            ),
            InputType::Directory(dir) => {
                let out = match dir.file_name() {
                    Some(name) => output_dir.child(name.as_str()),
                    None => output_dir.clone(),
                };
                convert_images_in_directory(dir, &out, walk, overwrite_mode, existing)
            },
        }
    }
}

} // verus!

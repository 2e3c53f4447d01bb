//! Why a path was refused or a conversion failed.
//!
//! Every error names the path at fault and carries a description of the cause.

use crate::path::{text_of, FilePath, PathText};
use vstd::prelude::*;
use vstd::string::StringExecFns;

verus! {

/// The ways in which a pair of input and output locations is refused.
#[derive(Debug, PartialEq, Eq, Clone, Copy, Structural)]
pub enum ValidationErrorKind {
    /// A location does not exist or cannot be resolved.
    PathResolution,
    /// The output location is the input location.
    SameDirectory,
    /// The output location lies inside the input location.
    NestedDirectory,
}

/// The ways in which a conversion fails.
#[derive(Debug, PartialEq, Eq, Clone, Copy, Structural)]
pub enum ConversionErrorKind {
    /// The source has none of the extensions that can be converted.
    UnsupportedExtension,
    /// The source path has no file name to derive an output name from.
    InvalidFileName,
    /// A destination directory could not be created.
    DirectoryCreationFailure,
    /// A directory of the input tree could not be read.
    DirectoryReadFailure,
    /// A file found in the input tree does not lie under the tree's root.
    RelativePathFailure,
    /// The source could not be opened or decoded.
    DecodeFailure,
    /// The output could not be encoded or written.
    EncodeFailure,
}

/// An error as a value of specifications.
pub struct Fault<K> {
    pub kind: K,
    pub path: PathText,
    pub detail: Seq<char>,
}

/// A refusal of a pair of input and output locations.
#[derive(Debug, PartialEq, Eq)]
pub struct ValidationError {
    pub kind: ValidationErrorKind,
    pub path: FilePath,
    pub detail: String,
}

/// A failed conversion.
#[derive(Debug, PartialEq, Eq)]
pub struct ConversionError {
    pub kind: ConversionErrorKind,
    pub path: FilePath,
    pub detail: String,
}

/// How a whole run ends: in success, or with the first failure.
pub type ConversionOutcome = Result<(), ConversionError>;

/// The outcome of a run as a value of specifications.
pub type OutcomeText = Result<(), Fault<ConversionErrorKind>>;

impl View for ValidationError {
    type V = Fault<ValidationErrorKind>;

    open spec fn view(&self) -> Fault<ValidationErrorKind> {
        Fault { kind: self.kind, path: self.path@, detail: self.detail@ }
    }
}

impl View for ConversionError {
    type V = Fault<ConversionErrorKind>;

    open spec fn view(&self) -> Fault<ConversionErrorKind> {
        Fault { kind: self.kind, path: self.path@, detail: self.detail@ }
    }
}

impl Clone for ConversionError {
    fn clone(&self) -> (res: Self)
        ensures
            res@ == self@,
    {
        ConversionError { kind: self.kind, path: self.path.clone(), detail: self.detail.clone() }
    }
}

/// The outcome of a run as a value of specifications.
pub open spec fn outcome_text(outcome: ConversionOutcome) -> OutcomeText {
    match outcome {
        Ok(()) => Ok(()),
        Err(e) => Err(e@),
    }
}

/// Copies an outcome.
pub fn clone_outcome(outcome: &ConversionOutcome) -> (res: ConversionOutcome)
    ensures
        outcome_text(res) == outcome_text(*outcome),
{
    match outcome {
        Ok(()) => Ok(()),
        Err(e) => Err(e.clone()),
    }
}

/// What a message says first for each kind of refusal.
pub open spec fn validation_label(kind: ValidationErrorKind) -> Seq<char> {
    match kind {
        ValidationErrorKind::PathResolution => "Impossible de canoniser le chemin "@,
        ValidationErrorKind::SameDirectory => "Répertoire de sortie refusé "@,
        ValidationErrorKind::NestedDirectory => "Répertoire de sortie refusé "@,
    }
}

/// What a message says first for each kind of failure.
pub open spec fn conversion_label(kind: ConversionErrorKind) -> Seq<char> {
    match kind {
        ConversionErrorKind::UnsupportedExtension => "Extension non prise en charge pour "@,
        ConversionErrorKind::InvalidFileName => "Nom de fichier invalide "@,
        ConversionErrorKind::DirectoryCreationFailure => "Impossible de créer le répertoire de sortie "@,
        ConversionErrorKind::DirectoryReadFailure => "Erreur lors de la lecture du répertoire "@,
        ConversionErrorKind::RelativePathFailure => "Erreur de chemin relatif "@,
        ConversionErrorKind::DecodeFailure => "Impossible de décoder l'image "@,
        ConversionErrorKind::EncodeFailure => "Impossible d'écrire l'image WebP dans "@,
    }
}

/// A message: what went wrong, the path, and after a colon the cause.
pub open spec fn message_text(label: Seq<char>, path: PathText, detail: Seq<char>) -> Seq<char> {
    label + text_of(path) + ": "@ + detail
}

/// Puts a message together.
fn compose(label: &str, path: &FilePath, detail: &String) -> (res: String)
    ensures
        res@ == message_text(label@, path@, detail@),
{
    let mut out = String::from_str(label);
    let text = path.to_text();
    out.append(text.as_str());
    out.append(": ");
    out.append(detail.as_str());
    out
}

impl ValidationError {
    /// The refusal of `path` for the given reason.
    pub fn new(kind: ValidationErrorKind, path: &FilePath, detail: &str) -> (res: ValidationError)
        ensures
            res@ == (Fault { kind, path: path@, detail: detail@ }),
    {
        ValidationError { kind, path: path.clone(), detail: String::from_str(detail) }
    }

    /// The refusal as a sentence for a person to read.
    pub fn message(&self) -> (res: String)
        ensures
            res@ == message_text(validation_label(self.kind), self.path@, self.detail@),
    {
        let label = match self.kind {
            ValidationErrorKind::PathResolution => "Impossible de canoniser le chemin ",
            ValidationErrorKind::SameDirectory => "Répertoire de sortie refusé ",
            ValidationErrorKind::NestedDirectory => "Répertoire de sortie refusé ",
        };
        compose(label, &self.path, &self.detail)
    }
}

impl ConversionError {
    /// The failure of a conversion at `path` for the given reason.
    pub fn new(kind: ConversionErrorKind, path: &FilePath, detail: &str) -> (res: ConversionError)
        ensures
            res@ == (Fault { kind, path: path@, detail: detail@ }),
    {
        ConversionError { kind, path: path.clone(), detail: String::from_str(detail) }
    }

    /// The failure as a sentence for a person to read.
    pub fn message(&self) -> (res: String)
        ensures
            res@ == message_text(conversion_label(self.kind), self.path@, self.detail@),
    {
        let label = match self.kind {
            ConversionErrorKind::UnsupportedExtension => "Extension non prise en charge pour ",
            ConversionErrorKind::InvalidFileName => "Nom de fichier invalide ",
            ConversionErrorKind::DirectoryCreationFailure => "Impossible de créer le répertoire de sortie ",
            ConversionErrorKind::DirectoryReadFailure => "Erreur lors de la lecture du répertoire ",
            ConversionErrorKind::RelativePathFailure => "Erreur de chemin relatif ",
            ConversionErrorKind::DecodeFailure => "Impossible de décoder l'image ",
            ConversionErrorKind::EncodeFailure => "Impossible d'écrire l'image WebP dans ",
        };
        compose(label, &self.path, &self.detail)
    }
}

} // verus!

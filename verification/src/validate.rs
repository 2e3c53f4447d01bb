//! The check made before a run starts: the output must not be the input, nor lie
//! inside it.
//!
//! A run that wrote into the tree it reads would find its own output and never end.
//! The check compares canonical paths, which the caller looks up on disk; a location
//! that cannot be looked up is refused too.

use crate::error::{Fault, ValidationError, ValidationErrorKind};
use crate::path::{has_prefix, FilePath, PathText};
use vstd::prelude::*;

verus! {

/// What looking a location up on disk gave.
#[derive(Debug, PartialEq, Eq)]
pub enum Lookup {
    /// The location exists, and this is its canonical absolute path.
    Resolved { canonical: FilePath },
    /// The location at `path` does not exist or could not be resolved.
    Unresolved { path: FilePath, detail: String },
}

/// A lookup as a value of specifications.
pub enum LookupText {
    Resolved { canonical: PathText },
    Unresolved { path: PathText, detail: Seq<char> },
}

impl View for Lookup {
    type V = LookupText;

    open spec fn view(&self) -> LookupText {
        match self {
            Lookup::Resolved { canonical } => LookupText::Resolved { canonical: canonical@ },
            Lookup::Unresolved { path, detail } => LookupText::Unresolved {
                path: path@,
                detail: detail@,
            },
        }
    }
}

/// Whether an output location may be used with an input location, both canonical:
/// the output is neither the input nor anywhere below it.
pub open spec fn locations_compatible(input: PathText, output: PathText) -> bool {
    !has_prefix(output, input)
}

/// The verdict on a pair of lookups. An unresolved input is reported before an
/// unresolved output, and an output equal to the input before one inside it.
pub open spec fn validation_of(input: LookupText, output: LookupText) -> Result<
    (),
    Fault<ValidationErrorKind>,
> {
    match input {
        LookupText::Unresolved { path, detail } => Err(
            Fault { kind: ValidationErrorKind::PathResolution, path, detail },
        ),
        LookupText::Resolved { canonical: source } => match output {
            LookupText::Unresolved { path, detail } => Err(
                Fault { kind: ValidationErrorKind::PathResolution, path, detail },
            ),
            LookupText::Resolved { canonical: target } => if target == source {
                Err(
                    Fault {
                        kind: ValidationErrorKind::SameDirectory,
                        path: target,
                        detail: "Le répertoire de sortie ne peut pas être le même que le répertoire d'entrée."@,
                    },
                )
            } else if has_prefix(target, source) {
                Err(
                    Fault {
                        kind: ValidationErrorKind::NestedDirectory,
                        path: target,
                        detail: "Le répertoire de sortie ne peut pas être un sous-répertoire du répertoire d'entrée."@,
                    },
                )
            } else {
                Ok(())
            },
        },
    }
}

/// The verdict of a check as a value of specifications.
pub open spec fn validation_text(res: Result<(), ValidationError>) -> Result<
    (),
    Fault<ValidationErrorKind>,
> {
    match res {
        Ok(()) => Ok(()),
        Err(e) => Err(e@),
    }
}

/// Checks that the output location can be used with the input location.
pub fn validate_paths(input_path: &Lookup, output_path: &Lookup) -> (res: Result<(), ValidationError>)
    ensures
        validation_text(res) == validation_of(input_path@, output_path@),
{
    let source = match input_path {
        Lookup::Unresolved { path, detail } => {
            return Err(
                ValidationError::new(ValidationErrorKind::PathResolution, path, detail.as_str()),
            );
        },
        Lookup::Resolved { canonical } => canonical,
    };
    let target = match output_path {
        Lookup::Unresolved { path, detail } => {
            return Err(
                ValidationError::new(ValidationErrorKind::PathResolution, path, detail.as_str()),
            );
        },
        Lookup::Resolved { canonical } => canonical,
    };
    if target.same_as(source) {
        Err(
            ValidationError::new(
                ValidationErrorKind::SameDirectory,
                target,
                "Le répertoire de sortie ne peut pas être le même que le répertoire d'entrée.",
            ),
        )
    } else if target.starts_with(source) {
        Err(
            ValidationError::new(
                ValidationErrorKind::NestedDirectory,
                target,
                "Le répertoire de sortie ne peut pas être un sous-répertoire du répertoire d'entrée.",
            ),
        )
    } else {
        Ok(())
    }
}

/// A location is refused as its own output.
pub proof fn lemma_same_location_refused(dir: PathText)
    ensures
        validation_of(
            LookupText::Resolved { canonical: dir },
            LookupText::Resolved { canonical: dir },
        ) matches Err(fault) && fault.kind == ValidationErrorKind::SameDirectory,
{
}

/// A location below the input is refused as output, however deep it lies.
pub proof fn lemma_nested_location_refused(dir: PathText, below: PathText)
    requires
        below.len() > 0,
    ensures
        validation_of(
            LookupText::Resolved { canonical: dir },
            LookupText::Resolved { canonical: dir + below },
        ) matches Err(fault) && fault.kind == ValidationErrorKind::NestedDirectory,
{
    assert((dir + below).subrange(0, dir.len() as int) =~= dir);
    assert((dir + below).len() != dir.len());
}

/// Two resolved locations are accepted exactly when the output is neither the input
/// nor below it. In particular the output may lie above the input, or beside it.
pub proof fn lemma_accepted_iff_compatible(input: PathText, output: PathText)
    ensures
        validation_of(
            LookupText::Resolved { canonical: input },
            LookupText::Resolved { canonical: output },
        ) is Ok <==> locations_compatible(input, output),
{
    if output == input {
        assert(output.subrange(0, input.len() as int) =~= input);
    }
}

/// Two locations that part ways at some component are accepted: neither contains the
/// other.
pub proof fn lemma_unrelated_accepted(input: PathText, output: PathText, at: int)
    requires
        0 <= at < input.len(),
        0 <= at < output.len(),
        input[at] != output[at],
    ensures
        validation_of(
            LookupText::Resolved { canonical: input },
            LookupText::Resolved { canonical: output },
        ) is Ok,
{
    if has_prefix(output, input) {
        assert(output.subrange(0, input.len() as int)[at] == output[at]);
    }
}

} // verus!

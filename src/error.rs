//! Failures of a run, one variant per stage that can stop it.

use vstd::prelude::*;

verus! {

/// Why a run stopped. Every variant aborts the run; none leaves partial output
/// in rewrite mode.
#[derive(Debug, PartialEq, Eq)]
pub enum IndexError {
    /// The root file could not be read; carries the reader's message.
    FileUnreadable(String),
    /// No line of the root file holds an `@index(...)` directive.
    DeclarationNotFound,
    /// A directive line was found but its body could not be captured.
    MalformedDeclaration,
    /// The declaration lists more exclusion patterns than allowed; carries the count.
    TooManyExclusions(usize),
    /// The templated pipeline found no backtick-delimited template in the body.
    NoExportTemplate,
    /// The template holds no `${...}` placeholder.
    MalformedTemplate,
    /// An inclusion pattern is not a valid glob; carries the pattern.
    InvalidPattern(String),
    /// A candidate could not be read during the walk; carries its message.
    ResolutionError(String),
}

impl IndexError {
    /// The pipeline stage that raised this error.
    pub fn stage(&self) -> (r: &'static str) {
        match self {
            IndexError::FileUnreadable(_) => "reading the root file",
            IndexError::DeclarationNotFound => "locating the declaration",
            IndexError::MalformedDeclaration => "locating the declaration",
            IndexError::TooManyExclusions(_) => "classifying patterns",
            IndexError::NoExportTemplate => "extracting the export template",
            IndexError::MalformedTemplate => "extracting the export template",
            IndexError::InvalidPattern(_) => "resolving files",
            IndexError::ResolutionError(_) => "resolving files",
        }
    }
}

} // verus!

//! Results of the document's consistency checks.

use vstd::prelude::*;

verus! {

/// How serious a finding is.
#[derive(PartialEq, Eq, Structural, Clone, Copy, Debug)]
pub enum Severity {
    Error,
    Warning,
    Info,
}

/// One finding of the consistency checks.
#[derive(Clone, Debug)]
pub struct ValidationResult {
    /// Pointer to the place in the document.
    pub location: String,
    /// What is wrong, for a reader.
    pub message: String,
    pub severity: Severity,
    /// The identifier of the entity concerned, if any.
    pub identifier: Option<String>,
}

/// All findings, and whether the document is valid.
#[derive(Debug)]
pub struct Report {
    pub is_valid: bool,
    pub errors: Vec<ValidationResult>,
}

} // verus!

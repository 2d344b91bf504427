//! Deciding an export: the artifact of a document is copied to a place that
//! the user chose, and only where there is an artifact to copy.

use vstd::prelude::*;
use vstd::string::StringExecFns;
use crate::workspace::{artifact_file_name, artifact_name};

verus! {

/// Why an export failed.
#[derive(Clone, Debug, PartialEq, Eq)]
pub enum ExportError {
    /// The document has no artifact yet: it must be compiled first.
    NotFound,
    /// The artifact exists but could not be copied.
    CopyFailed(String),
}

/// What `ExportError::message` says.
pub open spec fn export_error_text(e: ExportError) -> Seq<char> {
    match e {
        ExportError::NotFound => "PDF not found. Please compile first."@,
        ExportError::CopyFailed(detail) => "Failed to export PDF: "@ + detail@,
    }
}

impl ExportError {
    /// The error in words, for the user.
    pub fn message(&self) -> (text: String)
        ensures
            text@ == export_error_text(*self),
    {
        match self {
            ExportError::NotFound => String::from_str("PDF not found. Please compile first."),
            ExportError::CopyFailed(detail) => String::from_str("Failed to export PDF: ").concat(
                detail.as_str(),
            ),
        }
    }
}

/// What to do about a request to export.
#[derive(Clone, Debug, PartialEq, Eq)]
pub enum ExportAction {
    /// Copy this file of the workspace to the destination.
    Copy(String),
    /// Copy nothing and hand this error to the caller.
    Refuse(ExportError),
}

/// Decides a request to export the artifact of `id`, given whether the
/// artifact exists. Without an artifact nothing is copied.
pub fn begin_export(id: &str, artifact_present: bool) -> (action: ExportAction)
    ensures
        artifact_present ==> (action matches ExportAction::Copy(name) && name@ == artifact_name(
            id@,
        )),
        !artifact_present ==> action == ExportAction::Refuse(ExportError::NotFound),
{
    if artifact_present {
        ExportAction::Copy(artifact_file_name(id))
    } else {
        ExportAction::Refuse(ExportError::NotFound)
    }
}

/// Reads the outcome of the copy: `None` where it went well, else what the
/// system said.
pub fn finish_export(copy_failure: Option<String>) -> (r: Result<(), ExportError>)
    ensures
        copy_failure is None <==> r is Ok,
        copy_failure matches Some(detail) ==> (r matches Err(ExportError::CopyFailed(d)) && d@
            == detail@),
{
    match copy_failure {
        None => Ok(()),
        Some(detail) => Err(ExportError::CopyFailed(detail)),
    }
}

} // verus!

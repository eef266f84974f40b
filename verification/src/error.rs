//! Errors that end a run before any file is touched.

use crate::request::Field;
use vstd::prelude::*;

verus! {

/// Why a request was turned down.
#[derive(Clone, Copy, Debug, PartialEq, Eq, Structural)]
pub enum ValidationError {
    /// A required parameter is empty.
    Missing(Field),
    /// Nothing exists at the path of the source directory.
    SourceNotFound,
    /// The path of the source directory leads to something else.
    SourceNotDirectory,
}

impl ValidationError {
    /// The parameter that the error is about.
    pub open spec fn spec_field(self) -> Field {
        match self {
            ValidationError::Missing(field) => field,
            ValidationError::SourceNotFound => Field::SourceDirectory,
            ValidationError::SourceNotDirectory => Field::SourceDirectory,
        }
    }

    /// The parameter that the error is about.
    #[verifier::when_used_as_spec(spec_field)]
    pub fn field(self) -> (field: Field)
        ensures
            field == self.spec_field(),
    {
        match self {
            ValidationError::Missing(field) => field,
            ValidationError::SourceNotFound => Field::SourceDirectory,
            ValidationError::SourceNotDirectory => Field::SourceDirectory,
        }
    }
}

/// A fatal error: the run stops and no summary is drawn up.
#[derive(Debug, PartialEq, Eq)]
pub enum RunError {
    /// The request is incomplete or its source is not a directory.
    Validation(ValidationError),
    /// The source directory could not be listed.
    DirectoryRead { detail: String },
}

/// Mathematical value of a [`RunError`].
pub enum RunErrorView {
    Validation(ValidationError),
    DirectoryRead { detail: Seq<char> },
}

impl View for RunError {
    type V = RunErrorView;

    open spec fn view(&self) -> RunErrorView {
        match self {
            RunError::Validation(error) => RunErrorView::Validation(*error),
            RunError::DirectoryRead { detail } => RunErrorView::DirectoryRead { detail: detail@ },
        }
    }
}

impl Clone for RunError {
    fn clone(&self) -> (r: RunError)
        ensures
            r == *self,
    {
        match self {
            RunError::Validation(error) => RunError::Validation(*error),
            RunError::DirectoryRead { detail } => RunError::DirectoryRead { detail: detail.clone() },
        }
    }
}

/// The name under which a parameter is shown to the user.
pub open spec fn field_label(field: Field) -> Seq<char> {
    match field {
        Field::Container => "Container"@,
        Field::SourceDirectory => "Folder Path"@,
        Field::DestinationPrefix => "Upload Folder"@,
        Field::Account => "Storage Account"@,
        Field::AccessKey => "Storage Account Key"@,
    }
}

/// The message for a validation error.
pub open spec fn validation_text(error: ValidationError) -> Seq<char> {
    match error {
        ValidationError::Missing(field) => field_label(field) + " is required."@,
        ValidationError::SourceNotFound => "Folder path not found."@,
        ValidationError::SourceNotDirectory => "Folder path is not a directory."@,
    }
}

/// The message for a fatal error.
pub open spec fn run_error_text(error: RunErrorView) -> Seq<char> {
    match error {
        RunErrorView::Validation(error) => validation_text(error),
        RunErrorView::DirectoryRead { detail } => "Directory read error: "@ + detail,
    }
}

impl Field {
    /// The name under which the parameter is shown to the user.
    pub fn label(self) -> (label: String)
        ensures
            label@ == field_label(self),
    {
        match self {
            Field::Container => String::from_str("Container"),
            Field::SourceDirectory => String::from_str("Folder Path"),
            Field::DestinationPrefix => String::from_str("Upload Folder"),
            Field::Account => String::from_str("Storage Account"),
            Field::AccessKey => String::from_str("Storage Account Key"),
        }
    }
}

impl ValidationError {
    /// The message for the error.
    pub fn message(self) -> (message: String)
        ensures
            message@ == validation_text(self),
    {
        match self {
            ValidationError::Missing(field) => field.label().concat(" is required."),
            ValidationError::SourceNotFound => String::from_str("Folder path not found."),
            ValidationError::SourceNotDirectory => String::from_str(
                "Folder path is not a directory.",
            ),
        }
    }
}

impl RunError {
    /// The message for the error.
    pub fn message(&self) -> (message: String)
        ensures
            message@ == run_error_text(self@),
    {
        match self {
            RunError::Validation(error) => error.message(),
            RunError::DirectoryRead { detail } => String::from_str("Directory read error: ").concat(
                detail.as_str(),
            ),
        }
    }
}

} // verus!

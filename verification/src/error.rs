//! Failures: those of the storage controller, and those shown to HTTP clients.

use vstd::prelude::*;
use vstd::string::*;

verus! {

/// Why the storage directory could not be claimed at startup.
#[derive(Debug, Clone, Copy, PartialEq, Eq, Structural)]
pub enum LockError {
    /// The directory or its lock marker could not be created or reached.
    DirectoryUnavailable,
    /// Another holder owns the lock on the directory.
    AlreadyLocked,
}

/// The failures of the storage controller.
#[derive(Debug, Clone, Copy, PartialEq, Eq, Structural)]
pub enum StorageError {
    /// The controller could not start: the process must not serve.
    InitializationFailed(LockError),
    /// The upload counter stands at its maximum.
    CounterOverflow,
    /// The destination file could not be created or written.
    UploadFailed,
    /// The storage directory could not be read.
    ListFailed,
    /// The name is reserved or names no file.
    InvalidFilename,
}

/// The text of each storage failure.
pub open spec fn storage_message(err: StorageError) -> Seq<char> {
    match err {
        StorageError::InitializationFailed(LockError::DirectoryUnavailable) => {
            "Storage directory unavailable"@
        },
        StorageError::InitializationFailed(LockError::AlreadyLocked) => {
            "Storage directory is locked by another instance"@
        },
        StorageError::CounterOverflow => "Upload counter overflow"@,
        StorageError::UploadFailed => "File write failed"@,
        StorageError::ListFailed => "Directory read failed"@,
        StorageError::InvalidFilename => "Invalid filename!"@,
    }
}

impl StorageError {
    /// A stable description of the failure.
    pub fn message(&self) -> (text: &'static str)
        ensures
            text@ == storage_message(*self),
    {
        match self {
            StorageError::InitializationFailed(LockError::DirectoryUnavailable) => {
                "Storage directory unavailable"
            },
            StorageError::InitializationFailed(LockError::AlreadyLocked) => {
                "Storage directory is locked by another instance"
            },
            StorageError::CounterOverflow => "Upload counter overflow",
            StorageError::UploadFailed => "File write failed",
            StorageError::ListFailed => "Directory read failed",
            StorageError::InvalidFilename => "Invalid filename!",
        }
    }

    /// How the failure is shown to an HTTP client: a reserved or empty name is
    /// the client's mistake, everything else the server's.
    pub fn kind(&self) -> (kind: ErrorKind)
        ensures
            kind@ == (if *self == StorageError::InvalidFilename {
                ErrorKindView::InvalidFilename
            } else {
                ErrorKindView::Internal
            }),
    {
        match self {
            StorageError::InvalidFilename => ErrorKind::InvalidFilename,
            _ => ErrorKind::Internal,
        }
    }
}

/// What went wrong, as an HTTP client is told.
#[derive(Debug, Clone)]
pub enum ErrorKind {
    /// No file of this name can be had.
    FileNotFound(String),
    /// The request named a file in a way that is not accepted.
    InvalidFilename,
    /// The upload was malformed.
    FileUpload,
    /// The server failed.
    Internal,
}

/// An [`ErrorKind`] with its text as a sequence of characters.
pub enum ErrorKindView {
    FileNotFound(Seq<char>),
    InvalidFilename,
    FileUpload,
    Internal,
}

impl View for ErrorKind {
    type V = ErrorKindView;

    open spec fn view(&self) -> ErrorKindView {
        match self {
            ErrorKind::FileNotFound(name) => ErrorKindView::FileNotFound(name@),
            ErrorKind::InvalidFilename => ErrorKindView::InvalidFilename,
            ErrorKind::FileUpload => ErrorKindView::FileUpload,
            ErrorKind::Internal => ErrorKindView::Internal,
        }
    }
}

impl PartialEq for ErrorKind {
    fn eq(&self, other: &Self) -> (r: bool) {
        match self {
            ErrorKind::FileNotFound(a) => match other {
                ErrorKind::FileNotFound(b) => *a == *b,
                _ => false,
            },
            ErrorKind::InvalidFilename => matches!(other, ErrorKind::InvalidFilename),
            ErrorKind::FileUpload => matches!(other, ErrorKind::FileUpload),
            ErrorKind::Internal => matches!(other, ErrorKind::Internal),
        }
    }
}

impl vstd::std_specs::cmp::PartialEqSpecImpl for ErrorKind {
    open spec fn obeys_eq_spec() -> bool {
        true
    }

    open spec fn eq_spec(&self, other: &Self) -> bool {
        self@ == other@
    }
}

impl Eq for ErrorKind {

}

/// The HTTP status code of each kind.
pub open spec fn status_of(kind: ErrorKindView) -> u16 {
    match kind {
        ErrorKindView::FileNotFound(_) => 404,
        ErrorKindView::InvalidFilename => 400,
        ErrorKindView::FileUpload => 400,
        ErrorKindView::Internal => 500,
    }
}

/// The message of each kind.
pub open spec fn message_of(kind: ErrorKindView) -> Seq<char> {
    match kind {
        ErrorKindView::FileNotFound(name) => "File '"@ + name + "' not found on the server!"@,
        ErrorKindView::InvalidFilename => "Invalid filename!"@,
        ErrorKindView::FileUpload => "File upload failed!"@,
        ErrorKindView::Internal => "Internal server error!"@,
    }
}

impl ErrorKind {
    /// The HTTP status code that goes with the kind.
    pub fn status_code(&self) -> (code: u16)
        ensures
            code == status_of(self@),
    {
        match self {
            ErrorKind::FileNotFound(_) => 404,
            ErrorKind::InvalidFilename => 400,
            ErrorKind::FileUpload => 400,
            ErrorKind::Internal => 500,
        }
    }

    /// The message that an HTTP client reads.
    pub fn to_string(&self) -> (text: String)
        ensures
            text@ == message_of(self@),
    {
        match self {
            ErrorKind::FileNotFound(name) => {
                let mut text = String::from_str("File '");
                text.append(name.as_str());
                text.append("' not found on the server!");
                text
            },
            ErrorKind::InvalidFilename => String::from_str("Invalid filename!"),
            ErrorKind::FileUpload => String::from_str("File upload failed!"),
            ErrorKind::Internal => String::from_str("Internal server error!"),
        }
    }
}

#[verifier::external_type_specification]
#[verifier::external_body]
pub struct ExIoError(std::io::Error);

/// Whether the kind of an I/O error is `NotFound`.
pub uninterp spec fn io_error_is_not_found(err: std::io::Error) -> bool;

/// `std::io::Error::kind`, told apart into `NotFound` and the rest: the answer
/// is the named property of the error, and nothing else is claimed.
#[verifier::external_body]
fn is_not_found(err: &std::io::Error) -> (b: bool)
    ensures
        b == io_error_is_not_found(*err),
{
    match err.kind() {
        std::io::ErrorKind::NotFound => true,
        _ => false,
    }
}

/// `to_string` of a `std::io::Error`: the text comes from the operating
/// system, so nothing is claimed of it.
#[verifier::external_body]
fn describe(err: &std::io::Error) -> (text: String) {
    err.to_string()
}

/// A failure as the HTTP boundary reports it: what the client is told, and
/// the description of what lay behind it.
#[derive(Debug, Clone)]
pub struct ApplicationError {
    /// The description of the underlying failure, for the server's log.
    pub source: String,
    /// What the client is told.
    pub kind: ErrorKind,
}

impl ApplicationError {
    /// The failure of a look-up of `path`: a missing file is reported as such
    /// under the name asked for, anything else as an internal error.
    pub fn from_lookup(not_found: bool, path: &str, source: String) -> (e: Self)
        ensures
            e.source@ == source@,
            e.kind@ == (if not_found {
                ErrorKindView::FileNotFound(path@)
            } else {
                ErrorKindView::Internal
            }),
    {
        if not_found {
            ApplicationError { source, kind: ErrorKind::FileNotFound(String::from_str(path)) }
        } else {
            ApplicationError { source, kind: ErrorKind::Internal }
        }
    }

    /// The failure of an I/O operation on `path`.
    pub fn from_io_with_path(err: std::io::Error, path: &str) -> (e: Self)
        ensures
            e.kind@ == (if io_error_is_not_found(err) {
                ErrorKindView::FileNotFound(path@)
            } else {
                ErrorKindView::Internal
            }),
    {
        let source = describe(&err);
        Self::from_lookup(is_not_found(&err), path, source)
    }

    /// A malformed upload, with the description of what was wrong with it.
    pub fn upload(source: String) -> (e: Self)
        ensures
            e.source@ == source@,
            e.kind@ == ErrorKindView::FileUpload,
    {
        ApplicationError { source, kind: ErrorKind::FileUpload }
    }

    /// A failure of the server, with its description.
    pub fn internal(source: String) -> (e: Self)
        ensures
            e.source@ == source@,
            e.kind@ == ErrorKindView::Internal,
    {
        ApplicationError { source, kind: ErrorKind::Internal }
    }

    /// A failure of the storage controller.
    pub fn from_storage(err: StorageError) -> (e: Self)
        ensures
            e.source@ == storage_message(err),
            e.kind@ == (if err == StorageError::InvalidFilename {
                ErrorKindView::InvalidFilename
            } else {
                ErrorKindView::Internal
            }),
    {
        ApplicationError { source: String::from_str(err.message()), kind: err.kind() }
    }

    /// The line that introduces the failure: the message of its kind, a colon
    /// and a space.
    pub fn to_string(&self) -> (text: String)
        ensures
            text@ == message_of(self.kind@) + ": "@,
    {
        let mut text = self.kind.to_string();
        text.append(": ");
        text
    }
}

} // verus!

//! What the HTTP boundary hands to the storage controller, and what it
//! answers its clients: a status code and a text for each way a request can
//! end.

use vstd::prelude::*;
use vstd::string::*;
use crate::error::{storage_message, StorageError};

verus! {

/// The query of a download: the name of the file asked for.
#[derive(Debug, Clone)]
pub struct FileDownloadQuery {
    pub filename: String,
}

/// An answer without a file in it: the HTTP status code and the text.
#[derive(Debug, Clone)]
pub struct Reply {
    pub status: u16,
    pub body: String,
}

/// The answer to a download.
#[derive(Debug, Clone)]
pub enum DownloadReply {
    /// Nothing can be had under the name asked for.
    NotFound(Reply),
    /// The file follows, under these two headers.
    Attachment { content_type: String, content_disposition: String },
}

/// Why a request to upload was not carried out.
#[derive(Debug, Clone)]
pub enum UploadFailure {
    /// The request could not be read: the description says why.
    Malformed(String),
    /// The storage controller refused or failed.
    Storage(StorageError),
}

/// How the making of a page ended.
#[derive(Debug, Clone)]
pub enum PageOutcome {
    /// The storage directory could not be listed.
    ListFailed(StorageError),
    /// The page could not be rendered: the description says why.
    RenderFailed(String),
    /// The page.
    Rendered(String),
}

/// The content type of every download.
pub const DOWNLOAD_CONTENT_TYPE: &'static str = "application/octet-stream";

/// The text that answers a download of a name under which nothing can be had.
pub open spec fn not_found_text(name: Seq<char>) -> Seq<char> {
    "File '"@ + name + "' not found"@
}

/// The `Content-Disposition` header of a download of `name`.
pub open spec fn disposition(name: Seq<char>) -> Seq<char> {
    "attachment; filename=\""@ + name + "\""@
}

/// The status code that answers a failed upload: the client's mistake where
/// the request was malformed or the name refused, the server's otherwise.
pub open spec fn upload_failure_status(failure: UploadFailure) -> u16 {
    match failure {
        UploadFailure::Malformed(_) => 400,
        UploadFailure::Storage(err) => if err == StorageError::InvalidFilename {
            400
        } else {
            500
        },
    }
}

/// The text that answers a failed upload.
pub open spec fn upload_failure_text(failure: UploadFailure) -> Seq<char> {
    match failure {
        UploadFailure::Malformed(detail) => "Multipart read error: "@ + detail@,
        UploadFailure::Storage(err) => "File save failed: "@ + storage_message(err),
    }
}

/// The status code that answers a page.
pub open spec fn page_status(outcome: PageOutcome) -> u16 {
    match outcome {
        PageOutcome::Rendered(_) => 200,
        _ => 500,
    }
}

/// The text that answers a page.
pub open spec fn page_text(outcome: PageOutcome) -> Seq<char> {
    match outcome {
        PageOutcome::ListFailed(err) => "Directory read error: "@ + storage_message(err),
        PageOutcome::RenderFailed(detail) => "Template render error: "@ + detail@,
        PageOutcome::Rendered(page) => page@,
    }
}

/// The answer to a download of `query.filename`: the headers under which the
/// file is sent if one was found, "not found" if the name was refused or no
/// file could be opened.
pub fn get_download_file(query: &FileDownloadQuery, found: bool) -> (reply: DownloadReply)
    ensures
        match reply {
            DownloadReply::NotFound(r) => {
                &&& !found
                &&& r.status == 404
                &&& r.body@ == not_found_text(query.filename@)
            },
            DownloadReply::Attachment { content_type, content_disposition } => {
                &&& found
                &&& content_type@ == "application/octet-stream"@
                &&& content_disposition@ == disposition(query.filename@)
            },
        },
{
    if found {
        let mut content_disposition = String::from_str("attachment; filename=\"");
        content_disposition.append(query.filename.as_str());
        content_disposition.append("\"");
        DownloadReply::Attachment {
            content_type: String::from_str(DOWNLOAD_CONTENT_TYPE),
            content_disposition,
        }
    } else {
        let mut body = String::from_str("File '");
        body.append(query.filename.as_str());
        body.append("' not found");
        DownloadReply::NotFound(Reply { status: 404, body })
    }
}

/// The answer to a request to upload: success if every file of it was
/// stored, else the first failure.
pub fn post_upload(failure: Option<&UploadFailure>) -> (reply: Reply)
    ensures
        match failure {
            None => reply.status == 200 && reply.body@ == "File uploaded successfully!"@,
            Some(f) => reply.status == upload_failure_status(*f) && reply.body@
                == upload_failure_text(*f),
        },
{
    match failure {
        None => Reply { status: 200, body: String::from_str("File uploaded successfully!") },
        Some(UploadFailure::Malformed(detail)) => {
            let mut body = String::from_str("Multipart read error: ");
            body.append(detail.as_str());
            Reply { status: 400, body }
        },
        Some(UploadFailure::Storage(err)) => {
            let mut body = String::from_str("File save failed: ");
            body.append(err.message());
            let status = err.kind().status_code();
            Reply { status, body }
        },
    }
}

/// The answer to a request for the page that lists the stored files.
pub fn get_file_display_page(outcome: PageOutcome) -> (reply: Reply)
    ensures
        reply.status == page_status(outcome),
        reply.body@ == page_text(outcome),
{
    match outcome {
        PageOutcome::ListFailed(err) => {
            let mut body = String::from_str("Directory read error: ");
            body.append(err.message());
            Reply { status: 500, body }
        },
        PageOutcome::RenderFailed(detail) => {
            let mut body = String::from_str("Template render error: ");
            body.append(detail.as_str());
            Reply { status: 500, body }
        },
        PageOutcome::Rendered(page) => Reply { status: 200, body: page },
    }
}

/// The answer to a request for the page from which files are uploaded: the
/// page, or why it could not be rendered.
pub fn get_upload_file_page(rendered: Result<String, String>) -> (reply: Reply)
    ensures
        match rendered {
            Ok(page) => reply.status == 200 && reply.body@ == page@,
            Err(detail) => reply.status == 500 && reply.body@ == "Template render error: "@
                + detail@,
        },
{
    match rendered {
        Ok(page) => Reply { status: 200, body: page },
        Err(detail) => {
            let mut body = String::from_str("Template render error: ");
            body.append(detail.as_str());
            Reply { status: 500, body }
        },
    }
}

} // verus!

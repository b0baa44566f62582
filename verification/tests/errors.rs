use file_uploader::error::{ApplicationError, ErrorKind, LockError, StorageError};
use file_uploader::routes::{
    get_file_display_page, get_upload_file_page, post_upload, PageOutcome, UploadFailure,
};

#[test]
fn a_missing_file_is_reported_under_its_name() {
    let err = std::io::Error::new(std::io::ErrorKind::NotFound, "no such file");
    let e = ApplicationError::from_io_with_path(err, "report.pdf");
    assert_eq!(e.kind, ErrorKind::FileNotFound("report.pdf".to_string()));
    assert_eq!(e.kind.status_code(), 404);
    assert_eq!(e.kind.to_string(), "File 'report.pdf' not found on the server!");
    assert_eq!(e.to_string(), "File 'report.pdf' not found on the server!: ");
    assert!(e.source.contains("no such file"));
}

#[test]
fn any_other_io_failure_is_internal() {
    for kind in [
        std::io::ErrorKind::PermissionDenied,
        std::io::ErrorKind::AlreadyExists,
        std::io::ErrorKind::InvalidInput,
        std::io::ErrorKind::Other,
    ] {
        let e = ApplicationError::from_io_with_path(std::io::Error::new(kind, "x"), "report.pdf");
        assert_eq!(e.kind, ErrorKind::Internal);
        assert_eq!(e.kind.status_code(), 500);
    }
}

#[test]
fn a_lookup_is_classified_by_whether_the_file_was_missing() {
    let e = ApplicationError::from_lookup(true, "a.txt", "gone".to_string());
    assert_eq!(e.kind, ErrorKind::FileNotFound("a.txt".to_string()));
    assert_eq!(e.source, "gone");
    let e = ApplicationError::from_lookup(false, "a.txt", "denied".to_string());
    assert_eq!(e.kind, ErrorKind::Internal);
    assert_eq!(e.source, "denied");
}

#[test]
fn each_kind_has_its_status_and_message() {
    let cases = [
        (ErrorKind::FileNotFound("x".to_string()), 404, "File 'x' not found on the server!"),
        (ErrorKind::InvalidFilename, 400, "Invalid filename!"),
        (ErrorKind::FileUpload, 400, "File upload failed!"),
        (ErrorKind::Internal, 500, "Internal server error!"),
    ];
    for (kind, status, message) in cases {
        assert_eq!(kind.status_code(), status);
        assert_eq!(kind.to_string(), message);
    }
    assert_ne!(ErrorKind::FileNotFound("x".to_string()), ErrorKind::FileNotFound("y".to_string()));
    assert_ne!(ErrorKind::Internal, ErrorKind::FileUpload);
}

#[test]
fn application_errors_by_cause() {
    let e = ApplicationError::upload("bad boundary".to_string());
    assert_eq!(e.kind, ErrorKind::FileUpload);
    assert_eq!(e.source, "bad boundary");
    assert_eq!(e.to_string(), "File upload failed!: ");
    let e = ApplicationError::internal("template".to_string());
    assert_eq!(e.kind, ErrorKind::Internal);
    assert_eq!(e.to_string(), "Internal server error!: ");
    let e = ApplicationError::from_storage(StorageError::InvalidFilename);
    assert_eq!(e.kind, ErrorKind::InvalidFilename);
    assert_eq!(e.source, "Invalid filename!");
    let e = ApplicationError::from_storage(StorageError::CounterOverflow);
    assert_eq!(e.kind, ErrorKind::Internal);
    assert_eq!(e.source, "Upload counter overflow");
}

#[test]
fn each_storage_failure_has_its_message_and_kind() {
    let cases = [
        (
            StorageError::InitializationFailed(LockError::DirectoryUnavailable),
            "Storage directory unavailable",
            ErrorKind::Internal,
        ),
        (
            StorageError::InitializationFailed(LockError::AlreadyLocked),
            "Storage directory is locked by another instance",
            ErrorKind::Internal,
        ),
        (StorageError::CounterOverflow, "Upload counter overflow", ErrorKind::Internal),
        (StorageError::UploadFailed, "File write failed", ErrorKind::Internal),
        (StorageError::ListFailed, "Directory read failed", ErrorKind::Internal),
        (StorageError::InvalidFilename, "Invalid filename!", ErrorKind::InvalidFilename),
    ];
    for (err, message, kind) in cases {
        assert_eq!(err.message(), message);
        assert_eq!(err.kind(), kind);
    }
}

#[test]
fn upload_replies() {
    let ok = post_upload(None);
    assert_eq!(ok.status, 200);
    assert_eq!(ok.body, "File uploaded successfully!");
    let r = post_upload(Some(&UploadFailure::Malformed("unexpected end".to_string())));
    assert_eq!(r.status, 400);
    assert_eq!(r.body, "Multipart read error: unexpected end");
    let r = post_upload(Some(&UploadFailure::Storage(StorageError::UploadFailed)));
    assert_eq!(r.status, 500);
    assert_eq!(r.body, "File save failed: File write failed");
    let r = post_upload(Some(&UploadFailure::Storage(StorageError::CounterOverflow)));
    assert_eq!(r.status, 500);
    assert_eq!(r.body, "File save failed: Upload counter overflow");
    let r = post_upload(Some(&UploadFailure::Storage(StorageError::InvalidFilename)));
    assert_eq!(r.status, 400);
    assert_eq!(r.body, "File save failed: Invalid filename!");
}

#[test]
fn page_replies() {
    let r = get_file_display_page(PageOutcome::Rendered("<ul></ul>".to_string()));
    assert_eq!(r.status, 200);
    assert_eq!(r.body, "<ul></ul>");
    let r = get_file_display_page(PageOutcome::ListFailed(StorageError::ListFailed));
    assert_eq!(r.status, 500);
    assert_eq!(r.body, "Directory read error: Directory read failed");
    let r = get_file_display_page(PageOutcome::RenderFailed("missing block".to_string()));
    assert_eq!(r.status, 500);
    assert_eq!(r.body, "Template render error: missing block");
    let r = get_upload_file_page(Ok("<form>".to_string()));
    assert_eq!(r.status, 200);
    assert_eq!(r.body, "<form>");
    let r = get_upload_file_page(Err("missing block".to_string()));
    assert_eq!(r.status, 500);
    assert_eq!(r.body, "Template render error: missing block");
}

use file_uploader::controllers::{
    default_upload_name, Claim, ClaimStep, DirectoryEntry, FileUploader, Filedata, InstanceLock,
    LockAttempt, StepResult,
};
use file_uploader::error::{LockError, StorageError};
use file_uploader::routes::{get_download_file, DownloadReply, FileDownloadQuery};

fn fresh(folder: &str) -> FileUploader {
    match FileUploader::init(folder, LockAttempt::Locked) {
        Ok(uploader) => uploader,
        Err(e) => panic!("no controller: {:?}", e),
    }
}

fn entry(name: &str, is_dir: bool) -> DirectoryEntry {
    DirectoryEntry { name: name.to_string(), is_dir }
}

fn query(name: &str) -> FileDownloadQuery {
    FileDownloadQuery { filename: name.to_string() }
}

#[test]
fn a_fresh_controller_has_counted_nothing() {
    let uploader = fresh("./uploads");
    assert_eq!(uploader.upload_count(), 0);
    assert_eq!(uploader.folder_path(), "./uploads");
    assert_eq!(uploader.get_info(), "Uploaded 0 files to './uploads'");
}

#[test]
fn the_controller_does_not_start_without_the_lock() {
    let cases = [
        (LockAttempt::DirectoryNotCreated, LockError::DirectoryUnavailable),
        (LockAttempt::MarkerNotOpened, LockError::DirectoryUnavailable),
        (LockAttempt::Refused, LockError::DirectoryUnavailable),
        (LockAttempt::HeldElsewhere, LockError::AlreadyLocked),
    ];
    for (attempt, cause) in cases {
        match FileUploader::init("./uploads", attempt) {
            Ok(_) => panic!("started without the lock"),
            Err(e) => assert_eq!(e, StorageError::InitializationFailed(cause)),
        }
        match InstanceLock::acquire("./uploads", attempt) {
            Ok(_) => panic!("lock without the lock"),
            Err(e) => assert_eq!(e, cause),
        }
    }
}

#[test]
fn of_two_starts_on_one_directory_the_second_is_told_it_is_locked() {
    let first = FileUploader::init("./uploads", LockAttempt::Locked);
    let second = FileUploader::init("./uploads", LockAttempt::HeldElsewhere);
    assert!(first.is_ok());
    match second {
        Ok(_) => panic!("two controllers on one directory"),
        Err(e) => assert_eq!(e, StorageError::InitializationFailed(LockError::AlreadyLocked)),
    }
}

#[test]
fn the_lock_names_its_marker_and_its_directory() {
    assert_eq!(InstanceLock::marker_path("./uploads"), "./uploads/.lock");
    assert_eq!(InstanceLock::marker_path("uploads/"), "uploads/.lock");
    match InstanceLock::acquire("./uploads", LockAttempt::Locked) {
        Ok(lock) => assert_eq!(lock.storage_path(), "./uploads"),
        Err(e) => panic!("no lock: {:?}", e),
    }
}

#[test]
fn an_upload_without_a_name_gets_the_default_name() {
    let mut uploader = fresh("./uploads");
    let upload = uploader.upload_file(None).unwrap();
    assert_eq!(upload.id, 1);
    assert_eq!(upload.file.filename, "file_upload_1");
    assert_eq!(upload.path, "./uploads/file_upload_1");
    assert_eq!(uploader.upload_count(), 1);
    let stored = FileUploader::finish_upload(upload, true).unwrap();
    assert_eq!(stored.filename, "file_upload_1");
}

#[test]
fn default_names_carry_the_id() {
    assert_eq!(default_upload_name(0), "file_upload_0");
    assert_eq!(default_upload_name(1), "file_upload_1");
    assert_eq!(default_upload_name(42), "file_upload_42");
    assert_eq!(default_upload_name(u64::MAX), "file_upload_18446744073709551615");
}

#[test]
fn a_name_that_comes_down_to_nothing_gets_the_default_name() {
    let mut uploader = fresh("up");
    for (i, hint) in ["", "/", "..", "a/..", ".", "C:"].iter().enumerate() {
        let upload = uploader.upload_file(Some(hint)).unwrap();
        assert_eq!(upload.id, i as u64 + 1);
        assert_eq!(upload.file.filename, format!("file_upload_{}", i + 1));
        assert_eq!(upload.path, format!("up/file_upload_{}", i + 1));
    }
    assert_eq!(uploader.upload_count(), 6);
}

#[test]
fn an_upload_lands_directly_in_the_storage_directory() {
    let mut uploader = fresh("./uploads");
    let cases = [
        ("a/b/c.txt", "c.txt"),
        ("../../etc/passwd", "passwd"),
        ("/etc/shadow", "shadow"),
        ("C:\\Users\\me\\notes.txt", "notes.txt"),
        ("..\\..\\boot.ini", "boot.ini"),
        ("dir/sub/", "sub"),
    ];
    for (hint, name) in cases {
        let upload = uploader.upload_file(Some(hint)).unwrap();
        assert_eq!(upload.file.filename, name);
        assert_eq!(upload.path, format!("./uploads/{}", name));
        assert!(!upload.file.filename.contains('/'));
        assert!(!upload.file.filename.contains('\\'));
    }
}

#[test]
fn write_file_names_the_destination_without_counting() {
    let uploader = fresh("./uploads");
    let upload = uploader.write_file(Some("x/y.bin"), 9).unwrap();
    assert_eq!(upload.id, 9);
    assert_eq!(upload.file.filename, "y.bin");
    assert_eq!(upload.path, "./uploads/y.bin");
    let upload = uploader.write_file(None, 9).unwrap();
    assert_eq!(upload.file.filename, "file_upload_9");
    assert_eq!(uploader.upload_count(), 0);
}

#[test]
fn an_upload_under_the_name_of_the_lock_marker_is_refused() {
    let mut uploader = fresh("./uploads");
    for hint in [".lock", "a/.lock", "C:.lock", ".lock/", "x\\.lock"] {
        match uploader.upload_file(Some(hint)) {
            Ok(upload) => panic!("stored over the marker: {:?}", upload),
            Err(e) => assert_eq!(e, StorageError::InvalidFilename),
        }
    }
    assert_eq!(uploader.upload_count(), 5);
    let upload = uploader.upload_file(Some(".lock.txt")).unwrap();
    assert_eq!(upload.id, 6);
    assert_eq!(upload.file.filename, ".lock.txt");
}

#[test]
fn ids_are_reserved_in_order_without_gaps() {
    let mut uploader = fresh("./uploads");
    let mut ids = Vec::new();
    for _ in 0..100 {
        ids.push(uploader.reserve_id().unwrap());
    }
    let expected: Vec<u64> = (1..=100).collect();
    assert_eq!(ids, expected);
    assert_eq!(uploader.upload_count(), 100);
}

#[test]
fn uploads_under_distinct_names_are_all_counted_and_kept_apart() {
    let mut uploader = fresh("./uploads");
    let mut paths = Vec::new();
    let mut ids = Vec::new();
    for i in 0..50 {
        let hint = format!("incoming/file-{}.bin", i);
        let upload = uploader.upload_file(Some(&hint)).unwrap();
        assert_eq!(upload.file.filename, format!("file-{}.bin", i));
        ids.push(upload.id);
        paths.push(upload.path);
    }
    assert_eq!(uploader.upload_count(), 50);
    assert_eq!(ids, (1..=50).collect::<Vec<u64>>());
    let mut unique = paths.clone();
    unique.sort();
    unique.dedup();
    assert_eq!(unique.len(), 50);
    assert_eq!(uploader.get_info(), "Uploaded 50 files to './uploads'");
}

#[test]
fn uploads_from_many_callers_reserve_each_id_once() {
    let shared = std::sync::Mutex::new(fresh("./uploads"));
    let mut ids = Vec::new();
    for caller in 0..8 {
        for n in 0..25 {
            let hint = format!("c{}-{}.bin", caller, n);
            let upload = shared.lock().unwrap().upload_file(Some(&hint)).unwrap();
            ids.push(upload.id);
        }
    }
    ids.sort();
    assert_eq!(ids, (1..=200).collect::<Vec<u64>>());
    assert_eq!(shared.lock().unwrap().upload_count(), 200);
}

#[test]
fn the_counter_does_not_wrap() {
    let mut uploader = FileUploader::resume("./uploads", LockAttempt::Locked, u64::MAX - 1).unwrap();
    let upload = uploader.upload_file(Some("last.bin")).unwrap();
    assert_eq!(upload.id, u64::MAX);
    assert_eq!(uploader.upload_count(), u64::MAX);
    match uploader.upload_file(Some("one-too-many.bin")) {
        Ok(upload) => panic!("admitted past the maximum: {:?}", upload),
        Err(e) => assert_eq!(e, StorageError::CounterOverflow),
    }
    assert_eq!(uploader.upload_count(), u64::MAX);
    match uploader.reserve_id() {
        Ok(id) => panic!("reserved past the maximum: {}", id),
        Err(e) => assert_eq!(e, StorageError::CounterOverflow),
    }
    assert_eq!(uploader.upload_count(), u64::MAX);
    assert_eq!(uploader.get_info(), "Uploaded 18446744073709551615 files to './uploads'");
}

#[test]
fn a_failed_write_keeps_its_id() {
    let mut uploader = fresh("./uploads");
    let upload = uploader.upload_file(Some("a.bin")).unwrap();
    match FileUploader::finish_upload(upload, false) {
        Ok(file) => panic!("stored without a write: {:?}", file),
        Err(e) => assert_eq!(e, StorageError::UploadFailed),
    }
    assert_eq!(uploader.upload_count(), 1);
    let upload = uploader.upload_file(Some("b.bin")).unwrap();
    assert_eq!(upload.id, 2);
}

#[test]
fn the_listing_holds_the_stored_files_only() {
    let uploader = fresh("./uploads");
    let entries = vec![
        entry(".lock", false),
        entry("report.pdf", false),
        entry("thumbnails", true),
        entry("file_upload_3", false),
        entry("a\\b", false),
        entry("C:x", false),
        entry("notes.txt", false),
    ];
    let files = uploader.get_all_file_data(Some(&entries)).unwrap();
    let names: Vec<&str> = files.iter().map(|f| f.filename.as_str()).collect();
    assert_eq!(names, vec!["report.pdf", "file_upload_3", "notes.txt"]);
    let none: Vec<DirectoryEntry> = Vec::new();
    assert_eq!(uploader.get_all_file_data(Some(&none)).unwrap(), Vec::<Filedata>::new());
}

#[test]
fn a_directory_that_cannot_be_read_fails_the_listing() {
    let uploader = fresh("./uploads");
    match uploader.get_all_file_data(None) {
        Ok(files) => panic!("listed an unreadable directory: {:?}", files),
        Err(e) => assert_eq!(e, StorageError::ListFailed),
    }
}

#[test]
fn filedata_is_made_of_storable_names_only() {
    assert_eq!(Filedata::new("report.pdf"), Some(Filedata { filename: "report.pdf".to_string() }));
    assert_eq!(Filedata::new(".lock"), None);
    assert_eq!(Filedata::new("a/b"), None);
    assert_eq!(Filedata::new(""), None);
    assert_eq!(Filedata::new(".."), None);
    let a = Filedata { filename: "a".to_string() };
    assert!(a == a.clone());
    assert!(a != Filedata { filename: "b".to_string() });
}

#[test]
fn a_download_resolves_below_the_storage_directory() {
    let uploader = fresh("./uploads");
    assert_eq!(uploader.download_file(&query("report.pdf")), Some("./uploads/report.pdf".to_string()));
    assert_eq!(uploader.download_file(&query("missing.txt")), Some("./uploads/missing.txt".to_string()));
    assert_eq!(uploader.download_file(&query("sub/x")), Some("./uploads/sub/x".to_string()));
}

#[test]
fn a_download_of_a_refused_name_resolves_to_nothing() {
    let uploader = fresh("./uploads");
    for name in ["", "../secret", "a/../../b", "/etc/passwd", "C:\\boot.ini", "c:x", "..", ".lock", "\\x"] {
        assert_eq!(uploader.download_file(&query(name)), None);
    }
}

#[test]
fn report_round_trip() {
    let mut uploader = fresh("./uploads");
    let bytes: Vec<u8> = vec![0x25, 0x50, 0x44, 0x46];
    let mut disk: Vec<(String, Vec<u8>)> = Vec::new();

    let upload = uploader.upload_file(Some("report.pdf")).unwrap();
    assert_eq!(upload.path, "./uploads/report.pdf");
    disk.push((upload.path.clone(), bytes.clone()));
    let stored = FileUploader::finish_upload(upload, true).unwrap();
    assert_eq!(stored.filename, "report.pdf");

    let entries = vec![entry(".lock", false), entry("report.pdf", false)];
    let files = uploader.get_all_file_data(Some(&entries)).unwrap();
    assert_eq!(files, vec![Filedata { filename: "report.pdf".to_string() }]);

    let open = |path: &str| disk.iter().find(|(p, _)| p == path).map(|(_, b)| b.clone());

    let q = query("report.pdf");
    let found = uploader.download_file(&q).and_then(|p| open(&p));
    assert_eq!(found, Some(bytes));
    match get_download_file(&q, found.is_some()) {
        DownloadReply::Attachment { content_type, content_disposition } => {
            assert_eq!(content_type, "application/octet-stream");
            assert_eq!(content_disposition, "attachment; filename=\"report.pdf\"");
        },
        DownloadReply::NotFound(r) => panic!("not found: {:?}", r),
    }

    for name in ["../secret", "missing.txt"] {
        let q = query(name);
        let found = uploader.download_file(&q).and_then(|p| open(&p));
        assert_eq!(found, None);
        match get_download_file(&q, found.is_some()) {
            DownloadReply::NotFound(r) => {
                assert_eq!(r.status, 404);
                assert_eq!(r.body, format!("File '{}' not found", name));
            },
            DownloadReply::Attachment { .. } => panic!("found {}", name),
        }
    }
    assert_eq!(uploader.get_info(), "Uploaded 1 files to './uploads'");
}

fn claim(results: &[StepResult]) -> (LockAttempt, usize) {
    let mut step = InstanceLock::first_step();
    let mut taken = 0;
    loop {
        let result = results[taken];
        taken += 1;
        match InstanceLock::next_step(step, result) {
            Claim::Next(next) => step = next,
            Claim::Finished(attempt) => return (attempt, taken),
        }
    }
}

#[test]
fn the_claim_takes_its_steps_in_order() {
    assert_eq!(InstanceLock::first_step(), ClaimStep::CreateDirectory);
    assert_eq!(
        InstanceLock::next_step(ClaimStep::CreateDirectory, StepResult::Done),
        Claim::Next(ClaimStep::OpenMarker)
    );
    assert_eq!(
        InstanceLock::next_step(ClaimStep::OpenMarker, StepResult::Done),
        Claim::Next(ClaimStep::TryLock)
    );
    assert_eq!(
        InstanceLock::next_step(ClaimStep::TryLock, StepResult::Done),
        Claim::Finished(LockAttempt::Locked)
    );
}

#[test]
fn the_claim_ends_at_the_first_step_that_fails() {
    let (done, contended, failed) = (StepResult::Done, StepResult::Contended, StepResult::Failed);
    assert_eq!(claim(&[done, done, done]), (LockAttempt::Locked, 3));
    assert_eq!(claim(&[done, done, contended]), (LockAttempt::HeldElsewhere, 3));
    assert_eq!(claim(&[done, done, failed]), (LockAttempt::Refused, 3));
    assert_eq!(claim(&[done, failed, done]), (LockAttempt::MarkerNotOpened, 2));
    assert_eq!(claim(&[done, contended, done]), (LockAttempt::MarkerNotOpened, 2));
    assert_eq!(claim(&[failed, done, done]), (LockAttempt::DirectoryNotCreated, 1));
    assert_eq!(claim(&[contended, done, done]), (LockAttempt::DirectoryNotCreated, 1));
}

#[test]
fn default_names_of_different_ids_differ() {
    let mut names: Vec<String> = (0..1000).map(default_upload_name).collect();
    names.push(default_upload_name(u64::MAX));
    names.push(default_upload_name(u64::MAX - 1));
    let mut unique = names.clone();
    unique.sort();
    unique.dedup();
    assert_eq!(unique.len(), names.len());
}

#[test]
fn whatever_is_stored_or_listed_can_be_downloaded() {
    let mut uploader = fresh("store");
    for hint in ["a/b/c.txt", "C:x.bin", "plain", "dir/", "..\\up"] {
        let upload = uploader.upload_file(Some(hint)).unwrap();
        let q = query(&upload.file.filename);
        assert_eq!(uploader.download_file(&q), Some(upload.path.clone()));
    }
    let entries = vec![entry("x.bin", false), entry(".lock", false), entry("d", true)];
    for file in uploader.get_all_file_data(Some(&entries)).unwrap() {
        let q = query(&file.filename);
        assert_eq!(uploader.download_file(&q), Some(format!("store/{}", file.filename)));
    }
}

#[test]
fn a_directory_entry_stands_for_a_file_or_for_nothing() {
    assert_eq!(
        Filedata::from_entry(&entry("report.pdf", false)),
        Some(Filedata { filename: "report.pdf".to_string() })
    );
    assert_eq!(Filedata::from_entry(&entry("report.pdf", true)), None);
    assert_eq!(Filedata::from_entry(&entry(".lock", false)), None);
    assert_eq!(Filedata::from_entry(&entry("a/b", false)), None);
    assert_eq!(Filedata::from_entry(&entry("", false)), None);
}

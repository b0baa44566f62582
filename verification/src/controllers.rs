//! The storage controller: the claim on the storage directory, the upload
//! counter, the naming of uploads, the listing and the resolution of
//! downloads.
//!
//! The controller decides; it touches no file. Whoever drives it creates the
//! directory, takes the lock, writes and opens the files it names, and tells
//! it how that went.

use vstd::prelude::*;
use vstd::string::*;
use crate::error::{LockError, StorageError};
use crate::names::{
    final_segment, has_drive_prefix, has_parent_segment, is_plain_name, is_rooted, is_storable,
    is_parent_segment_at, is_separator, is_storable_name, is_valid_download,
    is_valid_download_name, join, joined, lemma_directories_are_dropped, lemma_joined_extends_base,
    lemma_joined_stays_below, lemma_plain_name_can_be_downloaded,
    lemma_plain_name_is_direct_child, lemma_plain_name_is_kept, lemma_sanitized_is_plain,
    lock_marker, sanitize, sanitized, LOCK_MARKER,
};
use crate::routes::FileDownloadQuery;
use crate::text::{
    decimal, lemma_decimal_is_digits, lemma_decimal_is_injective, same_text, to_decimal,
};

verus! {

/// One stored file, by the name under which it lies in the storage directory
/// and under which it can be asked for.
#[derive(Debug, Clone, Hash)]
pub struct Filedata {
    pub filename: String,
}

impl View for Filedata {
    type V = Seq<char>;

    open spec fn view(&self) -> Seq<char> {
        self.filename@
    }
}

impl PartialEq for Filedata {
    fn eq(&self, other: &Self) -> (r: bool) {
        self.filename == other.filename
    }
}

impl vstd::std_specs::cmp::PartialEqSpecImpl for Filedata {
    open spec fn obeys_eq_spec() -> bool {
        true
    }

    open spec fn eq_spec(&self, other: &Self) -> bool {
        self@ == other@
    }
}

impl Eq for Filedata {

}

impl Filedata {
    /// The name is one that the storage directory holds uploads under: a
    /// direct child of the directory, with no separator in it.
    pub open spec fn wf(&self) -> bool {
        is_storable_name(self.filename@)
    }

    /// The file of this name, if the storage directory can hold one.
    pub fn new(filename: &str) -> (r: Option<Filedata>)
        ensures
            match r {
                Some(file) => file@ == filename@ && file.wf(),
                None => !is_storable_name(filename@),
            },
    {
        if is_storable(filename) {
            Some(Filedata { filename: String::from_str(filename) })
        } else {
            None
        }
    }

    /// The stored file that a directory entry stands for, if it stands for
    /// one.
    pub fn from_entry(entry: &DirectoryEntry) -> (r: Option<Filedata>)
        ensures
            match r {
                Some(file) => entry.is_listed() && file@ == entry.name@ && file.wf(),
                None => !entry.is_listed(),
            },
    {
        if entry.is_dir {
            None
        } else {
            Self::new(entry.name.as_str())
        }
    }
}

/// One entry of the storage directory as the operating system reports it.
#[derive(Debug, Clone)]
pub struct DirectoryEntry {
    /// The base name of the entry.
    pub name: String,
    /// Whether the entry is a directory.
    pub is_dir: bool,
}

impl DirectoryEntry {
    /// Whether the entry is a stored file: no directory, and under a name
    /// that the storage directory holds uploads under, which the lock marker
    /// is not.
    pub open spec fn is_listed(&self) -> bool {
        !self.is_dir && is_storable_name(self.name@)
    }
}

/// The names of the stored files among the entries of a directory, in the
/// order of the entries.
pub open spec fn listed(entries: Seq<DirectoryEntry>) -> Seq<Seq<char>> {
    entries.filter(|e: DirectoryEntry| e.is_listed()).map_values(|e: DirectoryEntry| e.name@)
}

/// The names of a sequence of files.
pub open spec fn names_of(files: Seq<Filedata>) -> Seq<Seq<char>> {
    files.map_values(|f: Filedata| f@)
}

/// The path that a download of `name` from the directory `folder` opens, if
/// the name may be asked for.
pub open spec fn resolved(folder: Seq<char>, name: Seq<char>) -> Option<Seq<char>> {
    if is_valid_download_name(name) {
        Some(joined(folder, name))
    } else {
        None
    }
}

/// How the attempt to claim the storage directory went: the step at which it
/// stopped, or that the lock was taken.
#[derive(Debug, Clone, Copy, PartialEq, Eq, Structural)]
pub enum LockAttempt {
    /// The directory is missing and could not be created.
    DirectoryNotCreated,
    /// The marker file could not be created or opened.
    MarkerNotOpened,
    /// Another holder owns the lock on the marker file.
    HeldElsewhere,
    /// The lock was refused for another reason.
    Refused,
    /// The lock on the marker file was taken.
    Locked,
}

/// One step of the attempt to claim the storage directory.
#[derive(Debug, Clone, Copy, PartialEq, Eq, Structural)]
pub enum ClaimStep {
    /// Create the directory and its parents where they are missing.
    CreateDirectory,
    /// Create or open the marker file in the directory.
    OpenMarker,
    /// Try to lock the marker file for this process alone, without waiting.
    TryLock,
}

/// How one step ended.
#[derive(Debug, Clone, Copy, PartialEq, Eq, Structural)]
pub enum StepResult {
    /// The step was carried out.
    Done,
    /// The step failed because another holder owns the lock.
    Contended,
    /// The step failed for any other reason.
    Failed,
}

/// What follows a step: the next one, or the end of the attempt.
#[derive(Debug, Clone, Copy, PartialEq, Eq, Structural)]
pub enum Claim {
    Next(ClaimStep),
    Finished(LockAttempt),
}

/// What follows `step` once it ended with `result`: the steps follow each
/// other while they succeed, and the first that does not ends the attempt.
pub open spec fn after_step(step: ClaimStep, result: StepResult) -> Claim {
    match step {
        ClaimStep::CreateDirectory => if result == StepResult::Done {
            Claim::Next(ClaimStep::OpenMarker)
        } else {
            Claim::Finished(LockAttempt::DirectoryNotCreated)
        },
        ClaimStep::OpenMarker => if result == StepResult::Done {
            Claim::Next(ClaimStep::TryLock)
        } else {
            Claim::Finished(LockAttempt::MarkerNotOpened)
        },
        ClaimStep::TryLock => match result {
            StepResult::Done => Claim::Finished(LockAttempt::Locked),
            StepResult::Contended => Claim::Finished(LockAttempt::HeldElsewhere),
            StepResult::Failed => Claim::Finished(LockAttempt::Refused),
        },
    }
}

/// How an attempt that starts at `step` ends when its steps end with
/// `results`, one after the other. `None` while it is not at its end.
pub open spec fn claim_run(step: ClaimStep, results: Seq<StepResult>) -> Option<LockAttempt>
    decreases results.len(),
{
    if results.len() == 0 {
        None
    } else {
        match after_step(step, results[0]) {
            Claim::Finished(attempt) => Some(attempt),
            Claim::Next(next) => claim_run(next, results.drop_first()),
        }
    }
}

/// An attempt is at its end after three steps at the latest. It ends with the
/// lock exactly when all three steps were carried out, and with the lock held
/// elsewhere exactly when the first two were and the third met another
/// holder.
pub proof fn lemma_lock_takes_every_step(results: Seq<StepResult>)
    ensures
        results.len() >= 3 ==> claim_run(ClaimStep::CreateDirectory, results) is Some,
        claim_run(ClaimStep::CreateDirectory, results) == Some(LockAttempt::Locked) <==> {
            &&& results.len() >= 3
            &&& results[0] == StepResult::Done
            &&& results[1] == StepResult::Done
            &&& results[2] == StepResult::Done
        },
        claim_run(ClaimStep::CreateDirectory, results) == Some(LockAttempt::HeldElsewhere) <==> {
            &&& results.len() >= 3
            &&& results[0] == StepResult::Done
            &&& results[1] == StepResult::Done
            &&& results[2] == StepResult::Contended
        },
{
    reveal_with_fuel(claim_run, 4);
}

/// Of two attempts on one directory that both reach the marker file, where
/// the operating system grants the lock to one and tells the other that it is
/// held, the first ends with the lock and the second is told that the
/// directory is already locked.
pub proof fn lemma_second_claim_is_refused(first: Seq<StepResult>, second: Seq<StepResult>)
    requires
        first.len() == 3,
        second.len() == 3,
        first[0] == StepResult::Done && first[1] == StepResult::Done,
        second[0] == StepResult::Done && second[1] == StepResult::Done,
        first[2] == StepResult::Done,
        second[2] == StepResult::Contended,
    ensures
        claim_run(ClaimStep::CreateDirectory, first) == Some(LockAttempt::Locked),
        claim_run(ClaimStep::CreateDirectory, second) == Some(LockAttempt::HeldElsewhere),
        lock_outcome(LockAttempt::Locked) is Ok,
        lock_outcome(LockAttempt::HeldElsewhere) == Err::<(), LockError>(LockError::AlreadyLocked),
{
    lemma_lock_takes_every_step(first);
    lemma_lock_takes_every_step(second);
}

/// What an attempt to claim the storage directory comes to.
pub open spec fn lock_outcome(attempt: LockAttempt) -> Result<(), LockError> {
    match attempt {
        LockAttempt::Locked => Ok(()),
        LockAttempt::HeldElsewhere => Err(LockError::AlreadyLocked),
        _ => Err(LockError::DirectoryUnavailable),
    }
}

/// The claim of this process on a storage directory, held from the start of
/// the controller to its end.
#[derive(Debug)]
pub struct InstanceLock {
    storage_path: String,
}

impl InstanceLock {
    /// The directory that the lock claims.
    pub closed spec fn directory(&self) -> Seq<char> {
        self.storage_path@
    }

    /// The path of the marker file that carries the lock on `storage_path`.
    pub fn marker_path(storage_path: &str) -> (path: String)
        ensures
            path@ == joined(storage_path@, lock_marker()),
    {
        join(storage_path, LOCK_MARKER)
    }

    /// The step with which an attempt to claim a directory starts.
    pub fn first_step() -> (step: ClaimStep)
        ensures
            step == ClaimStep::CreateDirectory,
    {
        ClaimStep::CreateDirectory
    }

    /// What follows `step` once it ended with `result`.
    pub fn next_step(step: ClaimStep, result: StepResult) -> (claim: Claim)
        ensures
            claim == after_step(step, result),
    {
        match step {
            ClaimStep::CreateDirectory => match result {
                StepResult::Done => Claim::Next(ClaimStep::OpenMarker),
                _ => Claim::Finished(LockAttempt::DirectoryNotCreated),
            },
            ClaimStep::OpenMarker => match result {
                StepResult::Done => Claim::Next(ClaimStep::TryLock),
                _ => Claim::Finished(LockAttempt::MarkerNotOpened),
            },
            ClaimStep::TryLock => match result {
                StepResult::Done => Claim::Finished(LockAttempt::Locked),
                StepResult::Contended => Claim::Finished(LockAttempt::HeldElsewhere),
                StepResult::Failed => Claim::Finished(LockAttempt::Refused),
            },
        }
    }

    /// The claim on `storage_path`, if the attempt to take it succeeded.
    pub fn acquire(storage_path: &str, attempt: LockAttempt) -> (r: Result<Self, LockError>)
        ensures
            match r {
                Ok(lock) => lock_outcome(attempt) is Ok && lock.directory() == storage_path@,
                Err(e) => lock_outcome(attempt) == Err::<(), LockError>(e),
            },
    {
        match attempt {
            LockAttempt::Locked => Ok(InstanceLock { storage_path: String::from_str(storage_path) }),
            LockAttempt::HeldElsewhere => Err(LockError::AlreadyLocked),
            _ => Err(LockError::DirectoryUnavailable),
        }
    }

    /// The directory that the lock claims.
    pub fn storage_path(&self) -> (path: &str)
        ensures
            path@ == self.directory(),
    {
        self.storage_path.as_str()
    }
}

/// The name given to upload number `id` where its client gave none.
pub open spec fn default_name(id: nat) -> Seq<char> {
    "file_upload_"@ + decimal(id)
}

/// The name under which upload number `id` is stored: what the client's name
/// comes down to, or the default name where that is nothing.
pub open spec fn upload_name(hint: Option<Seq<char>>, id: nat) -> Seq<char> {
    match hint {
        Some(h) => match sanitized(h) {
            Some(name) => name,
            None => default_name(id),
        },
        None => default_name(id),
    }
}

/// An upload that was admitted, as plain values.
pub struct UploadView {
    pub id: nat,
    pub name: Seq<char>,
    pub path: Seq<char>,
}

/// An upload that was admitted: its number, the file it becomes and the path
/// at which its bytes are to be written.
#[derive(Debug, Clone)]
pub struct Upload {
    pub id: u64,
    pub file: Filedata,
    pub path: String,
}

impl View for Upload {
    type V = UploadView;

    open spec fn view(&self) -> UploadView {
        UploadView { id: self.id as nat, name: self.file@, path: self.path@ }
    }
}

/// Where upload number `id` goes in the directory `folder`: to its name below
/// the directory, unless that name is the lock marker's.
pub open spec fn destination(folder: Seq<char>, hint: Option<Seq<char>>, id: nat) -> Result<
    UploadView,
    StorageError,
> {
    let name = upload_name(hint, id);
    if name == lock_marker() {
        Err(StorageError::InvalidFilename)
    } else {
        Ok(UploadView { id, name, path: joined(folder, name) })
    }
}

/// A default name is a plain name, and not the lock marker.
pub proof fn lemma_default_name_is_storable(id: nat)
    ensures
        is_storable_name(default_name(id)),
{
    reveal_strlit("file_upload_");
    reveal_strlit(".lock");
    lemma_decimal_is_digits(id);
}

/// Uploads with different ids get different default names.
pub proof fn lemma_default_names_differ(a: nat, b: nat)
    requires
        a != b,
    ensures
        default_name(a) != default_name(b),
{
    let prefix = "file_upload_"@;
    if default_name(a) == default_name(b) {
        assert(default_name(a).skip(prefix.len() as int) =~= decimal(a));
        assert(default_name(b).skip(prefix.len() as int) =~= decimal(b));
        lemma_decimal_is_injective(a, b);
    }
}

/// The name of an upload is a plain name.
pub proof fn lemma_upload_name_is_plain(hint: Option<Seq<char>>, id: nat)
    ensures
        is_plain_name(upload_name(hint, id)),
{
    lemma_default_name_is_storable(id);
    if let Some(h) = hint {
        lemma_sanitized_is_plain(h);
    }
}

/// The characters of an optional string slice.
pub open spec fn hint_view(hint: Option<&str>) -> Option<Seq<char>> {
    match hint {
        Some(h) => Some(h@),
        None => None,
    }
}

/// An optional upload or its failure, as plain values.
pub open spec fn upload_view(r: Result<Upload, StorageError>) -> Result<UploadView, StorageError> {
    match r {
        Ok(u) => Ok(u@),
        Err(e) => Err(e),
    }
}

/// The state of a storage controller as plain values.
pub struct FileUploaderView {
    pub folder_path: Seq<char>,
    pub upload_count: nat,
}

/// The storage controller of one storage directory: it holds the claim on the
/// directory and counts the uploads it admits.
#[derive(Debug)]
pub struct FileUploader {
    instance_lock: InstanceLock,
    upload_count: u64,
}

impl View for FileUploader {
    type V = FileUploaderView;

    closed spec fn view(&self) -> FileUploaderView {
        FileUploaderView {
            folder_path: self.instance_lock.directory(),
            upload_count: self.upload_count as nat,
        }
    }
}

/// The status line of a controller.
pub open spec fn info_line(c: FileUploaderView) -> Seq<char> {
    "Uploaded "@ + decimal(c.upload_count) + " files to '"@ + c.folder_path + "'"@
}

/// The id that the next upload reserves, if the counter has one left.
pub open spec fn next_id(count: nat) -> Option<nat> {
    if count < u64::MAX {
        Some(count + 1)
    } else {
        None
    }
}

/// What one upload does to the controller and what it is answered: it
/// reserves the next id, which stays reserved whatever follows, and is told
/// where to write.
pub open spec fn upload_outcome(c: FileUploaderView, hint: Option<Seq<char>>) -> (
    FileUploaderView,
    Result<UploadView, StorageError>,
) {
    match next_id(c.upload_count) {
        None => (c, Err(StorageError::CounterOverflow)),
        Some(id) => (
            FileUploaderView { folder_path: c.folder_path, upload_count: id },
            destination(c.folder_path, hint, id),
        ),
    }
}

/// The default name of upload number `id`.
pub fn default_upload_name(id: u64) -> (name: String)
    ensures
        name@ == default_name(id as nat),
{
    let mut name = String::from_str("file_upload_");
    let number = to_decimal(id);
    name.append(number.as_str());
    name
}

impl FileUploader {
    /// A controller for `folder_path` with no upload counted, if the attempt
    /// to claim the directory succeeded.
    pub fn init(folder_path: &str, attempt: LockAttempt) -> (r: Result<Self, StorageError>)
        ensures
            match r {
                Ok(uploader) => lock_outcome(attempt) is Ok && uploader@ == (FileUploaderView {
                    folder_path: folder_path@,
                    upload_count: 0,
                }),
                Err(e) => lock_outcome(attempt) is Err && e == StorageError::InitializationFailed(
                    lock_outcome(attempt)->Err_0,
                ),
            },
    {
        Self::resume(folder_path, attempt, 0)
    }

    /// A controller for `folder_path` that goes on counting from
    /// `upload_count`, for a service that keeps its count over restarts.
    pub fn resume(folder_path: &str, attempt: LockAttempt, upload_count: u64) -> (r: Result<
        Self,
        StorageError,
    >)
        ensures
            match r {
                Ok(uploader) => lock_outcome(attempt) is Ok && uploader@ == (FileUploaderView {
                    folder_path: folder_path@,
                    upload_count: upload_count as nat,
                }),
                Err(e) => lock_outcome(attempt) is Err && e == StorageError::InitializationFailed(
                    lock_outcome(attempt)->Err_0,
                ),
            },
    {
        match InstanceLock::acquire(folder_path, attempt) {
            Ok(instance_lock) => Ok(FileUploader { instance_lock, upload_count }),
            Err(cause) => Err(StorageError::InitializationFailed(cause)),
        }
    }

    /// The storage directory.
    pub fn folder_path(&self) -> (path: &str)
        ensures
            path@ == self@.folder_path,
    {
        self.instance_lock.storage_path()
    }

    /// The number of uploads admitted so far.
    pub fn upload_count(&self) -> (count: u64)
        ensures
            count == self@.upload_count,
    {
        self.upload_count
    }

    /// The status line: how many uploads were admitted, and where they go.
    pub fn get_info(&self) -> (info: String)
        ensures
            info@ == info_line(self@),
    {
        let mut info = String::from_str("Uploaded ");
        let count = to_decimal(self.upload_count);
        info.append(count.as_str());
        info.append(" files to '");
        info.append(self.instance_lock.storage_path());
        info.append("'");
        info
    }

    /// Reserves the id of the next upload: one more than the count, which
    /// becomes the new count. At the maximum nothing changes and the upload is
    /// refused.
    pub fn reserve_id(&mut self) -> (r: Result<u64, StorageError>)
        ensures
            final(self)@.folder_path == old(self)@.folder_path,
            match r {
                Ok(id) => {
                    &&& next_id(old(self)@.upload_count) == Some(id as nat)
                    &&& final(self)@.upload_count == id
                },
                Err(e) => {
                    &&& e == StorageError::CounterOverflow
                    &&& next_id(old(self)@.upload_count) is None
                    &&& final(self)@ == old(self)@
                },
            },
    {
        match self.upload_count.checked_add(1) {
            Some(id) => {
                self.upload_count = id;
                Ok(id)
            },
            None => Err(StorageError::CounterOverflow),
        }
    }

    /// Names the destination of upload number `file_id`: the client's name
    /// sanitized, or the default name, below the storage directory. A name
    /// that comes down to the lock marker's is refused.
    pub fn write_file(&self, name_hint: Option<&str>, file_id: u64) -> (r: Result<
        Upload,
        StorageError,
    >)
        ensures
            upload_view(r) == destination(self@.folder_path, hint_view(name_hint), file_id as nat),
            r matches Ok(upload) ==> upload.file.wf(),
    {
        let kept = match name_hint {
            Some(hint) => sanitize(hint),
            None => None,
        };
        let name = match kept {
            Some(name) => name,
            None => default_upload_name(file_id),
        };
        proof {
            lemma_upload_name_is_plain(hint_view(name_hint), file_id as nat);
        }
        if same_text(name.as_str(), LOCK_MARKER) {
            Err(StorageError::InvalidFilename)
        } else {
            let path = join(self.instance_lock.storage_path(), name.as_str());
            Ok(Upload { id: file_id, file: Filedata { filename: name }, path })
        }
    }

    /// Admits an upload: reserves its id, then names its destination. The id
    /// stays reserved whether or not the destination is accepted and whether
    /// or not the write succeeds later.
    pub fn upload_file(&mut self, name_hint: Option<&str>) -> (r: Result<Upload, StorageError>)
        ensures
            (final(self)@, upload_view(r)) == upload_outcome(old(self)@, hint_view(name_hint)),
            r matches Ok(upload) ==> upload.file.wf(),
    {
        match self.reserve_id() {
            Ok(id) => self.write_file(name_hint, id),
            Err(e) => Err(e),
        }
    }

    /// The stored files among the entries read from the storage directory,
    /// or the failure where the directory could not be read.
    pub fn get_all_file_data(&self, listing: Option<&Vec<DirectoryEntry>>) -> (r: Result<
        Vec<Filedata>,
        StorageError,
    >)
        ensures
            match r {
                Ok(files) => {
                    &&& listing matches Some(entries)
                    &&& names_of(files@) == listed(entries@)
                    &&& forall|i: int| 0 <= i < files.len() ==> (#[trigger] files[i]).wf()
                },
                Err(e) => listing is None && e == StorageError::ListFailed,
            },
    {
        let entries = match listing {
            Some(entries) => entries,
            None => { return Err(StorageError::ListFailed); },
        };
        let ghost keep = |e: DirectoryEntry| e.is_listed();
        let ghost name = |e: DirectoryEntry| e.name@;
        let mut files: Vec<Filedata> = Vec::new();
        let mut i: usize = 0;
        while i < entries.len()
            invariant
                i <= entries.len(),
                keep == |e: DirectoryEntry| e.is_listed(),
                name == |e: DirectoryEntry| e.name@,
                names_of(files@) == entries@.take(i as int).filter(keep).map_values(name),
                forall|k: int| 0 <= k < files.len() ==> (#[trigger] files[k]).wf(),
            decreases entries.len() - i,
        {
            let entry = &entries[i];
            let ghost seen = entries@.take(i as int);
            proof {
                assert(entries@.take(i + 1) =~= seen.push(*entry));
                Seq::lemma_filter_push(seen, *entry, keep);
            }
            if let Some(file) = Filedata::from_entry(entry) {
                files.push(file);
                assert(seen.filter(keep).push(*entry).map_values(name) =~= seen.filter(
                    keep,
                ).map_values(name).push(entry.name@));
            }
            i += 1;
        }
        assert(entries@.take(i as int) =~= entries@);
        Ok(files)
    }

    /// The path to open for a download, if the name asked for is one that a
    /// download may ask for. Whether a file lies there is for the caller to
    /// find out: a name that is refused and a file that is missing are both
    /// "not found".
    pub fn download_file(&self, query: &FileDownloadQuery) -> (r: Option<String>)
        ensures
            match r {
                Some(path) => resolved(self@.folder_path, query.filename@) == Some(path@),
                None => resolved(self@.folder_path, query.filename@) is None,
            },
    {
        if is_valid_download(query.filename.as_str()) {
            Some(join(self.instance_lock.storage_path(), query.filename.as_str()))
        } else {
            None
        }
    }

    /// The end of an upload: the stored file if its bytes were written and
    /// flushed, the failure if they were not.
    pub fn finish_upload(upload: Upload, written: bool) -> (r: Result<Filedata, StorageError>)
        ensures
            match r {
                Ok(file) => written && file == upload.file,
                Err(e) => !written && e == StorageError::UploadFailed,
            },
    {
        if written {
            Ok(upload.file)
        } else {
            Err(StorageError::UploadFailed)
        }
    }
}

/// The ids that `n` uploads in a row reserve, starting from a counter that
/// stands at `count`. Reservations are made one at a time, so uploads that
/// run side by side reserve in some such row.
pub open spec fn reserved_ids(count: nat, n: nat) -> Seq<nat>
    decreases n,
{
    if n == 0 {
        Seq::empty()
    } else {
        match next_id(count) {
            Some(id) => seq![id] + reserved_ids(id, (n - 1) as nat),
            None => Seq::empty(),
        }
    }
}

/// The controller after the uploads named by `hints`, one after the other, and
/// what each of them was answered.
pub open spec fn uploads(c: FileUploaderView, hints: Seq<Option<Seq<char>>>) -> (
    FileUploaderView,
    Seq<Result<UploadView, StorageError>>,
)
    decreases hints.len(),
{
    if hints.len() == 0 {
        (c, Seq::empty())
    } else {
        let (before, answers) = uploads(c, hints.drop_last());
        let (after, answer) = upload_outcome(before, hints.last());
        (after, answers.push(answer))
    }
}

/// While the counter has room, `n` uploads reserve the `n` ids that follow
/// the count, in order: none twice and none left out. From a fresh controller
/// these are 1 to `n`.
pub proof fn lemma_reserved_ids_are_consecutive(count: nat, n: nat)
    requires
        count + n <= u64::MAX,
    ensures
        reserved_ids(count, n).len() == n,
        forall|k: int| 0 <= k < n ==> #[trigger] reserved_ids(count, n)[k] == count + k + 1,
        forall|j: int, k: int|
            0 <= j < k < n ==> #[trigger] reserved_ids(count, n)[j] != #[trigger] reserved_ids(
                count,
                n,
            )[k],
    decreases n,
{
    if n > 0 {
        lemma_reserved_ids_are_consecutive(count + 1, (n - 1) as nat);
    }
}

/// An upload never lowers the count, raises it by one at most, and leaves the
/// storage directory as it is.
pub proof fn lemma_count_only_grows(c: FileUploaderView, hint: Option<Seq<char>>)
    requires
        c.upload_count <= u64::MAX,
    ensures
        upload_outcome(c, hint).0.folder_path == c.folder_path,
        c.upload_count <= upload_outcome(c, hint).0.upload_count <= c.upload_count + 1,
        upload_outcome(c, hint).0.upload_count <= u64::MAX,
        upload_outcome(c, hint).0.upload_count == c.upload_count <==> upload_outcome(c, hint).1
            == Err::<UploadView, StorageError>(StorageError::CounterOverflow),
{
}

/// While the counter has room, every one of a row of uploads is counted and
/// reserves the id that its place in the row gives it, whatever becomes of
/// it afterwards.
pub proof fn lemma_uploads_are_counted(c: FileUploaderView, hints: Seq<Option<Seq<char>>>)
    requires
        c.upload_count + hints.len() <= u64::MAX,
    ensures
        uploads(c, hints).0.folder_path == c.folder_path,
        uploads(c, hints).0.upload_count == c.upload_count + hints.len(),
        uploads(c, hints).1.len() == hints.len(),
        forall|k: int|
            0 <= k < hints.len() ==> #[trigger] uploads(c, hints).1[k] == destination(
                c.folder_path,
                hints[k],
                reserved_ids(c.upload_count, hints.len())[k],
            ),
    decreases hints.len(),
{
    let n = hints.len();
    lemma_reserved_ids_are_consecutive(c.upload_count, n);
    if n > 0 {
        let front = hints.drop_last();
        lemma_uploads_are_counted(c, front);
        lemma_reserved_ids_are_consecutive(c.upload_count, front.len());
    }
}

/// Uploads under plain names that differ from each other and from the lock
/// marker's are all admitted and counted, each is stored under its own name,
/// and no two of them are written to the same path.
pub proof fn lemma_distinct_names_give_distinct_files(
    c: FileUploaderView,
    hints: Seq<Option<Seq<char>>>,
)
    requires
        c.upload_count + hints.len() <= u64::MAX,
        forall|k: int|
            0 <= k < hints.len() ==> (#[trigger] hints[k]) is Some && is_storable_name(
                hints[k]->0,
            ),
        forall|j: int, k: int| 0 <= j < k < hints.len() ==> hints[j] != hints[k],
    ensures
        uploads(c, hints).0.upload_count == c.upload_count + hints.len(),
        forall|k: int|
            0 <= k < hints.len() ==> (#[trigger] uploads(c, hints).1[k]) == Ok::<
                UploadView,
                StorageError,
            >(
                UploadView {
                    id: (c.upload_count + k + 1) as nat,
                    name: hints[k]->0,
                    path: joined(c.folder_path, hints[k]->0),
                },
            ),
        forall|j: int, k: int|
            0 <= j < k < hints.len() ==> (#[trigger] uploads(c, hints).1[j])->Ok_0.path != (
            #[trigger] uploads(c, hints).1[k])->Ok_0.path,
{
    lemma_uploads_are_counted(c, hints);
    let answers = uploads(c, hints).1;
    lemma_reserved_ids_are_consecutive(c.upload_count, hints.len());
    assert forall|k: int| 0 <= k < hints.len() implies (#[trigger] answers[k]) == Ok::<
        UploadView,
        StorageError,
    >(
        UploadView {
            id: (c.upload_count + k + 1) as nat,
            name: hints[k]->0,
            path: joined(c.folder_path, hints[k]->0),
        },
    ) by {
        lemma_plain_name_is_kept(hints[k]->0);
    }
    assert forall|j: int, k: int| 0 <= j < k < hints.len() implies (#[trigger] answers[j])->Ok_0.path
        != (#[trigger] answers[k])->Ok_0.path by {
        lemma_plain_name_is_direct_child(c.folder_path, hints[j]->0);
        lemma_plain_name_is_direct_child(c.folder_path, hints[k]->0);
    }
}

/// Wherever an upload is written, it lies in the storage directory itself:
/// the path is the directory's with the stored name as its final segment, and
/// the stored name is a plain name, whatever separators, roots or drive
/// prefixes the client's name held.
pub proof fn lemma_upload_lands_in_directory(folder: Seq<char>, hint: Option<Seq<char>>, id: nat)
    ensures
        destination(folder, hint, id) matches Ok(upload) ==> {
            &&& is_storable_name(upload.name)
            &&& upload.path == joined(folder, upload.name)
            &&& final_segment(upload.path) == Some(upload.name)
        },
{
    lemma_upload_name_is_plain(hint, id);
    lemma_plain_name_is_direct_child(folder, upload_name(hint, id));
}

/// A client's name with directories in front of a plain name is stored under
/// the plain name alone: `a/b/c.txt` under `c.txt`.
pub proof fn lemma_upload_drops_directories(
    folder: Seq<char>,
    dir: Seq<char>,
    sep: char,
    name: Seq<char>,
    id: nat,
)
    requires
        is_separator(sep),
        is_storable_name(name),
    ensures
        destination(folder, Some(dir.push(sep) + name), id) == Ok::<UploadView, StorageError>(
            UploadView { id, name, path: joined(folder, name) },
        ),
{
    lemma_directories_are_dropped(dir, sep, name);
}

/// No download resolves the empty name, an absolute path, a name with a drive
/// prefix or a name with a `..` segment: each is "not found".
pub proof fn lemma_traversal_is_not_found(folder: Seq<char>, name: Seq<char>)
    requires
        name.len() == 0 || is_rooted(name) || has_drive_prefix(name) || has_parent_segment(name),
    ensures
        resolved(folder, name) is None,
{
}

/// A download never leaves the storage directory: the path it opens starts
/// with the directory's path and takes no step to a parent that the
/// directory's own path does not take.
pub proof fn lemma_download_stays_in_directory(folder: Seq<char>, name: Seq<char>)
    ensures
        resolved(folder, name) matches Some(path) ==> {
            &&& folder.is_prefix_of(path)
            &&& forall|i: int| is_parent_segment_at(path, i) ==> is_parent_segment_at(folder, i)
        },
{
    if is_valid_download_name(name) {
        lemma_joined_extends_base(folder, name);
        lemma_joined_stays_below(folder, name);
    }
}

/// Whatever is listed or was stored by an upload can be asked for under its
/// name, and the download opens the path that the upload was written to.
pub proof fn lemma_stored_file_can_be_downloaded(folder: Seq<char>, name: Seq<char>)
    requires
        is_storable_name(name),
    ensures
        resolved(folder, name) == Some(joined(folder, name)),
{
    lemma_plain_name_can_be_downloaded(name);
}

} // verus!

//! The files of the notification store: which are touched in which order, and
//! which are trusted.

use vstd::prelude::*;

use crate::error::{fault_of, invalid, malformed, told, ErrorKind, Fault, SessionError};
use crate::ids::{random_uuid, uuid_hyphenated, uuid_text};
use crate::notifications::document::{
    document_views, NotificationDocument, Preferences, DURABLE_SCHEMA_VERSION,
};
use crate::notifications::journal::LogPlan;
use crate::notifications::model::Refusal;
use crate::notifications::replay::{require_durable_version, version_refusal};
use crate::notifications::store::{
    first_refusal, refused, validate_documents, verdict_views, MAX_DURABLE_FILE_BYTES,
};
use crate::paths::{absolute_path, has_zero, is_absolute, same_name, SEPARATOR};

verus! {

// ---------------------------------------------------------------------------
// The order of a write
// ---------------------------------------------------------------------------

/// How far a write has come.
#[derive(Debug, Clone, Copy, PartialEq, Eq, Structural)]
pub enum NotificationCommitStage {
    LegacyMigration,
    CheckpointPublished,
    SegmentRotated,
    AppendWritten,
    AppendFileSynced,
    AppendDirectorySynced,
    RecordAppended,
    JournalCommitted,
    ActiveCommitted,
    ArchiveCommitted,
    PreferencesCommitted,
    JournalRemoved,
    DirectorySynced,
}

/// The stages of a write as they were before the log had segments.
pub open spec fn first_stages() -> Seq<NotificationCommitStage> {
    seq![
        NotificationCommitStage::JournalCommitted,
        NotificationCommitStage::ActiveCommitted,
        NotificationCommitStage::ArchiveCommitted,
        NotificationCommitStage::PreferencesCommitted,
        NotificationCommitStage::JournalRemoved,
        NotificationCommitStage::DirectorySynced,
    ]
}

/// The stages of a write since the log has segments.
pub open spec fn segment_stages() -> Seq<NotificationCommitStage> {
    seq![
        NotificationCommitStage::LegacyMigration,
        NotificationCommitStage::CheckpointPublished,
        NotificationCommitStage::SegmentRotated,
        NotificationCommitStage::AppendWritten,
        NotificationCommitStage::AppendFileSynced,
        NotificationCommitStage::AppendDirectorySynced,
        NotificationCommitStage::RecordAppended,
    ]
}

impl NotificationCommitStage {
    pub fn all() -> (stages: Vec<NotificationCommitStage>)
        ensures
            stages@ == first_stages(),
    {
        let stages = vec![
            NotificationCommitStage::JournalCommitted,
            NotificationCommitStage::ActiveCommitted,
            NotificationCommitStage::ArchiveCommitted,
            NotificationCommitStage::PreferencesCommitted,
            NotificationCommitStage::JournalRemoved,
            NotificationCommitStage::DirectorySynced,
        ];
        assert(stages@ =~= first_stages());
        stages
    }

    pub fn v2_all() -> (stages: Vec<NotificationCommitStage>)
        ensures
            stages@ == segment_stages(),
    {
        let stages = vec![
            NotificationCommitStage::LegacyMigration,
            NotificationCommitStage::CheckpointPublished,
            NotificationCommitStage::SegmentRotated,
            NotificationCommitStage::AppendWritten,
            NotificationCommitStage::AppendFileSynced,
            NotificationCommitStage::AppendDirectorySynced,
            NotificationCommitStage::RecordAppended,
        ];
        assert(stages@ =~= segment_stages());
        stages
    }
}

/// Is told how far a write has come, and can end it there.
pub trait NotificationCommitObserver: Send + Sync {
    fn reached(&self, stage: NotificationCommitStage) -> Result<(), SessionError>;
}

/// A file that an older store has left.
#[derive(Debug, Clone, Copy, PartialEq, Eq, Structural)]
pub enum LegacyFile {
    Active,
    Archive,
    Preferences,
}

/// The name of a file and that of its backup.
pub open spec fn legacy_titles(file: LegacyFile) -> (Seq<char>, Seq<char>) {
    match file {
        LegacyFile::Active => ("active.json"@, "legacy-active.json"@),
        LegacyFile::Archive => ("archive.json"@, "legacy-archive.json"@),
        LegacyFile::Preferences => ("preferences.json"@, "legacy-preferences.json"@),
    }
}

pub fn legacy_names(file: LegacyFile) -> (names: (&'static str, &'static str))
    ensures
        (names.0@, names.1@) == legacy_titles(file),
{
    match file {
        LegacyFile::Active => ("active.json", "legacy-active.json"),
        LegacyFile::Archive => ("archive.json", "legacy-archive.json"),
        LegacyFile::Preferences => ("preferences.json", "legacy-preferences.json"),
    }
}

/// One thing that is done to the files.
#[derive(Debug, Clone, Copy, PartialEq, Eq, Structural)]
pub enum FileStep {
    /// Copies a file, if it is there, to its backup.
    Backup(LegacyFile),
    /// Replaces the checkpoint by one with this sequence number.
    Checkpoint(u64),
    /// Empties the first segment.
    EmptyFirstSegment,
    RemoveSegment(usize),
    /// Cuts a segment to a length.
    Truncate(usize, usize),
    /// Appends the record to a segment.
    Append(usize),
    /// Waits until the segment is on the disk.
    SyncFile,
    /// Waits until the directory is on the disk.
    SyncDirectory,
    /// Tells the observer.
    Observe(NotificationCommitStage),
}

/// The removal of the segments after the first, up to one.
pub open spec fn removals(through: nat) -> Seq<FileStep>
    decreases through,
{
    if through == 0 {
        Seq::empty()
    } else {
        removals((through - 1) as nat).push(FileStep::RemoveSegment(through as usize))
    }
}

/// What publishing a checkpoint does: the segments go only when the checkpoint
/// is there.
pub open spec fn checkpoint_steps(sequence: u64, through: usize) -> Seq<FileStep> {
    seq![
        FileStep::Checkpoint(sequence),
        FileStep::Observe(NotificationCommitStage::CheckpointPublished),
        FileStep::EmptyFirstSegment,
    ] + removals(through as nat) + seq![
        FileStep::SyncDirectory,
        FileStep::Observe(NotificationCommitStage::SegmentRotated),
    ]
}

/// What taking over an older store does.
pub open spec fn import_steps(through: usize) -> Seq<FileStep> {
    seq![
        FileStep::Backup(LegacyFile::Active),
        FileStep::Backup(LegacyFile::Archive),
        FileStep::Backup(LegacyFile::Preferences),
        FileStep::Observe(NotificationCommitStage::LegacyMigration),
    ] + checkpoint_steps(0, through)
}

/// What appending a record does.
pub open spec fn append_steps(segment: usize) -> Seq<FileStep> {
    seq![
        FileStep::Append(segment),
        FileStep::Observe(NotificationCommitStage::AppendWritten),
        FileStep::Observe(NotificationCommitStage::JournalCommitted),
        FileStep::Observe(NotificationCommitStage::ActiveCommitted),
        FileStep::SyncFile,
        FileStep::Observe(NotificationCommitStage::AppendFileSynced),
        FileStep::Observe(NotificationCommitStage::ArchiveCommitted),
        FileStep::Observe(NotificationCommitStage::PreferencesCommitted),
        FileStep::SyncDirectory,
        FileStep::Observe(NotificationCommitStage::AppendDirectorySynced),
        FileStep::Observe(NotificationCommitStage::JournalRemoved),
        FileStep::Observe(NotificationCommitStage::DirectorySynced),
        FileStep::Observe(NotificationCommitStage::RecordAppended),
    ]
}

/// What is done before a record is appended.
pub open spec fn preparation(plan: LogPlan) -> Seq<FileStep> {
    (if plan.import_legacy {
        import_steps(plan.discarded_through)
    } else {
        Seq::empty()
    }) + (match plan.truncate {
        Some((segment, length)) => seq![FileStep::Truncate(segment, length)],
        None => Seq::empty(),
    }) + (match plan.checkpoint {
        Some(sequence) => checkpoint_steps(sequence, plan.discarded_through),
        None => if plan.rotated {
            seq![FileStep::Observe(NotificationCommitStage::SegmentRotated)]
        } else {
            Seq::empty()
        },
    })
}

/// Everything that makes one record durable.
pub open spec fn plan_steps(plan: LogPlan) -> Seq<FileStep> {
    preparation(plan) + append_steps(plan.segment)
}

/// What publishing a checkpoint does.
pub fn steps_of_checkpoint(sequence: u64, through: usize) -> (steps: Vec<FileStep>)
    ensures
        steps@ == checkpoint_steps(sequence, through),
{
    let mut steps = vec![
        FileStep::Checkpoint(sequence),
        FileStep::Observe(NotificationCommitStage::CheckpointPublished),
        FileStep::EmptyFirstSegment,
    ];
    let ghost start = steps@;
    assert(start =~= start + removals(0));
    for index in 0..through
        invariant
            steps@ == start + removals(index as nat),
    {
        steps.push(FileStep::RemoveSegment(index + 1));
        assert(steps@ =~= start + removals((index + 1) as nat));
    }
    steps.push(FileStep::SyncDirectory);
    steps.push(FileStep::Observe(NotificationCommitStage::SegmentRotated));
    assert(steps@ =~= checkpoint_steps(sequence, through));
    steps
}

fn steps_of_import(through: usize) -> (steps: Vec<FileStep>)
    ensures
        steps@ == import_steps(through),
{
    let mut steps = vec![
        FileStep::Backup(LegacyFile::Active),
        FileStep::Backup(LegacyFile::Archive),
        FileStep::Backup(LegacyFile::Preferences),
        FileStep::Observe(NotificationCommitStage::LegacyMigration),
    ];
    let mut rest = steps_of_checkpoint(0, through);
    steps.append(&mut rest);
    assert(steps@ =~= import_steps(through));
    steps
}

fn steps_of_append(segment: usize) -> (steps: Vec<FileStep>)
    ensures
        steps@ == append_steps(segment),
{
    let steps = vec![
        FileStep::Append(segment),
        FileStep::Observe(NotificationCommitStage::AppendWritten),
        FileStep::Observe(NotificationCommitStage::JournalCommitted),
        FileStep::Observe(NotificationCommitStage::ActiveCommitted),
        FileStep::SyncFile,
        FileStep::Observe(NotificationCommitStage::AppendFileSynced),
        FileStep::Observe(NotificationCommitStage::ArchiveCommitted),
        FileStep::Observe(NotificationCommitStage::PreferencesCommitted),
        FileStep::SyncDirectory,
        FileStep::Observe(NotificationCommitStage::AppendDirectorySynced),
        FileStep::Observe(NotificationCommitStage::JournalRemoved),
        FileStep::Observe(NotificationCommitStage::DirectorySynced),
        FileStep::Observe(NotificationCommitStage::RecordAppended),
    ];
    assert(steps@ =~= append_steps(segment));
    steps
}

/// Everything that makes one record durable, in the order in which it is done.
/// The first step that fails ends the write.
pub fn append_operation_steps(plan: &LogPlan) -> (steps: Vec<FileStep>)
    ensures
        steps@ == plan_steps(*plan),
{
    let mut steps: Vec<FileStep> = Vec::new();
    if plan.import_legacy {
        steps = steps_of_import(plan.discarded_through);
    }
    if let Some((segment, length)) = plan.truncate {
        steps.push(FileStep::Truncate(segment, length));
    }
    if let Some(sequence) = plan.checkpoint {
        let mut rest = steps_of_checkpoint(sequence, plan.discarded_through);
        steps.append(&mut rest);
    } else if plan.rotated {
        steps.push(FileStep::Observe(NotificationCommitStage::SegmentRotated));
    }
    assert(steps@ =~= preparation(*plan));
    let mut rest = steps_of_append(plan.segment);
    steps.append(&mut rest);
    assert(steps@ =~= plan_steps(*plan));
    steps
}

proof fn removals_only_remove(through: nat)
    ensures
        forall|i: int| 0 <= i < removals(through).len() ==> (#[trigger] removals(
            through,
        )[i]) is RemoveSegment,
    decreases through,
{
    if through > 0 {
        removals_only_remove((through - 1) as nat);
    }
}

/// A record is appended once, and it is acknowledged last: by then the segment
/// and after it the directory are on the disk.
pub proof fn a_record_is_on_the_disk_before_it_is_acknowledged(plan: LogPlan)
    ensures
        ({
            let steps = plan_steps(plan);
            let at = preparation(plan).len() as int;
            &&& steps[at] == FileStep::Append(plan.segment)
            &&& steps[at + 4] == FileStep::SyncFile
            &&& steps[at + 8] == FileStep::SyncDirectory
            &&& steps[at + 12] == FileStep::Observe(NotificationCommitStage::RecordAppended)
            &&& steps.len() == at + 13
            &&& forall|i: int|
                0 <= i < steps.len() ==> {
                    &&& (#[trigger] steps[i]) is Append ==> i == at
                    &&& steps[i] == FileStep::Observe(NotificationCommitStage::RecordAppended)
                        ==> i == at + 12
                }
        }),
{
    let steps = plan_steps(plan);
    let before = preparation(plan);
    removals_only_remove(plan.discarded_through as nat);
    assert forall|i: int| 0 <= i < before.len() implies !((#[trigger] before[i]) is Append)
        && before[i] != FileStep::Observe(NotificationCommitStage::RecordAppended) by {
    }
    let end = append_steps(plan.segment);
    assert forall|i: int| 0 <= i < steps.len() implies {
        &&& (#[trigger] steps[i]) is Append ==> i == before.len()
        &&& steps[i] == FileStep::Observe(NotificationCommitStage::RecordAppended) ==> i
            == before.len() + 12
    } by {
        if i < before.len() {
            assert(steps[i] == before[i]);
        } else {
            assert(steps[i] == end[i - before.len()]);
        }
    }
}

/// No segment is emptied or removed before the checkpoint that covers it was
/// published.
pub proof fn segments_go_only_after_their_checkpoint(sequence: u64, through: usize, at: int)
    requires
        0 <= at < checkpoint_steps(sequence, through).len(),
        checkpoint_steps(sequence, through)[at] is EmptyFirstSegment || checkpoint_steps(
            sequence,
            through,
        )[at] is RemoveSegment,
    ensures
        checkpoint_steps(sequence, through)[0] == FileStep::Checkpoint(sequence),
        at > 0,
{
}

// ---------------------------------------------------------------------------
// Which files are trusted
// ---------------------------------------------------------------------------

pub open spec fn unsafe_fault() -> Fault {
    (ErrorKind::PermissionDenied, "unsafe notification state path"@)
}

/// The error for a path or a file that is not trusted.
pub fn unsafe_path() -> (error: SessionError)
    ensures
        fault_of(error) == unsafe_fault(),
{
    SessionError::new(ErrorKind::PermissionDenied, "unsafe notification state path")
}

/// Whether bytes name an entry of a directory, and nothing above or below it.
pub open spec fn is_component_name(name: Seq<u8>) -> bool {
    &&& name.len() > 0
    &&& name != seq![0x2eu8]
    &&& name != seq![0x2eu8, 0x2eu8]
    &&& !name.contains(SEPARATOR)
    &&& !name.contains(0u8)
}

/// Accepts the name of an entry of a directory.
pub fn component_name(name: &[u8]) -> (checked: Result<(), SessionError>)
    ensures
        told(checked) == if is_component_name(name@) {
            Ok(())
        } else {
            Err(unsafe_fault())
        },
{
    if name.len() == 0 || has_zero(name) {
        return Err(unsafe_path());
    }
    let dot: Vec<u8> = vec![0x2e];
    let dots: Vec<u8> = vec![0x2e, 0x2e];
    assert(dot@ =~= seq![0x2eu8]);
    assert(dots@ =~= seq![0x2eu8, 0x2eu8]);
    if same_name(name, dot.as_slice()) || same_name(name, dots.as_slice()) {
        return Err(unsafe_path());
    }
    for i in 0..name.len()
        invariant
            forall|j: int| 0 <= j < i ==> name@[j] != SEPARATOR,
    {
        if name[i] == SEPARATOR {
            assert(name@[i as int] == SEPARATOR);
            return Err(unsafe_path());
        }
    }
    Ok(())
}

/// Accepts an absolute path of the directory of the store.
pub fn check_state_path(path: &[u8]) -> (checked: Result<(), SessionError>)
    ensures
        told(checked) == if is_absolute(path@) {
            Ok(())
        } else {
            Err((ErrorKind::InvalidInput, "notification state path must be absolute"@))
        },
{
    if !absolute_path(path) {
        return Err(
            SessionError::new(
                ErrorKind::InvalidInput,
                "notification state path must be absolute",
            ),
        );
    }
    Ok(())
}

/// What is known of an open file.
#[derive(Debug, Clone, Copy, PartialEq, Eq, Structural)]
pub struct OpenFile {
    pub directory: bool,
    pub regular: bool,
    pub mode: u32,
    pub uid: u32,
}

/// Accepts the directory of the store: the user's, and nobody else may write it.
pub fn validate_directory(file: OpenFile, uid: u32) -> (checked: Result<(), SessionError>)
    ensures
        told(checked) == if file.directory && file.uid == uid && file.mode & 0o022 == 0 {
            Ok(())
        } else {
            Err(unsafe_fault())
        },
{
    if !file.directory || file.uid != uid || file.mode & 0o022 != 0 {
        return Err(unsafe_path());
    }
    Ok(())
}

/// Accepts a file of the store: a regular file that only the user may use.
pub fn validate_private_file(file: OpenFile, uid: u32) -> (checked: Result<(), SessionError>)
    ensures
        told(checked) == if file.regular && file.uid == uid && file.mode & 0o777 == 0o600 {
            Ok(())
        } else {
            Err(unsafe_fault())
        },
{
    if !file.regular || file.uid != uid || file.mode & 0o777 != 0o600 {
        return Err(unsafe_path());
    }
    Ok(())
}

/// Accepts the contents of a file of the store, as far as their size goes.
pub fn check_file_size(length: usize) -> (checked: Result<(), SessionError>)
    ensures
        told(checked) == if length > MAX_DURABLE_FILE_BYTES {
            malformed("notification state exceeds 64 MiB"@)
        } else {
            Ok(())
        },
{
    if length > MAX_DURABLE_FILE_BYTES {
        return invalid("notification state exceeds 64 MiB");
    }
    Ok(())
}

/// The name of a file while it is written.
pub open spec fn temporary_title(name: Seq<char>, id: u128) -> Seq<char> {
    seq!['.'] + name + seq!['.'] + uuid_hyphenated(id) + ".tmp"@
}

pub fn temporary_name(name: &str, id: u128) -> (temporary: String)
    ensures
        temporary@ == temporary_title(name@, id),
{
    let mut temporary = String::new();
    temporary.push('.');
    temporary.append(name);
    temporary.push('.');
    temporary.append(uuid_text(id).as_str());
    temporary.append(".tmp");
    assert(temporary@ =~= temporary_title(name@, id));
    temporary
}

/// A name for a file while it is written, different from every other.
pub fn fresh_temporary_name(name: &str) -> (temporary: String)
    ensures
        exists|id: u128| #[trigger] temporary_title(name@, id) == temporary@,
{
    temporary_name(name, random_uuid())
}

// ---------------------------------------------------------------------------
// What an older store left
// ---------------------------------------------------------------------------

/// A write that an older store began and did not end.
pub struct Transaction {
    pub schema_version: u32,
    pub active: Vec<NotificationDocument>,
    pub archive: Vec<NotificationDocument>,
    pub preferences: Preferences,
}

pub open spec fn version_objection(version: u32) -> Option<Refusal> {
    if version == DURABLE_SCHEMA_VERSION {
        None
    } else {
        Some(version_refusal(version))
    }
}

/// What is wrong with a write that was not ended.
pub open spec fn transaction_objection(
    transaction: Transaction,
    active: Seq<Option<Seq<char>>>,
    archive: Seq<Option<Seq<char>>>,
) -> Option<Refusal> {
    if version_objection(transaction.schema_version) is Some {
        version_objection(transaction.schema_version)
    } else if version_objection(transaction.preferences.schema_version) is Some {
        version_objection(transaction.preferences.schema_version)
    } else if first_refusal(document_views(transaction.active@), active) is Some {
        first_refusal(document_views(transaction.active@), active)
    } else {
        first_refusal(document_views(transaction.archive@), archive)
    }
}

/// Accepts a write that was not ended, so that it can be ended now. The verdicts
/// are what the schema validator objects to in each document.
pub fn reconcile(
    transaction: &Transaction,
    active: &[Option<String>],
    archive: &[Option<String>],
) -> (checked: Result<(), SessionError>)
    requires
        active@.len() == transaction.active@.len(),
        archive@.len() == transaction.archive@.len(),
    ensures
        match transaction_objection(
            *transaction,
            verdict_views(active@),
            verdict_views(archive@),
        ) {
            Some(refusal) => refused(checked, refusal),
            None => checked is Ok,
        },
{
    if let Err(error) = require_durable_version(transaction.schema_version) {
        return Err(error);
    }
    if let Err(error) = require_durable_version(transaction.preferences.schema_version) {
        return Err(error);
    }
    if let Err(error) = validate_documents(transaction.active.as_slice(), active) {
        return Err(error);
    }
    validate_documents(transaction.archive.as_slice(), archive)
}

/// Accepts the documents of a file of an older store.
pub fn read_documents(
    schema_version: u32,
    documents: &[NotificationDocument],
    verdicts: &[Option<String>],
) -> (checked: Result<(), SessionError>)
    requires
        verdicts@.len() == documents@.len(),
    ensures
        match version_objection(schema_version) {
            Some(refusal) => refused(checked, refusal),
            None => match first_refusal(document_views(documents@), verdict_views(verdicts@)) {
                Some(refusal) => refused(checked, refusal),
                None => checked is Ok,
            },
        },
{
    if let Err(error) = require_durable_version(schema_version) {
        return Err(error);
    }
    validate_documents(documents, verdicts)
}

/// The preferences of an older store; those of a new one where there are none.
pub fn read_preferences(found: Option<Preferences>) -> (preferences: Result<
    Preferences,
    SessionError,
>)
    ensures
        match found {
            None => preferences == Ok::<Preferences, SessionError>(
                Preferences {
                    schema_version: DURABLE_SCHEMA_VERSION,
                    dnd: false,
                    next_notification_id: 1,
                },
            ),
            Some(found) => match version_objection(found.schema_version) {
                Some(refusal) => refused(preferences, refusal),
                None => preferences == Ok::<Preferences, SessionError>(found),
            },
        },
{
    match found {
        None => Ok(
            Preferences {
                schema_version: DURABLE_SCHEMA_VERSION,
                dnd: false,
                next_notification_id: 1,
            },
        ),
        Some(found) => match require_durable_version(found.schema_version) {
            Ok(()) => Ok(found),
            Err(error) => Err(error),
        },
    }
}

} // verus!

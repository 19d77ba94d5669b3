//! Recovery of the notification store from a checkpoint and the log after it.

use vstd::prelude::*;

use crate::error::{ErrorKind, SessionError};
use crate::notifications::document::{
    document_views, NotificationDocument, NotificationView, Preferences, DURABLE_SCHEMA_VERSION,
};
use crate::notifications::journal::{
    CHECKPOINT_LOG_BYTES, CHECKPOINT_OPERATION_INTERVAL, SEGMENT_LIMIT_BYTES,
};
use crate::notifications::model::{
    all_expired_by_replay, archived_by_replay, effect, effect_keeps_well_formed, expired_by_replay,
    issued_in, place, place_facts, replay_matches_effect, replayed, without_id, OperationView,
    Refusal, StoreView,
};
use crate::notifications::store::{
    ids_valid, refused, validate_unique_ids, RecoveredState, StoreOperation,
};
use crate::text::{decimal, decimal_text};

verus! {

/// One line of the log, read back.
pub struct SegmentRecord {
    pub schema_version: u32,
    pub sequence: u64,
    pub operation: StoreOperation,
}

/// The state at some sequence number.
pub struct StoreCheckpoint {
    pub schema_version: u32,
    pub storage_version: u32,
    pub sequence: u64,
    pub active: Vec<NotificationDocument>,
    pub archive: Vec<NotificationDocument>,
    pub preferences: Preferences,
}

/// One segment file: its length, the length of its complete part, and each line
/// of that part as a record or as the reason why it is none.
pub struct SegmentContents {
    pub length: usize,
    pub valid_length: usize,
    pub records: Vec<Result<SegmentRecord, String>>,
}

/// A record as a mathematical value.
pub struct RecordView {
    pub schema_version: u32,
    pub sequence: u64,
    pub operation: OperationView,
}

pub open spec fn parsed_view(parsed: Result<SegmentRecord, String>) -> Result<
    RecordView,
    Seq<char>,
> {
    match parsed {
        Ok(record) => Ok(
            RecordView {
                schema_version: record.schema_version,
                sequence: record.sequence,
                operation: record.operation@,
            },
        ),
        Err(message) => Err(message@),
    }
}

pub open spec fn parsed_views(records: Seq<Result<SegmentRecord, String>>) -> Seq<
    Result<RecordView, Seq<char>>,
> {
    records.map_values(|parsed: Result<SegmentRecord, String>| parsed_view(parsed))
}

/// How far recovery has come.
#[verifier::ext_equal]
pub struct Progress {
    pub state: StoreView,
    pub latest: u64,
    pub applied: u64,
}

pub open spec fn version_refusal(version: u32) -> Refusal {
    (
        ErrorKind::InvalidData,
        "unsupported notification durable schema version "@ + decimal(version as nat),
    )
}

pub open spec fn saturating_next(n: u64) -> u64 {
    if n == u64::MAX {
        u64::MAX
    } else {
        (n + 1) as u64
    }
}

/// Takes one line of the log into account.
pub open spec fn step(
    progress: Progress,
    checkpoint: u64,
    line: Result<RecordView, Seq<char>>,
    capacity: int,
) -> Result<Progress, Refusal> {
    match line {
        Err(message) => Err((ErrorKind::InvalidData, message)),
        Ok(record) => if record.schema_version != DURABLE_SCHEMA_VERSION {
            Err(version_refusal(record.schema_version))
        } else if record.sequence <= checkpoint {
            Ok(progress)
        } else if record.sequence != saturating_next(progress.latest) {
            Err((ErrorKind::InvalidData, "notification segment sequence is not contiguous"@))
        } else {
            match replayed(progress.state, record.operation, capacity) {
                Err(refusal) => Err(refusal),
                Ok(state) => Ok(
                    Progress {
                        state,
                        latest: record.sequence,
                        applied: saturating_next(progress.applied),
                    },
                ),
            }
        },
    }
}

/// Takes lines of the log into account, in their order.
pub open spec fn steps(
    progress: Progress,
    checkpoint: u64,
    lines: Seq<Result<RecordView, Seq<char>>>,
    capacity: int,
) -> Result<Progress, Refusal>
    decreases lines.len(),
{
    if lines.len() == 0 {
        Ok(progress)
    } else {
        match steps(progress, checkpoint, lines.drop_last(), capacity) {
            Err(refusal) => Err(refusal),
            Ok(before) => step(before, checkpoint, lines.last(), capacity),
        }
    }
}

/// A segment as a mathematical value.
pub struct SegmentView {
    pub length: int,
    pub valid_length: int,
    pub lines: Seq<Result<RecordView, Seq<char>>>,
}

pub open spec fn segment_view(segment: SegmentContents) -> SegmentView {
    SegmentView {
        length: segment.length as int,
        valid_length: segment.valid_length as int,
        lines: parsed_views(segment.records@),
    }
}

pub open spec fn segment_views(segments: Seq<SegmentContents>) -> Seq<SegmentView> {
    segments.map_values(|segment: SegmentContents| segment_view(segment))
}

/// How far recovery has come through the segments.
#[verifier::ext_equal]
pub struct LogProgress {
    pub progress: Progress,
    pub segment_index: int,
    pub segment_bytes: int,
    pub log_bytes: int,
    pub tail_repair: Option<(int, int)>,
}

/// Takes the segment with an index into account.
pub open spec fn segment_step(
    before: LogProgress,
    checkpoint: u64,
    index: int,
    segment: SegmentView,
    capacity: int,
) -> Result<LogProgress, Refusal> {
    if segment.length > SEGMENT_LIMIT_BYTES {
        Err((ErrorKind::InvalidData, "notification segment exceeds 4 MiB"@))
    } else if before.log_bytes + segment.length > CHECKPOINT_LOG_BYTES {
        Err((ErrorKind::InvalidData, "notification log exceeds checkpoint interval"@))
    } else {
        match steps(before.progress, checkpoint, segment.lines, capacity) {
            Err(refusal) => Err(refusal),
            Ok(progress) => Ok(
                LogProgress {
                    progress,
                    segment_index: index,
                    segment_bytes: segment.length,
                    log_bytes: before.log_bytes + segment.length,
                    tail_repair: if segment.valid_length != segment.length {
                        Some((index, segment.valid_length))
                    } else {
                        before.tail_repair
                    },
                },
            ),
        }
    }
}

/// Takes the first segments into account; nothing is read after a segment with
/// an unfinished record at its end.
pub open spec fn segment_steps(
    start: LogProgress,
    checkpoint: u64,
    segments: Seq<SegmentView>,
    capacity: int,
) -> Result<LogProgress, Refusal>
    decreases segments.len(),
{
    if segments.len() == 0 {
        Ok(start)
    } else {
        match segment_steps(start, checkpoint, segments.drop_last(), capacity) {
            Err(refusal) => Err(refusal),
            Ok(before) => if before.tail_repair is Some {
                Ok(before)
            } else {
                segment_step(before, checkpoint, segments.len() - 1, segments.last(), capacity)
            },
        }
    }
}

// ---------------------------------------------------------------------------
// Laws
// ---------------------------------------------------------------------------

/// The states that a running store goes through with a list of operations.
pub open spec fn run(start: StoreView, operations: Seq<OperationView>, capacity: int) -> StoreView
    decreases operations.len(),
{
    if operations.len() == 0 {
        start
    } else {
        effect(run(start, operations.drop_last(), capacity), operations.last(), capacity)
    }
}

/// Whether a running store can issue a list of operations, one after the other.
pub open spec fn issued(start: StoreView, operations: Seq<OperationView>, capacity: int) -> bool {
    forall|i: int|
        0 <= i < operations.len() ==> issued_in(
            run(start, operations.take(i), capacity),
            #[trigger] operations[i],
            capacity,
        )
}

/// The log of a list of operations after a checkpoint.
pub open spec fn log_of(checkpoint: u64, operations: Seq<OperationView>) -> Seq<
    Result<RecordView, Seq<char>>,
> {
    Seq::new(
        operations.len(),
        |i: int|
            Ok(
                RecordView {
                    schema_version: DURABLE_SCHEMA_VERSION,
                    sequence: (checkpoint + 1 + i) as u64,
                    operation: operations[i],
                },
            ),
    )
}

/// Reading back the log of a running store gives the state in which it was.
pub proof fn recovery_restores_the_running_state(
    start: StoreView,
    checkpoint: u64,
    operations: Seq<OperationView>,
    capacity: int,
)
    requires
        start.well_formed(capacity),
        capacity >= 1,
        issued(start, operations, capacity),
        checkpoint + operations.len() < u64::MAX,
    ensures
        steps(
            Progress { state: start, latest: checkpoint, applied: 0 },
            checkpoint,
            log_of(checkpoint, operations),
            capacity,
        ) == Ok::<Progress, Refusal>(
            Progress {
                state: run(start, operations, capacity),
                latest: (checkpoint + operations.len()) as u64,
                applied: operations.len() as u64,
            },
        ),
        run(start, operations, capacity).well_formed(capacity),
    decreases operations.len(),
{
    let lines = log_of(checkpoint, operations);
    if operations.len() > 0 {
        let shorter = operations.drop_last();
        assert forall|i: int| 0 <= i < shorter.len() implies issued_in(
            run(start, shorter.take(i), capacity),
            #[trigger] shorter[i],
            capacity,
        ) by {
            assert(shorter.take(i) =~= operations.take(i));
            assert(shorter[i] == operations[i]);
        }
        recovery_restores_the_running_state(start, checkpoint, shorter, capacity);
        assert(lines.drop_last() =~= log_of(checkpoint, shorter));
        assert(operations.take(operations.len() - 1) =~= shorter);
        let before = run(start, shorter, capacity);
        assert(issued_in(before, operations[operations.len() - 1], capacity));
        replay_matches_effect(before, operations.last(), capacity);
        effect_keeps_well_formed(before, operations.last(), capacity);
    }
}

/// A record at or below the checkpoint is not applied a second time.
pub proof fn checkpointed_records_are_skipped(
    progress: Progress,
    checkpoint: u64,
    record: RecordView,
    capacity: int,
)
    requires
        record.schema_version == DURABLE_SCHEMA_VERSION,
        record.sequence <= checkpoint,
    ensures
        step(progress, checkpoint, Ok(record), capacity) == Ok::<Progress, Refusal>(progress),
{
}

// ---------------------------------------------------------------------------
// Replay
// ---------------------------------------------------------------------------

/// Checks the version of a durable record.
pub fn require_durable_version(version: u32) -> (result: Result<(), SessionError>)
    ensures
        version == DURABLE_SCHEMA_VERSION ==> result is Ok,
        version != DURABLE_SCHEMA_VERSION ==> refused(result, version_refusal(version)),
{
    if version != DURABLE_SCHEMA_VERSION {
        let mut message = "unsupported notification durable schema version ".to_owned();
        message.append(decimal_text(version as u64).as_str());
        return Err(SessionError { kind: ErrorKind::InvalidData, message });
    }
    Ok(())
}

/// Drops the documents with an identifier.
fn drop_id(documents: &mut Vec<NotificationDocument>, id: u64)
    ensures
        document_views(final(documents)@) == without_id(document_views(old(documents)@), id),
{
    let ghost views = document_views(documents@);
    let mut at: usize = documents.len();
    let ghost mut kept = Seq::<NotificationView>::empty();
    assert(views.take(at as int) =~= views);
    assert(document_views(documents@) =~= views.take(at as int) + kept);
    assert(without_id(views, id) =~= without_id(views.take(at as int), id) + kept);
    while at > 0
        invariant
            at <= views.len(),
            document_views(documents@) == views.take(at as int) + kept,
            without_id(views, id) == without_id(views.take(at as int), id) + kept,
        decreases at,
    {
        at = at - 1;
        let ghost longer = views.take(at + 1);
        assert(document_views(documents@).len() == documents@.len());
        assert(longer.drop_last() =~= views.take(at as int));
        assert(document_views(documents@)[at as int] == longer[at as int]);
        assert(documents@[at as int]@ == views[at as int]);
        let ghost before = kept;
        if documents[at].id == id {
            let ghost longer_documents = documents@;
            let _ = documents.remove(at);
            assert(document_views(documents@) =~= document_views(longer_documents).remove(
                at as int,
            ));
            assert(document_views(documents@) =~= views.take(at as int) + kept);
        } else {
            proof {
                kept = seq![views[at as int]] + kept;
            }
            assert(document_views(documents@) =~= views.take(at as int) + kept);
            assert(without_id(longer, id) + before =~= without_id(views.take(at as int), id)
                + kept);
        }
    }
    assert(without_id(views.take(0), id) =~= Seq::<NotificationView>::empty());
    assert(document_views(documents@) =~= kept);
    assert(without_id(views, id) =~= kept);
}

fn find_place(documents: &[NotificationDocument], id: u64) -> (at: usize)
    ensures
        at == place(document_views(documents@), id),
        at <= documents@.len(),
{
    let ghost views = document_views(documents@);
    let mut at: usize = 0;
    while at < documents.len() && documents[at].id != id
        invariant
            at <= documents@.len(),
            views == document_views(documents@),
            forall|j: int| 0 <= j < at ==> #[trigger] views[j].id != id,
        decreases documents@.len() - at,
    {
        assert(views[at as int].id == documents@[at as int].id);
        at = at + 1;
    }
    proof {
        place_facts(views, id);
        if at < documents@.len() {
            assert(views[at as int].id == id);
        }
    }
    at
}

pub open spec fn stored(
    active: Seq<NotificationDocument>,
    archive: Seq<NotificationDocument>,
    preferences: Preferences,
) -> StoreView {
    StoreView { active: document_views(active), archive: document_views(archive), preferences }
}

/// Applies a recorded operation to a recovered state.
#[verifier::loop_isolation(false)]
pub fn apply_store_operation(
    active: &mut Vec<NotificationDocument>,
    archive: &mut Vec<NotificationDocument>,
    preferences: &mut Preferences,
    operation: StoreOperation,
    capacity: usize,
) -> (result: Result<(), SessionError>)
    ensures
        match replayed(
            stored(old(active)@, old(archive)@, *old(preferences)),
            operation@,
            capacity as int,
        ) {
            Ok(after) => result is Ok && stored(
                final(active)@,
                final(archive)@,
                *final(preferences),
            ) == after,
            Err(refusal) => refused(result, refusal),
        },
{
    let ghost state = stored(active@, archive@, *preferences);
    match operation {
        StoreOperation::SetDnd { enabled } => {
            preferences.dnd = enabled;
            Ok(())
        },
        StoreOperation::Push { notification, archived } => {
            let ghost shown = notification@;
            let ghost moved = document_views(archived@);
            drop_id(active, notification.id);
            let ghost removed = StoreView { active: without_id(state.active, shown.id), ..state };
            let ghost all = archived@;
            assert(moved.take(0) =~= Seq::<NotificationView>::empty());
            for item in it: archived
                invariant
                    it.seq() == all,
                    moved == document_views(all),
                    stored(active@, archive@, *preferences) == archived_by_replay(
                        removed,
                        moved.take(it.index() as int),
                    ),
            {
                let ghost i = it.index() as int;
                assert(item@ == moved[i]);
                drop_id(active, item.id);
                drop_id(archive, item.id);
                let ghost archive_before = archive@;
                archive.push(item);
                proof {
                    assert(moved.take(i + 1).drop_last() =~= moved.take(i));
                    assert(document_views(archive@) =~= document_views(archive_before).push(
                        moved[i],
                    ));
                }
            }
            assert(moved.take(moved.len() as int) =~= moved);
            let next: u64 = notification.id.saturating_add(1);
            if next > preferences.next_notification_id {
                preferences.next_notification_id = next;
            }
            let ghost active_before = active@;
            active.push(notification);
            assert(document_views(active@) =~= document_views(active_before).push(shown));
            if active.len() > capacity {
                return Err(
                    SessionError::new(
                        ErrorKind::InvalidData,
                        "notification segment exceeds active capacity",
                    ),
                );
            }
            Ok(())
        },
        StoreOperation::Dismiss { notification } => {
            let ghost moved = notification@;
            drop_id(active, notification.id);
            drop_id(archive, notification.id);
            let ghost archive_before = archive@;
            archive.push(notification);
            assert(document_views(archive@) =~= document_views(archive_before).push(moved));
            Ok(())
        },
        StoreOperation::MarkRead { id } => {
            let at: usize = find_place(active.as_slice(), id);
            if at >= active.len() {
                return Err(
                    SessionError::new(
                        ErrorKind::InvalidData,
                        "notification segment references a missing id",
                    ),
                );
            }
            let mut updated = active[at].copy();
            let ghost was = updated@;
            updated.read = true;
            assert(updated@ =~= was.with_read(true));
            active.set(at, updated);
            assert(document_views(active@) =~= state.active.update(
                at as int,
                state.active[at as int].with_read(true),
            ));
            Ok(())
        },
        StoreOperation::ExpireActions { ids } => {
            for i in 0..ids.len()
                invariant
                    all_expired_by_replay(state, ids@.take(i as int)) == Ok::<StoreView, Refusal>(
                        stored(active@, archive@, *preferences),
                    ),
            {
                let id: u64 = ids[i];
                let ghost before = stored(active@, archive@, *preferences);
                assert(ids@.take(i + 1).drop_last() =~= ids@.take(i as int));
                assert(ids@.take(i + 1).last() == id);
                assert(all_expired_by_replay(state, ids@.take(i + 1)) == expired_by_replay(
                    before,
                    id,
                ));
                let at: usize = find_place(active.as_slice(), id);
                if at < active.len() {
                    let updated = active[at].copy_expired();
                    active.set(at, updated);
                    assert(document_views(active@) =~= before.active.update(
                        at as int,
                        before.active[at as int].with_expired_actions(),
                    ));
                } else {
                    let at: usize = find_place(archive.as_slice(), id);
                    if at >= archive.len() {
                        proof {
                            refusal_is_kept(state, ids@, i + 1);
                        }
                        return Err(
                            SessionError::new(
                                ErrorKind::InvalidData,
                                "notification segment references a missing id",
                            ),
                        );
                    }
                    let updated = archive[at].copy_expired();
                    archive.set(at, updated);
                    assert(document_views(archive@) =~= before.archive.update(
                        at as int,
                        before.archive[at as int].with_expired_actions(),
                    ));
                }
            }
            assert(ids@.take(ids@.len() as int) =~= ids@);
            Ok(())
        },
        StoreOperation::PurgeArchive => {
            archive.clear();
            assert(document_views(archive@) =~= Seq::<NotificationView>::empty());
            Ok(())
        },
    }
}

proof fn refusal_is_kept(state: StoreView, ids: Seq<u64>, count: int)
    requires
        0 <= count <= ids.len(),
        all_expired_by_replay(state, ids.take(count)) is Err,
    ensures
        all_expired_by_replay(state, ids) == all_expired_by_replay(state, ids.take(count)),
    decreases ids.len() - count,
{
    if count == ids.len() {
        assert(ids.take(count) =~= ids);
    } else {
        assert(ids.take(count + 1).drop_last() =~= ids.take(count));
        refusal_is_kept(state, ids, count + 1);
    }
}

proof fn step_refusal_is_kept(
    progress: Progress,
    checkpoint: u64,
    lines: Seq<Result<RecordView, Seq<char>>>,
    capacity: int,
    count: int,
)
    requires
        0 <= count <= lines.len(),
        steps(progress, checkpoint, lines.take(count), capacity) is Err,
    ensures
        steps(progress, checkpoint, lines, capacity) == steps(
            progress,
            checkpoint,
            lines.take(count),
            capacity,
        ),
    decreases lines.len() - count,
{
    if count == lines.len() {
        assert(lines.take(count) =~= lines);
    } else {
        assert(lines.take(count + 1).drop_last() =~= lines.take(count));
        step_refusal_is_kept(progress, checkpoint, lines, capacity, count + 1);
    }
}

proof fn segment_outcome_is_kept(
    start: LogProgress,
    checkpoint: u64,
    segments: Seq<SegmentView>,
    capacity: int,
    count: int,
)
    requires
        0 <= count <= segments.len(),
        match segment_steps(start, checkpoint, segments.take(count), capacity) {
            Ok(reached) => reached.tail_repair is Some,
            Err(_) => true,
        },
    ensures
        segment_steps(start, checkpoint, segments, capacity) == segment_steps(
            start,
            checkpoint,
            segments.take(count),
            capacity,
        ),
    decreases segments.len() - count,
{
    if count == segments.len() {
        assert(segments.take(count) =~= segments);
    } else {
        assert(segments.take(count + 1).drop_last() =~= segments.take(count));
        segment_outcome_is_kept(start, checkpoint, segments, capacity, count + 1);
    }
}

/// What recovery starts from.
pub open spec fn recovery_start(checkpoint: StoreCheckpoint) -> LogProgress {
    LogProgress {
        progress: Progress {
            state: stored(checkpoint.active@, checkpoint.archive@, checkpoint.preferences),
            latest: checkpoint.sequence,
            applied: 0,
        },
        segment_index: 0,
        segment_bytes: 0,
        log_bytes: 0,
        tail_repair: None,
    }
}

/// The segments that recovery reads at most.
pub open spec fn readable(segments: Seq<SegmentView>) -> Seq<SegmentView> {
    if segments.len() > CHECKPOINT_OPERATION_INTERVAL + 1 {
        segments.take(CHECKPOINT_OPERATION_INTERVAL + 1)
    } else {
        segments
    }
}

/// What recovery comes to.
pub open spec fn recovery(
    checkpoint: StoreCheckpoint,
    segments: Seq<SegmentView>,
    capacity: int,
) -> Result<LogProgress, Refusal> {
    if checkpoint.schema_version != DURABLE_SCHEMA_VERSION {
        Err(version_refusal(checkpoint.schema_version))
    } else if checkpoint.preferences.schema_version != DURABLE_SCHEMA_VERSION {
        Err(version_refusal(checkpoint.preferences.schema_version))
    } else if checkpoint.storage_version != 2 {
        Err((ErrorKind::InvalidData, "unsupported notification storage version"@))
    } else {
        match segment_steps(
            recovery_start(checkpoint),
            checkpoint.sequence,
            readable(segments),
            capacity,
        ) {
            Err(refusal) => Err(refusal),
            Ok(reached) => if !ids_valid(reached.progress.state.all()) {
                Err(
                    (
                        ErrorKind::InvalidData,
                        "notification identifiers must be nonzero and unique across active and archive"@,
                    ),
                )
            } else if reached.progress.latest == u64::MAX {
                Err((ErrorKind::OutOfMemory, "notification sequence exhausted"@))
            } else {
                Ok(reached)
            },
        }
    }
}

/// Whether a recovered state is what recovery comes to.
pub open spec fn recovered_as(recovered: RecoveredState, reached: LogProgress) -> bool {
    &&& stored(recovered.active@, recovered.archive@, recovered.preferences)
        == reached.progress.state
    &&& recovered.next_sequence == reached.progress.latest + 1
    &&& recovered.operations == reached.progress.applied
    &&& recovered.segment_bytes == reached.segment_bytes
    &&& recovered.log_bytes == reached.log_bytes
    &&& recovered.segment_index == reached.segment_index
    &&& match recovered.tail_repair {
        Some((segment, length)) => reached.tail_repair == Some((segment as int, length as int)),
        None => reached.tail_repair is None,
    }
    &&& recovered.checkpoint_present
}

/// Applies the lines of one segment.
#[verifier::loop_isolation(false)]
fn replay_lines(
    active: &mut Vec<NotificationDocument>,
    archive: &mut Vec<NotificationDocument>,
    preferences: &mut Preferences,
    latest: &mut u64,
    applied: &mut u64,
    checkpoint: u64,
    records: Vec<Result<SegmentRecord, String>>,
    capacity: usize,
) -> (result: Result<(), SessionError>)
    ensures
        match steps(
            Progress {
                state: stored(old(active)@, old(archive)@, *old(preferences)),
                latest: *old(latest),
                applied: *old(applied),
            },
            checkpoint,
            parsed_views(records@),
            capacity as int,
        ) {
            Ok(after) => result is Ok && after == (Progress {
                state: stored(final(active)@, final(archive)@, *final(preferences)),
                latest: *final(latest),
                applied: *final(applied),
            }),
            Err(refusal) => refused(result, refusal),
        },
{
    let ghost start = Progress {
        state: stored(active@, archive@, *preferences),
        latest: *latest,
        applied: *applied,
    };
    let ghost lines = parsed_views(records@);
    let ghost all = records@;
    assert(lines.take(0) =~= Seq::<Result<RecordView, Seq<char>>>::empty());
    for parsed in it: records
        invariant
            it.seq() == all,
            lines == parsed_views(all),
            steps(start, checkpoint, lines.take(it.index() as int), capacity as int) == Ok::<
                Progress,
                Refusal,
            >(
                Progress {
                    state: stored(active@, archive@, *preferences),
                    latest: *latest,
                    applied: *applied,
                },
            ),
    {
        let ghost i = it.index() as int;
        let ghost before = Progress {
            state: stored(active@, archive@, *preferences),
            latest: *latest,
            applied: *applied,
        };
        proof {
            assert(parsed_view(parsed) == lines[i]);
            assert(lines.take(i + 1).drop_last() =~= lines.take(i));
            assert(steps(start, checkpoint, lines.take(i + 1), capacity as int) == step(
                before,
                checkpoint,
                lines[i],
                capacity as int,
            ));
            if steps(start, checkpoint, lines.take(i + 1), capacity as int) is Err {
                step_refusal_is_kept(start, checkpoint, lines, capacity as int, i + 1);
            }
        }
        match parsed {
            Err(message) => {
                return Err(SessionError { kind: ErrorKind::InvalidData, message });
            },
            Ok(record) => {
                match require_durable_version(record.schema_version) {
                    Ok(()) => {},
                    Err(error) => {
                        return Err(error);
                    },
                }
                if record.sequence > checkpoint {
                    if record.sequence != latest.saturating_add(1) {
                        return Err(
                            SessionError::new(
                                ErrorKind::InvalidData,
                                "notification segment sequence is not contiguous",
                            ),
                        );
                    }
                    let sequence: u64 = record.sequence;
                    match apply_store_operation(
                        active,
                        archive,
                        preferences,
                        record.operation,
                        capacity,
                    ) {
                        Ok(()) => {},
                        Err(error) => {
                            return Err(error);
                        },
                    }
                    *latest = sequence;
                    *applied = applied.saturating_add(1);
                }
            },
        }
    }
    assert(lines.take(lines.len() as int) =~= lines);
    Ok(())
}

/// Recovers the state from a checkpoint and the segments after it.
#[verifier::loop_isolation(false)]
pub fn read_v2_state(
    checkpoint: StoreCheckpoint,
    segments: Vec<SegmentContents>,
    capacity: usize,
) -> (result: Result<RecoveredState, SessionError>)
    ensures
        match recovery(checkpoint, segment_views(segments@), capacity as int) {
            Ok(reached) => result is Ok && recovered_as(result->Ok_0, reached),
            Err(refusal) => refused(result, refusal),
        },
{
    let ghost start = recovery_start(checkpoint);
    let ghost all = segment_views(segments@);
    match require_durable_version(checkpoint.schema_version) {
        Ok(()) => {},
        Err(error) => {
            return Err(error);
        },
    }
    match require_durable_version(checkpoint.preferences.schema_version) {
        Ok(()) => {},
        Err(error) => {
            return Err(error);
        },
    }
    if checkpoint.storage_version != 2 {
        return Err(
            SessionError::new(
                ErrorKind::InvalidData,
                "unsupported notification storage version",
            ),
        );
    }
    let sequence: u64 = checkpoint.sequence;
    let mut active = checkpoint.active;
    let mut archive = checkpoint.archive;
    let mut preferences = checkpoint.preferences;
    let mut latest: u64 = sequence;
    let mut applied: u64 = 0;
    let mut segment_index: usize = 0;
    let mut segment_bytes: usize = 0;
    let mut log_bytes: usize = 0;
    let mut tail_repair: Option<(usize, usize)> = None;
    let mut segments = segments;
    let mut count: usize = segments.len();
    if count > 1001 {
        count = 1001;
    }
    let ghost read = readable(all);
    assert(read =~= all.take(count as int));
    assert(read.take(0) =~= Seq::<SegmentView>::empty());
    assert(all.skip(0) =~= all);
    let mut index: usize = 0;
    while index < count && tail_repair.is_none()
        invariant
            count == read.len(),
            count <= all.len(),
            read == all.take(count as int),
            index <= count,
            segment_views(segments@) == all.skip(index as int),
            log_bytes <= CHECKPOINT_LOG_BYTES,
            segment_steps(start, sequence, read.take(index as int), capacity as int) == Ok::<
                LogProgress,
                Refusal,
            >(
                LogProgress {
                    progress: Progress {
                        state: stored(active@, archive@, preferences),
                        latest,
                        applied,
                    },
                    segment_index: segment_index as int,
                    segment_bytes: segment_bytes as int,
                    log_bytes: log_bytes as int,
                    tail_repair: match tail_repair {
                        Some((segment, length)) => Some((segment as int, length as int)),
                        None => None,
                    },
                },
            ),
        decreases count - index,
    {
        assert(segment_views(segments@).len() == segments@.len());
        assert(segment_views(segments@)[0] == segment_view(segments@[0]));
        assert(segment_view(segments@[0]) == all[index as int]);
        assert(read[index as int] == all[index as int]);
        let ghost longer = segments@;
        let segment = segments.remove(0);
        proof {
            assert(segment_views(segments@) =~= segment_views(longer).remove(0));
            assert(segment_views(segments@) =~= all.skip(index + 1));
            assert(read.take(index + 1).drop_last() =~= read.take(index as int));
            assert(read.take(index + 1).last() == segment_view(segment));
            if segment_steps(start, sequence, read.take(index + 1), capacity as int) is Err {
                segment_outcome_is_kept(start, sequence, read, capacity as int, index + 1);
            }
        }
        if segment.length > SEGMENT_LIMIT_BYTES {
            return Err(
                SessionError::new(ErrorKind::InvalidData, "notification segment exceeds 4 MiB"),
            );
        }
        segment_index = index;
        segment_bytes = segment.length;
        log_bytes = log_bytes + segment.length;
        if log_bytes > CHECKPOINT_LOG_BYTES {
            return Err(
                SessionError::new(
                    ErrorKind::InvalidData,
                    "notification log exceeds checkpoint interval",
                ),
            );
        }
        if segment.valid_length != segment.length {
            tail_repair = Some((index, segment.valid_length));
        }
        match replay_lines(
            &mut active,
            &mut archive,
            &mut preferences,
            &mut latest,
            &mut applied,
            sequence,
            segment.records,
            capacity,
        ) {
            Ok(()) => {},
            Err(error) => {
                return Err(error);
            },
        }
        index = index + 1;
    }
    proof {
        if tail_repair is Some {
            segment_outcome_is_kept(start, sequence, read, capacity as int, index as int);
        } else {
            assert(read.take(count as int) =~= read);
        }
    }
    match validate_unique_ids(active.as_slice(), archive.as_slice()) {
        Ok(()) => {},
        Err(error) => {
            return Err(error);
        },
    }
    match latest.checked_add(1) {
        Some(next_sequence) => Ok(
            RecoveredState {
                active,
                archive,
                preferences,
                next_sequence,
                operations: applied,
                segment_bytes,
                log_bytes,
                segment_index,
                tail_repair,
                checkpoint_present: true,
            },
        ),
        None => Err(SessionError::new(ErrorKind::OutOfMemory, "notification sequence exhausted")),
    }
}

} // verus!

//! The durable notification store.
//!
//! A change goes through four steps. The store plans it against its present
//! state, says what to append to the log, is told that the record is durable,
//! and then takes the change into memory. Between the second step and the end
//! the store refuses any other change, so that memory never runs ahead of what
//! is on disk.

use vstd::prelude::*;

use crate::error::{error_is, ErrorKind, SessionError};
use crate::notifications::document::{
    document_bytes, document_size, document_views, documents_size, preferences_bytes,
    preferences_json, NotificationDocument, NotificationUrgency, NotificationView, Preferences,
    MAX_NOTIFICATION_BYTES,
};
use crate::notifications::journal::{
    record_line, record_text, LogPlan, LogState, SEGMENT_LIMIT_BYTES,
};
use crate::notifications::model::{
    distinct_ids, effect, effect_keeps_well_formed, expired_if_listed, expired_in, has_id,
    issued_in, marked_read, place, place_facts, well_formed_by_lists, without_id,
    without_id_facts, without_id_removes_one, OperationView, Refusal, StoreView,
};
use crate::notifications::sizes::{
    aggregate_size_from_its_parts, commas, expiry_never_grows, marks_change_sizes_little,
    size_is_at_least_the_count, size_of_push, size_of_remove, size_of_update, structural_size,
};
use crate::text::{byte_len, text_before, text_bytes};

verus! {

pub const DEFAULT_ACTIVE_NOTIFICATION_CAPACITY: usize = 500;

pub const DEFAULT_NOTIFICATION_STATE_BYTES: usize = 50331648;

/// No durable file is larger than this.
pub const MAX_DURABLE_FILE_BYTES: usize = 67108864;

#[derive(Debug, Clone)]
pub enum StoreOperation {
    SetDnd { enabled: bool },
    Push { notification: NotificationDocument, archived: Vec<NotificationDocument> },
    Dismiss { notification: NotificationDocument },
    MarkRead { id: u64 },
    ExpireActions { ids: Vec<u64> },
    PurgeArchive,
}

impl View for StoreOperation {
    type V = OperationView;

    open spec fn view(&self) -> OperationView {
        match *self {
            StoreOperation::SetDnd { enabled } => OperationView::SetDnd { enabled },
            StoreOperation::Push { notification, archived } => OperationView::Push {
                notification: notification@,
                archived: document_views(archived@),
            },
            StoreOperation::Dismiss { notification } => OperationView::Dismiss {
                notification: notification@,
            },
            StoreOperation::MarkRead { id } => OperationView::MarkRead { id },
            StoreOperation::ExpireActions { ids } => OperationView::ExpireActions { ids: ids@ },
            StoreOperation::PurgeArchive => OperationView::PurgeArchive,
        }
    }
}

/// A change that was planned against the present state of a store.
pub struct PendingChange {
    operation: StoreOperation,
    active_bytes: usize,
    archive_bytes: usize,
    preferences: Preferences,
    preferences_bytes: usize,
}

impl PendingChange {
    pub closed spec fn op(&self) -> OperationView {
        self.operation@
    }

    /// The operation that the log has to record.
    pub fn operation(&self) -> (operation: &StoreOperation)
        ensures
            operation@ == self.op(),
    {
        &self.operation
    }
}

/// What a push did: the identifier in use and the notifications it archived.
#[derive(Debug, Clone, PartialEq, Eq)]
pub struct PushResult {
    pub id: u64,
    pub archived_ids: Vec<u64>,
}

/// The notifications of one application.
#[derive(Debug)]
pub struct NotificationGroup<'a> {
    pub application_id: String,
    pub notifications: Vec<&'a NotificationDocument>,
}

pub struct NotificationStore {
    capacity: usize,
    aggregate_limit: usize,
    active: Vec<NotificationDocument>,
    archive: Vec<NotificationDocument>,
    preferences: Preferences,
    active_json_bytes: usize,
    archive_json_bytes: usize,
    preferences_json_bytes: usize,
    log: LogState,
}

/// What was read back from disk before the store is opened.
pub struct RecoveredState {
    pub active: Vec<NotificationDocument>,
    pub archive: Vec<NotificationDocument>,
    pub preferences: Preferences,
    pub next_sequence: u64,
    pub operations: u64,
    pub segment_bytes: usize,
    pub log_bytes: usize,
    pub segment_index: usize,
    pub tail_repair: Option<(usize, usize)>,
    pub checkpoint_present: bool,
}

pub open spec fn refused<T>(result: Result<T, SessionError>, refusal: Refusal) -> bool {
    result is Err && error_is(result->Err_0, refusal.0, refusal.1)
}

// ---------------------------------------------------------------------------
// Sizes
// ---------------------------------------------------------------------------

/// The size that the parts of a state add up to.
pub open spec fn size_of_parts(
    active_count: int,
    archive_count: int,
    active_bytes: int,
    archive_bytes: int,
    preferences_bytes: int,
) -> int {
    structural_size() + preferences_bytes + active_bytes + archive_bytes + commas(active_count)
        + commas(archive_count)
}

/// The size of a state from the sizes of its parts, an error if it does not fit
/// the machine.
pub fn aggregate_size_from_parts(
    active_count: usize,
    archive_count: usize,
    active_bytes: usize,
    archive_bytes: usize,
    preferences_bytes: usize,
) -> (size: Result<usize, SessionError>)
    ensures
        ({
            let total = size_of_parts(
                active_count as int,
                archive_count as int,
                active_bytes as int,
                archive_bytes as int,
                preferences_bytes as int,
            );
            if total <= usize::MAX {
                size is Ok && size->Ok_0 == total
            } else {
                refused(
                    size,
                    (ErrorKind::InvalidData, "notification aggregate size overflow"@),
                )
            }
        }),
{
    let parts: [usize; 9] = [
        text_bytes("{\"schemaVersion\":1,\"active\":["),
        text_bytes("],\"archive\":["),
        text_bytes("],\"preferences\":"),
        text_bytes("}"),
        preferences_bytes,
        active_bytes,
        archive_bytes,
        active_count.saturating_sub(1),
        archive_count.saturating_sub(1),
    ];
    let mut total: usize = 0;
    proof {
        reveal_with_fuel(sum_to, 10);
    }
    for i in 0..9
        invariant
            parts@.len() == 9,
            total == sum_to(parts@, i as int),
            sum_to(parts@, 9) == size_of_parts(
                active_count as int,
                archive_count as int,
                active_bytes as int,
                archive_bytes as int,
                preferences_bytes as int,
            ),
    {
        proof {
            sum_grows(parts@, i + 1, 9);
        }
        match total.checked_add(parts[i]) {
            Some(next) => {
                total = next;
            },
            None => {
                return Err(
                    SessionError::new(
                        ErrorKind::InvalidData,
                        "notification aggregate size overflow",
                    ),
                );
            },
        }
    }
    Ok(total)
}

spec fn sum_to(parts: Seq<usize>, count: int) -> int
    decreases count,
{
    if count <= 0 {
        0
    } else {
        sum_to(parts, count - 1) + parts[count - 1]
    }
}

proof fn sum_grows(parts: Seq<usize>, count: int, end: int)
    requires
        0 <= count <= end <= parts.len(),
    ensures
        0 <= sum_to(parts, count) <= sum_to(parts, end),
    decreases end,
{
    if count < end {
        sum_grows(parts, count, end - 1);
    } else if count > 0 {
        sum_grows(parts, count - 1, count - 1);
    }
}

/// The refusal of a state that is too large, if it is.
pub open spec fn too_large(state: StoreView, limit: int) -> Option<Refusal> {
    if state.aggregate_size() > usize::MAX {
        Some((ErrorKind::InvalidData, "notification aggregate size overflow"@))
    } else if state.aggregate_size() > limit {
        Some(
            (
                ErrorKind::InvalidInput,
                "notification state exceeds the configured aggregate limit"@,
            ),
        )
    } else {
        None
    }
}

fn ensure_aggregate_parts(
    active_count: usize,
    archive_count: usize,
    active_bytes: usize,
    archive_bytes: usize,
    preferences_bytes: usize,
    limit: usize,
    Ghost(after): Ghost<StoreView>,
) -> (result: Result<(), SessionError>)
    requires
        active_count == after.active.len(),
        archive_count == after.archive.len(),
        active_bytes == documents_size(after.active),
        archive_bytes == documents_size(after.archive),
        preferences_bytes == byte_len(preferences_json(after.preferences)),
    ensures
        match too_large(after, limit as int) {
            Some(refusal) => refused(result, refusal),
            None => result is Ok,
        },
{
    proof {
        aggregate_size_from_its_parts(after);
    }
    match aggregate_size_from_parts(
        active_count,
        archive_count,
        active_bytes,
        archive_bytes,
        preferences_bytes,
    ) {
        Ok(size) => {
            if size > limit {
                Err(
                    SessionError::new(
                        ErrorKind::InvalidInput,
                        "notification state exceeds the configured aggregate limit",
                    ),
                )
            } else {
                Ok(())
            }
        },
        Err(error) => Err(error),
    }
}

/// The sum of the sizes of a list, if it fits the machine.
fn serialized_documents_size(documents: &[NotificationDocument]) -> (size: Option<usize>)
    ensures
        match size {
            Some(size) => size == documents_size(document_views(documents@)),
            None => documents_size(document_views(documents@)) > usize::MAX,
        },
{
    let mut total: usize = 0;
    let ghost views = document_views(documents@);
    for i in 0..documents.len()
        invariant
            views == document_views(documents@),
            total == documents_size(views.take(i as int)),
    {
        let length: usize = document_bytes(&documents[i]);
        proof {
            assert(views.take(i + 1).drop_last() =~= views.take(i as int));
            size_grows(views, i + 1);
        }
        match total.checked_add(length) {
            Some(next) => {
                total = next;
            },
            None => {
                return None;
            },
        }
    }
    assert(views.take(documents@.len() as int) =~= views);
    Some(total)
}

proof fn size_grows(documents: Seq<NotificationView>, count: int)
    requires
        0 <= count <= documents.len(),
    ensures
        documents_size(documents.take(count)) <= documents_size(documents),
    decreases documents.len() - count,
{
    if count == documents.len() {
        assert(documents.take(count) =~= documents);
    } else {
        size_grows(documents, count + 1);
        assert(documents.take(count + 1).drop_last() =~= documents.take(count));
    }
}

// ---------------------------------------------------------------------------
// Validation
// ---------------------------------------------------------------------------

/// What the schema validator said of a document, as a mathematical value.
pub open spec fn verdict_view(verdict: Option<String>) -> Option<Seq<char>> {
    match verdict {
        Some(message) => Some(message@),
        None => None,
    }
}

/// The refusal of a document by its size or by the schema validator.
pub open spec fn document_refusal(
    document: NotificationView,
    verdict: Option<Seq<char>>,
) -> Option<Refusal> {
    if document_size(document) > MAX_NOTIFICATION_BYTES {
        Some((ErrorKind::InvalidInput, "notification exceeds the 64 KiB input limit"@))
    } else {
        match verdict {
            Some(message) => Some((ErrorKind::InvalidData, message)),
            None => None,
        }
    }
}

/// Checks one document. The verdict is what the schema validator objects to.
pub fn validate_document(document: &NotificationDocument, verdict: &Option<String>) -> (result:
    Result<(), SessionError>)
    ensures
        match document_refusal(document@, verdict_view(*verdict)) {
            Some(refusal) => refused(result, refusal),
            None => result is Ok,
        },
{
    if document_bytes(document) > MAX_NOTIFICATION_BYTES {
        return Err(
            SessionError::new(
                ErrorKind::InvalidInput,
                "notification exceeds the 64 KiB input limit",
            ),
        );
    }
    match verdict {
        Some(message) => Err(SessionError::new(ErrorKind::InvalidData, message.as_str())),
        None => Ok(()),
    }
}

/// The refusal of the first document of a list that is refused.
pub open spec fn first_refusal(
    documents: Seq<NotificationView>,
    verdicts: Seq<Option<Seq<char>>>,
) -> Option<Refusal>
    decreases documents.len(),
{
    if documents.len() == 0 || verdicts.len() == 0 {
        None
    } else {
        match document_refusal(documents.first(), verdicts.first()) {
            Some(refusal) => Some(refusal),
            None => first_refusal(documents.skip(1), verdicts.skip(1)),
        }
    }
}

pub open spec fn verdict_views(verdicts: Seq<Option<String>>) -> Seq<Option<Seq<char>>> {
    verdicts.map_values(|verdict: Option<String>| verdict_view(verdict))
}

/// Checks a list of documents and reports the first objection.
pub fn validate_documents(
    documents: &[NotificationDocument],
    verdicts: &[Option<String>],
) -> (result: Result<(), SessionError>)
    requires
        verdicts@.len() == documents@.len(),
    ensures
        match first_refusal(document_views(documents@), verdict_views(verdicts@)) {
            Some(refusal) => refused(result, refusal),
            None => result is Ok,
        },
{
    let ghost views = document_views(documents@);
    let ghost said = verdict_views(verdicts@);
    assert(views.skip(0) =~= views);
    assert(said.skip(0) =~= said);
    for i in 0..documents.len()
        invariant
            verdicts@.len() == documents@.len(),
            views == document_views(documents@),
            said == verdict_views(verdicts@),
            first_refusal(views.skip(i as int), said.skip(i as int)) == first_refusal(views, said),
    {
        assert(views.skip(i as int).first() == documents@[i as int]@);
        assert(said.skip(i as int).first() == verdict_view(verdicts@[i as int]));
        assert(views.skip(i as int).skip(1) =~= views.skip(i + 1));
        assert(said.skip(i as int).skip(1) =~= said.skip(i + 1));
        match validate_document(&documents[i], &verdicts[i]) {
            Ok(()) => {},
            Err(error) => {
                return Err(error);
            },
        }
    }
    Ok(())
}

/// Whether every identifier is positive, fits the bus and occurs once.
pub open spec fn ids_valid(documents: Seq<NotificationView>) -> bool {
    &&& distinct_ids(documents)
    &&& forall|i: int|
        0 <= i < documents.len() ==> 0 < #[trigger] documents[i].id <= u32::MAX
}

/// Checks the identifiers of both lists together.
pub fn validate_unique_ids(
    active: &[NotificationDocument],
    archive: &[NotificationDocument],
) -> (result: Result<(), SessionError>)
    ensures
        if ids_valid(document_views(active@) + document_views(archive@)) {
            result is Ok
        } else {
            refused(
                result,
                (
                    ErrorKind::InvalidData,
                    "notification identifiers must be nonzero and unique across active and archive"@,
                ),
            )
        },
{
    broadcast use vstd::std_specs::hash::group_hash_axioms;

    let mut ids: std::collections::HashSet<u64> = std::collections::HashSet::new();
    let ghost all = document_views(active@) + document_views(archive@);
    let mut ok = true;
    for i in 0..active.len()
        invariant
            vstd::std_specs::hash::obeys_key_model::<u64>(),
            vstd::std_specs::hash::builds_valid_hashers::<std::collections::hash_map::RandomState>(),
            all == document_views(active@) + document_views(archive@),
            ok ==> ids_valid(all.take(i as int)),
            ok ==> forall|x: u64| ids@.contains(x) <==> has_id(all.take(i as int), x),
            !ok ==> !ids_valid(all),
    {
        if ok {
            let id: u64 = active[i].id;
            let fresh = ids.insert(id);
            assert(all[i as int].id == id);
            proof {
                one_more_id(all, i as int);
            }
            if id == 0 || id > 4294967295 || !fresh {
                ok = false;
            }
        }
    }
    for i in 0..archive.len()
        invariant
            vstd::std_specs::hash::obeys_key_model::<u64>(),
            vstd::std_specs::hash::builds_valid_hashers::<std::collections::hash_map::RandomState>(),
            all == document_views(active@) + document_views(archive@),
            ok ==> ids_valid(all.take(active@.len() + i)),
            ok ==> forall|x: u64| ids@.contains(x) <==> has_id(all.take(active@.len() + i), x),
            !ok ==> !ids_valid(all),
    {
        if ok {
            let id: u64 = archive[i].id;
            let fresh = ids.insert(id);
            assert(all[active@.len() + i].id == id);
            proof {
                one_more_id(all, active@.len() + i);
            }
            if id == 0 || id > 4294967295 || !fresh {
                ok = false;
            }
        }
    }
    if ok {
        assert(all.take((active@.len() + archive@.len()) as int) =~= all);
        Ok(())
    } else {
        Err(
            SessionError::new(
                ErrorKind::InvalidData,
                "notification identifiers must be nonzero and unique across active and archive",
            ),
        )
    }
}

proof fn one_more_id(all: Seq<NotificationView>, at: int)
    requires
        0 <= at < all.len(),
        ids_valid(all.take(at)),
    ensures
        (0 < all[at].id <= u32::MAX && !has_id(all.take(at), all[at].id)) ==> ids_valid(
            all.take(at + 1),
        ),
        !(0 < all[at].id <= u32::MAX && !has_id(all.take(at), all[at].id)) ==> !ids_valid(all),
        forall|x: u64|
            has_id(all.take(at + 1), x) <==> (has_id(all.take(at), x) || x == all[at].id),
{
    let before = all.take(at);
    let longer = all.take(at + 1);
    assert forall|x: u64|
        has_id(longer, x) <==> (has_id(before, x) || x == all[at].id) by {
        if has_id(longer, x) {
            let i = choose|i: int| 0 <= i < longer.len() && #[trigger] longer[i].id == x;
            if i < at {
                assert(before[i].id == x);
            }
        }
        if has_id(before, x) {
            let i = choose|i: int| 0 <= i < before.len() && #[trigger] before[i].id == x;
            assert(longer[i].id == x);
        }
        assert(longer[at].id == all[at].id);
    }
    if 0 < all[at].id <= u32::MAX && !has_id(before, all[at].id) {
        assert forall|i: int, j: int| 0 <= i < j < longer.len() implies #[trigger] longer[i].id
            != #[trigger] longer[j].id by {
            assert(before[i] == longer[i]);
            if j < at {
                assert(before[j] == longer[j]);
            }
        }
        assert forall|i: int| 0 <= i < longer.len() implies 0 < #[trigger] longer[i].id
            <= u32::MAX by {
            if i < at {
                assert(before[i] == longer[i]);
            }
        }
    } else if has_id(before, all[at].id) {
        let i = choose|i: int| 0 <= i < before.len() && #[trigger] before[i].id == all[at].id;
        assert(all[i].id == all[at].id);
    }
}

/// The place of the first document with an identifier.
fn find_id(documents: &[NotificationDocument], id: u64) -> (at: Option<usize>)
    ensures
        match at {
            Some(i) => i < documents@.len() && i == place(document_views(documents@), id)
                && documents@[i as int].id == id,
            None => !has_id(document_views(documents@), id),
        },
{
    let ghost views = document_views(documents@);
    proof {
        place_facts(views, id);
    }
    for i in 0..documents.len()
        invariant
            views == document_views(documents@),
            forall|j: int| 0 <= j < i ==> #[trigger] views[j].id != id,
    {
        assert(views[i as int].id == documents@[i as int].id);
        if documents[i].id == id {
            proof {
                place_facts(views, id);
                assert(has_id(views, id));
            }
            return Some(i);
        }
    }
    None
}

// ---------------------------------------------------------------------------
// What each request leads to
// ---------------------------------------------------------------------------

/// The notification with its identifier assigned.
pub open spec fn assigned(state: StoreView, notification: NotificationView) -> Result<
    NotificationView,
    Refusal,
> {
    let next = state.preferences.next_notification_id;
    if notification.id == 0 {
        if next > u32::MAX {
            Err((ErrorKind::OutOfMemory, "D-Bus notification identifiers exhausted"@))
        } else {
            Ok(NotificationView { id: next, ..notification })
        }
    } else if notification.id == u64::MAX {
        Err((ErrorKind::OutOfMemory, "notification identifiers exhausted"@))
    } else {
        Ok(notification)
    }
}

/// An operation, unless its effect would be too large.
pub open spec fn if_it_fits(
    state: StoreView,
    operation: OperationView,
    capacity: int,
    limit: int,
) -> Result<OperationView, Refusal> {
    match too_large(effect(state, operation, capacity), limit) {
        Some(refusal) => Err(refusal),
        None => Ok(operation),
    }
}

/// What a request to show a notification leads to.
pub open spec fn push_outcome(
    state: StoreView,
    notification: NotificationView,
    verdict: Option<Seq<char>>,
    capacity: int,
    limit: int,
) -> Result<OperationView, Refusal> {
    match assigned(state, notification) {
        Err(refusal) => Err(refusal),
        Ok(candidate) => match document_refusal(candidate, verdict) {
            Some(refusal) => Err(refusal),
            None => if !has_id(state.active, candidate.id) && has_id(state.archive, candidate.id) {
                Err(
                    (
                        ErrorKind::AlreadyExists,
                        "archived notification identifiers cannot be reused"@,
                    ),
                )
            } else {
                let shown = candidate.with_archived(false);
                if_it_fits(
                    state,
                    OperationView::Push {
                        notification: shown,
                        archived: state.evicted(shown, capacity),
                    },
                    capacity,
                    limit,
                )
            },
        },
    }
}

pub open spec fn not_found() -> Refusal {
    (ErrorKind::NotFound, "notification not found"@)
}

pub open spec fn dismiss_outcome(state: StoreView, id: u64, capacity: int, limit: int) -> Result<
    OperationView,
    Refusal,
> {
    if has_id(state.active, id) {
        if_it_fits(
            state,
            OperationView::Dismiss {
                notification: state.active[place(state.active, id)].with_archived(true),
            },
            capacity,
            limit,
        )
    } else {
        Err(not_found())
    }
}

pub open spec fn mark_read_outcome(state: StoreView, id: u64, capacity: int, limit: int) -> Result<
    OperationView,
    Refusal,
> {
    if has_id(state.active, id) {
        if_it_fits(state, OperationView::MarkRead { id }, capacity, limit)
    } else {
        Err(not_found())
    }
}

pub open spec fn set_dnd_outcome(
    state: StoreView,
    enabled: bool,
    capacity: int,
    limit: int,
) -> Result<OperationView, Refusal> {
    if_it_fits(state, OperationView::SetDnd { enabled }, capacity, limit)
}

/// Whether a list holds the members of another once each, in ascending order.
pub open spec fn sorted_set_of(sorted: Seq<u64>, ids: Seq<u64>) -> bool {
    &&& forall|k: int, l: int| 0 <= k < l < sorted.len() ==> sorted[k] < sorted[l]
    &&& forall|x: u64| sorted.contains(x) <==> ids.contains(x)
}

/// The members of a list once each, in ascending order.
pub fn sorted_ids(ids: &[u64]) -> (sorted: Vec<u64>)
    ensures
        sorted_set_of(sorted@, ids@),
{
    let mut sorted: Vec<u64> = Vec::new();
    for i in 0..ids.len()
        invariant
            sorted_set_of(sorted@, ids@.take(i as int)),
    {
        let id: u64 = ids[i];
        let mut at: usize = 0;
        while at < sorted.len() && sorted[at] < id
            invariant
                at <= sorted@.len(),
                forall|k: int| 0 <= k < at ==> sorted@[k] < id,
            decreases sorted@.len() - at,
        {
            at = at + 1;
        }
        let ghost before = sorted@;
        if at >= sorted.len() || sorted[at] != id {
            sorted.insert(at, id);
        }
        proof {
            let taken = ids@.take(i as int);
            let longer = ids@.take(i + 1);
            assert(longer =~= taken.push(id));
            assert forall|x: u64| longer.contains(x) <==> (taken.contains(x) || x == id) by {
                if longer.contains(x) {
                    let k = choose|k: int| 0 <= k < longer.len() && longer[k] == x;
                    if k < taken.len() {
                        assert(taken[k] == x);
                    }
                }
                if taken.contains(x) {
                    let k = choose|k: int| 0 <= k < taken.len() && taken[k] == x;
                    assert(longer[k] == x);
                }
                assert(longer[i as int] == id);
            }
            if at >= before.len() || before[at as int] != id {
                assert(sorted@ =~= before.insert(at as int, id));
                assert forall|k: int| at <= k < before.len() implies before[k] > id by {
                    if k > at {
                        assert(before[at as int] < before[k]);
                    }
                }
                assert forall|k: int, l: int| 0 <= k < l < sorted@.len() implies sorted@[k]
                    < sorted@[l] by {
                    let ok = if k <= at {
                        k
                    } else {
                        k - 1
                    };
                    let ol = if l <= at {
                        l
                    } else {
                        l - 1
                    };
                    if k != at && l != at {
                        assert(before[ok] < before[ol]);
                    }
                }
                assert forall|x: u64| sorted@.contains(x) <==> (before.contains(x) || x
                    == id) by {
                    if sorted@.contains(x) {
                        let k = choose|k: int| 0 <= k < sorted@.len() && sorted@[k] == x;
                        if k < at {
                            assert(before[k] == x);
                        } else if k > at {
                            assert(before[k - 1] == x);
                        }
                    }
                    if before.contains(x) {
                        let k = choose|k: int| 0 <= k < before.len() && before[k] == x;
                        if k < at {
                            assert(sorted@[k] == x);
                        } else {
                            assert(sorted@[k + 1] == x);
                        }
                    }
                    assert(sorted@[at as int] == id);
                }
            } else {
                assert(before[at as int] == id);
                assert(before.contains(id));
                assert(sorted@ == before);
            }
            assert forall|x: u64| sorted@.contains(x) <==> longer.contains(x) by {
                assert(before.contains(x) <==> taken.contains(x));
                assert(longer.contains(x) <==> (taken.contains(x) || x == id));
            }
            assert(forall|k: int, l: int| 0 <= k < l < sorted@.len() ==> sorted@[k] < sorted@[l]);
        }
    }
    assert(ids@.take(ids@.len() as int) =~= ids@);
    sorted
}

/// What a request to expire the actions of some notifications leads to; `None`
/// if there is nothing to do.
pub open spec fn expire_outcome(
    state: StoreView,
    sorted: Seq<u64>,
    capacity: int,
    limit: int,
) -> Result<OperationView, Refusal> {
    if exists|k: int| 0 <= k < sorted.len() && !state.knows(#[trigger] sorted[k]) {
        Err(not_found())
    } else {
        if_it_fits(state, OperationView::ExpireActions { ids: sorted }, capacity, limit)
    }
}

/// The operation that was planned, if one was, or why none could be.
pub open spec fn optional_plan(change: Result<Option<PendingChange>, SessionError>) -> Result<
    Option<OperationView>,
    Refusal,
> {
    match change {
        Ok(Some(change)) => Ok(Some(change.op())),
        Ok(None) => Ok(None),
        Err(error) => Err((error.kind, error.message@)),
    }
}

/// Whether expiring the actions of listed notifications leads to a plan. Nothing is
/// planned for an empty list.
pub open spec fn expiry_by(
    state: StoreView,
    ids: Seq<u64>,
    capacity: int,
    limit: int,
    plan: Result<Option<OperationView>, Refusal>,
) -> bool {
    if ids.len() == 0 {
        plan == Ok::<Option<OperationView>, Refusal>(None)
    } else {
        exists|sorted: Seq<u64>| #[trigger]
            sorted_set_of(sorted, ids) && plan == match expire_outcome(
                state,
                sorted,
                capacity,
                limit,
            ) {
                Ok(operation) => Ok(Some(operation)),
                Err(refusal) => Err(refusal),
            }
    }
}

/// Whether these are the notifications with an action that can still be invoked.
pub open spec fn have_actions(state: StoreView, ids: Seq<u64>) -> bool {
    forall|x: u64| #[trigger]
        ids.contains(x) <==> exists|i: int|
            0 <= i < state.all().len() && #[trigger] state.all()[i].id == x
                && state.all()[i].has_available_action()
}

/// Whether expiring every action that can still be invoked leads to a plan.
pub open spec fn leftovers_by(
    state: StoreView,
    capacity: int,
    limit: int,
    plan: Result<Option<OperationView>, Refusal>,
) -> bool {
    exists|ids: Seq<u64>| #[trigger]
        have_actions(state, ids) && expiry_by(state, ids, capacity, limit, plan)
}

// ---------------------------------------------------------------------------
// The store
// ---------------------------------------------------------------------------

impl NotificationStore {
    /// The notifications and preferences that the store holds.
    pub closed spec fn state(&self) -> StoreView {
        StoreView {
            active: document_views(self.active@),
            archive: document_views(self.archive@),
            preferences: self.preferences,
        }
    }

    pub closed spec fn log_state(&self) -> LogState {
        self.log
    }

    pub closed spec fn capacity(&self) -> int {
        self.capacity as int
    }

    pub closed spec fn limit(&self) -> int {
        self.aggregate_limit as int
    }

    /// What holds of every store between two calls.
    pub closed spec fn wf(&self) -> bool {
        &&& self.state().well_formed(self.capacity as int)
        &&& self.capacity >= 1
        &&& 0 < self.aggregate_limit < MAX_DURABLE_FILE_BYTES
        &&& self.state().aggregate_size() <= self.aggregate_limit
        &&& self.active_json_bytes == documents_size(self.state().active)
        &&& self.archive_json_bytes == documents_size(self.state().archive)
        &&& self.preferences_json_bytes == byte_len(preferences_json(self.preferences))
        &&& self.log.next_sequence >= 1
    }

    /// What a caller may rely on in every store.
    pub proof fn holds(&self)
        requires
            self.wf(),
        ensures
            self.state().well_formed(self.capacity()),
            self.capacity() >= 1,
            self.state().aggregate_size() <= self.limit(),
            self.log_state().next_sequence >= 1,
    {
    }

    /// Whether a change was planned against the present state.
    pub closed spec fn planned(&self, change: &PendingChange) -> bool {
        let after = effect(self.state(), change.op(), self.capacity as int);
        &&& issued_in(self.state(), change.op(), self.capacity as int)
        &&& change.active_bytes == documents_size(after.active)
        &&& change.archive_bytes == documents_size(after.archive)
        &&& change.preferences == after.preferences
        &&& change.preferences_bytes == byte_len(preferences_json(after.preferences))
        &&& after.aggregate_size() <= self.aggregate_limit
    }

    /// Whether a plan is what a request leads to.
    pub open spec fn plans(
        &self,
        change: Result<PendingChange, SessionError>,
        outcome: Result<OperationView, Refusal>,
    ) -> bool {
        match outcome {
            Ok(operation) => change is Ok && change->Ok_0.op() == operation && self.planned(
                &change->Ok_0,
            ),
            Err(refusal) => refused(change, refusal),
        }
    }

    /// A planned change is one that the store can issue.
    pub proof fn planned_is_issued(&self, change: &PendingChange)
        requires
            self.planned(change),
        ensures
            issued_in(self.state(), change.op(), self.capacity()),
    {
    }

    proof fn parts_are_small(&self)
        requires
            self.wf(),
        ensures
            self.active_json_bytes <= self.aggregate_limit,
            self.archive_json_bytes <= self.aggregate_limit,
            self.active@.len() <= self.aggregate_limit,
            self.archive@.len() <= self.aggregate_limit,
    {
        aggregate_size_from_its_parts(self.state());
        size_is_at_least_the_count(self.state().active);
        size_is_at_least_the_count(self.state().archive);
    }

    /// The active notifications, oldest first.
    pub fn active(&self) -> (active: &[NotificationDocument])
        ensures
            document_views(active@) == self.state().active,
    {
        self.active.as_slice()
    }

    /// The archived notifications, in the order in which they were archived.
    pub fn archive(&self) -> (archive: &[NotificationDocument])
        ensures
            document_views(archive@) == self.state().archive,
    {
        self.archive.as_slice()
    }

    pub fn dnd(&self) -> (dnd: bool)
        ensures
            dnd == self.state().preferences.dnd,
    {
        self.preferences.dnd
    }

    pub fn preferences(&self) -> (preferences: Preferences)
        ensures
            preferences == self.state().preferences,
    {
        self.preferences
    }

    /// Where the log stands.
    pub fn log(&self) -> (log: LogState)
        ensures
            log == self.log_state(),
    {
        self.log
    }

    /// The number of active notifications that were not read.
    pub fn unread_count(&self) -> (count: usize)
        ensures
            count == self.state().active.filter(|document: NotificationView| !document.read).len(),
    {
        let mut count: usize = 0;
        let ghost views = self.state().active;
        let ghost unread = |document: NotificationView| !document.read;
        assert(views.take(0) =~= Seq::<NotificationView>::empty());
        assert(Seq::<NotificationView>::empty().filter(unread).len() == 0) by {
            reveal(Seq::filter);
        }
        for i in 0..self.active.len()
            invariant
                views == self.state().active,
                unread == (|document: NotificationView| !document.read),
                count == views.take(i as int).filter(unread).len(),
                count <= i,
        {
            proof {
                reveal(Seq::filter);
                assert(views.take(i + 1).drop_last() =~= views.take(i as int));
                assert(views.take(i + 1).last() == self.active@[i as int]@);
            }
            if !self.active[i].read {
                count = count + 1;
            }
        }
        assert(views.take(self.active@.len() as int) =~= views);
        count
    }

    /// Whether a notification may be shown at once.
    pub fn popup_allowed(&self, notification: &NotificationDocument) -> (allowed: bool)
        ensures
            allowed == (!self.state().preferences.dnd || notification.urgency
                == NotificationUrgency::Critical),
    {
        !self.preferences.dnd || matches!(notification.urgency, NotificationUrgency::Critical)
    }

    /// The active notification with an identifier.
    pub fn find_active(&self, id: u64) -> (at: Option<usize>)
        ensures
            match at {
                Some(i) => i < self.state().active.len() && i == place(self.state().active, id)
                    && self.state().active[i as int].id == id,
                None => !has_id(self.state().active, id),
            },
    {
        find_id(self.active.as_slice(), id)
    }

    /// The notification as it would be stored, with its identifier assigned.
    pub fn prepare_push(&self, notification: &NotificationDocument) -> (prepared: Result<
        NotificationDocument,
        SessionError,
    >)
        requires
            self.wf(),
        ensures
            match assigned(self.state(), notification@) {
                Ok(candidate) => prepared is Ok && prepared->Ok_0@ == candidate,
                Err(refusal) => refused(prepared, refusal),
            },
    {
        let mut candidate = notification.copy();
        if notification.id == 0 {
            if self.preferences.next_notification_id > 4294967295 {
                return Err(
                    SessionError::new(
                        ErrorKind::OutOfMemory,
                        "D-Bus notification identifiers exhausted",
                    ),
                );
            }
            candidate.id = self.preferences.next_notification_id;
        } else if notification.id == u64::MAX {
            return Err(
                SessionError::new(ErrorKind::OutOfMemory, "notification identifiers exhausted"),
            );
        }
        Ok(candidate)
    }
}

impl NotificationStore {
    /// Plans to show a notification. The verdict is what the schema validator
    /// objects to in the prepared notification.
    pub fn push(&self, notification: &NotificationDocument, verdict: Option<String>) -> (change:
        Result<PendingChange, SessionError>)
        requires
            self.wf(),
        ensures
            self.plans(
                change,
                push_outcome(
                    self.state(),
                    notification@,
                    verdict_view(verdict),
                    self.capacity(),
                    self.limit(),
                ),
            ),
    {
        let mut shown = match self.prepare_push(notification) {
            Ok(prepared) => prepared,
            Err(error) => {
                return Err(error);
            },
        };
        match validate_document(&shown, &verdict) {
            Ok(()) => {},
            Err(error) => {
                return Err(error);
            },
        }
        let ghost candidate = shown@;
        let ghost state = self.state();
        let existing = find_id(self.active.as_slice(), shown.id);
        let in_archive = find_id(self.archive.as_slice(), shown.id).is_some();
        proof {
            place_facts(state.active, shown.id);
            place_facts(state.archive, shown.id);
            well_formed_by_lists(state, self.capacity as int);
        }
        if existing.is_none() && in_archive {
            return Err(
                SessionError::new(
                    ErrorKind::AlreadyExists,
                    "archived notification identifiers cannot be reused",
                ),
            );
        }
        shown.archived = false;
        proof {
            assert(shown@ =~= candidate.with_archived(false));
            marks_change_sizes_little(candidate);
            self.parts_are_small();
            if existing is Some {
                let at = existing->Some_0 as int;
                assert(state.active[at].id == candidate.id);
                without_id_removes_one(state.active, at);
                size_of_remove(state.active, at);
                assert forall|j: int| 0 <= j < state.archive.len() implies #[trigger]
                    state.archive[j].id != candidate.id by {
                    assert(state.active[at].id != state.archive[j].id);
                }
            } else {
                without_id_facts(state.active, candidate.id);
            }
        }
        let ghost rest = without_id(state.active, candidate.id);
        let mut preferences = self.preferences;
        if shown.id >= preferences.next_notification_id {
            preferences.next_notification_id = shown.id + 1;
        }
        let mut active_bytes: usize = self.active_json_bytes;
        if let Some(at) = existing {
            active_bytes = active_bytes - document_bytes(&self.active[at]);
        }
        assert(active_bytes == documents_size(rest));
        active_bytes = active_bytes + document_bytes(&shown);
        proof {
            size_of_push(rest, shown@);
        }
        let ghost kept = rest.push(shown@);
        let active_count: usize = if existing.is_some() {
            self.active.len()
        } else {
            self.active.len() + 1
        };
        let mut archived: Vec<NotificationDocument> = Vec::new();
        let mut archive_bytes: usize = self.archive_json_bytes;
        let mut final_count: usize = active_count;
        if active_count > self.capacity {
            let mut oldest = self.active[0].copy();
            proof {
                assert(rest == state.active);
                assert(kept[0] == state.active[0]);
                size_of_remove(kept, 0);
                assert(kept.remove(0) =~= kept.skip(1));
                marks_change_sizes_little(state.active[0]);
                size_of_remove(state.active, 0);
                size_of_push(state.archive, state.active[0].with_archived(true));
            }
            active_bytes = active_bytes - document_bytes(&oldest);
            let ghost was = oldest@;
            oldest.archived = true;
            assert(oldest@ =~= was.with_archived(true));
            archive_bytes = archive_bytes + document_bytes(&oldest);
            archived.push(oldest);
            final_count = self.capacity;
        }
        let ghost operation = OperationView::Push {
            notification: shown@,
            archived: state.evicted(shown@, self.capacity as int),
        };
        let ghost after = effect(state, operation, self.capacity as int);
        proof {
            assert(document_views(archived@) =~= state.evicted(shown@, self.capacity as int));
            assert(after == state.pushed(shown@, self.capacity as int));
        }
        let new_preferences_bytes: usize = preferences_bytes(&preferences);
        match ensure_aggregate_parts(
            final_count,
            self.archive.len() + archived.len(),
            active_bytes,
            archive_bytes,
            new_preferences_bytes,
            self.aggregate_limit,
            Ghost(after),
        ) {
            Ok(()) => {},
            Err(error) => {
                return Err(error);
            },
        }
        Ok(
            PendingChange {
                operation: StoreOperation::Push { notification: shown, archived },
                active_bytes,
                archive_bytes,
                preferences,
                preferences_bytes: new_preferences_bytes,
            },
        )
    }

    /// Plans to move an active notification to the archive.
    pub fn dismiss(&self, id: u64) -> (change: Result<PendingChange, SessionError>)
        requires
            self.wf(),
        ensures
            self.plans(
                change,
                dismiss_outcome(self.state(), id, self.capacity(), self.limit()),
            ),
    {
        let ghost state = self.state();
        proof {
            place_facts(state.active, id);
            well_formed_by_lists(state, self.capacity as int);
        }
        let at: usize = match find_id(self.active.as_slice(), id) {
            Some(at) => at,
            None => {
                return Err(SessionError::new(ErrorKind::NotFound, "notification not found"));
            },
        };
        let mut moved = self.active[at].copy();
        let ghost was = moved@;
        proof {
            assert(was == state.active[at as int]);
            self.parts_are_small();
            without_id_removes_one(state.active, at as int);
            size_of_remove(state.active, at as int);
            marks_change_sizes_little(was);
            size_of_push(state.archive, was.with_archived(true));
        }
        let active_bytes: usize = self.active_json_bytes - document_bytes(&moved);
        moved.archived = true;
        assert(moved@ =~= was.with_archived(true));
        let archive_bytes: usize = self.archive_json_bytes + document_bytes(&moved);
        let ghost operation = OperationView::Dismiss { notification: moved@ };
        let ghost after = effect(state, operation, self.capacity as int);
        match ensure_aggregate_parts(
            self.active.len() - 1,
            self.archive.len() + 1,
            active_bytes,
            archive_bytes,
            self.preferences_json_bytes,
            self.aggregate_limit,
            Ghost(after),
        ) {
            Ok(()) => {},
            Err(error) => {
                return Err(error);
            },
        }
        assert(state.active[at as int].with_archived(true) == moved@);
        Ok(
            PendingChange {
                operation: StoreOperation::Dismiss { notification: moved },
                active_bytes,
                archive_bytes,
                preferences: self.preferences,
                preferences_bytes: self.preferences_json_bytes,
            },
        )
    }

    /// Plans to mark an active notification as read.
    pub fn mark_read(&self, id: u64) -> (change: Result<PendingChange, SessionError>)
        requires
            self.wf(),
        ensures
            self.plans(
                change,
                mark_read_outcome(self.state(), id, self.capacity(), self.limit()),
            ),
    {
        let ghost state = self.state();
        proof {
            place_facts(state.active, id);
            well_formed_by_lists(state, self.capacity as int);
        }
        let at: usize = match find_id(self.active.as_slice(), id) {
            Some(at) => at,
            None => {
                return Err(SessionError::new(ErrorKind::NotFound, "notification not found"));
            },
        };
        let mut updated = self.active[at].copy();
        let ghost was = updated@;
        let old_length: usize = document_bytes(&updated);
        updated.read = true;
        assert(updated@ =~= was.with_read(true));
        let ghost operation = OperationView::MarkRead { id };
        let ghost after = effect(state, operation, self.capacity as int);
        proof {
            assert(was == state.active[at as int]);
            self.parts_are_small();
            size_of_update(state.active, at as int, was.with_read(true));
            marks_change_sizes_little(was);
            assert(marked_read(state.active, id) =~= state.active.update(
                at as int,
                was.with_read(true),
            )) by {
                assert forall|i: int| 0 <= i < state.active.len() && i != at implies #[trigger]
                    state.active[i].id != id by {
                    assert(state.active[i].id != state.active[at as int].id);
                }
            }
        }
        let active_bytes: usize = self.active_json_bytes - old_length + document_bytes(&updated);
        match ensure_aggregate_parts(
            self.active.len(),
            self.archive.len(),
            active_bytes,
            self.archive_json_bytes,
            self.preferences_json_bytes,
            self.aggregate_limit,
            Ghost(after),
        ) {
            Ok(()) => {},
            Err(error) => {
                return Err(error);
            },
        }
        Ok(
            PendingChange {
                operation: StoreOperation::MarkRead { id },
                active_bytes,
                archive_bytes: self.archive_json_bytes,
                preferences: self.preferences,
                preferences_bytes: self.preferences_json_bytes,
            },
        )
    }

    /// Plans to turn the do-not-disturb mode on or off.
    pub fn set_dnd(&self, enabled: bool) -> (change: Result<PendingChange, SessionError>)
        requires
            self.wf(),
        ensures
            self.plans(
                change,
                set_dnd_outcome(self.state(), enabled, self.capacity(), self.limit()),
            ),
    {
        let mut preferences = self.preferences;
        preferences.dnd = enabled;
        let new_bytes: usize = preferences_bytes(&preferences);
        let ghost after = effect(
            self.state(),
            OperationView::SetDnd { enabled },
            self.capacity as int,
        );
        match ensure_aggregate_parts(
            self.active.len(),
            self.archive.len(),
            self.active_json_bytes,
            self.archive_json_bytes,
            new_bytes,
            self.aggregate_limit,
            Ghost(after),
        ) {
            Ok(()) => {},
            Err(error) => {
                return Err(error);
            },
        }
        Ok(
            PendingChange {
                operation: StoreOperation::SetDnd { enabled },
                active_bytes: self.active_json_bytes,
                archive_bytes: self.archive_json_bytes,
                preferences,
                preferences_bytes: new_bytes,
            },
        )
    }

    /// Plans to drop the whole archive.
    pub fn purge_archive(&self) -> (change: PendingChange)
        requires
            self.wf(),
        ensures
            change.op() == OperationView::PurgeArchive,
            self.planned(&change),
    {
        proof {
            let after = effect(self.state(), OperationView::PurgeArchive, self.capacity as int);
            aggregate_size_from_its_parts(self.state());
            aggregate_size_from_its_parts(after);
        }
        PendingChange {
            operation: StoreOperation::PurgeArchive,
            active_bytes: self.active_json_bytes,
            archive_bytes: 0,
            preferences: self.preferences,
            preferences_bytes: self.preferences_json_bytes,
        }
    }

    /// Plans to expire every action of the listed notifications; nothing is
    /// planned for an empty list.
    pub fn expire_actions(&self, ids: &[u64]) -> (change: Result<
        Option<PendingChange>,
        SessionError,
    >)
        requires
            self.wf(),
        ensures
            expiry_by(self.state(), ids@, self.capacity(), self.limit(), optional_plan(change)),
            change matches Ok(Some(change)) ==> self.planned(&change),
    {
        if ids.len() == 0 {
            return Ok(None);
        }
        let sorted = sorted_ids(ids);
        let ghost state = self.state();
        assert(sorted_set_of(sorted@, ids@));
        proof {
            assert(ids@.contains(ids@[0]));
            assert(sorted@.contains(ids@[0]));
        }
        for k in 0..sorted.len()
            invariant
                state == self.state(),
                sorted_set_of(sorted@, ids@),
                ids@.len() > 0,
                forall|j: int| 0 <= j < k ==> state.knows(#[trigger] sorted@[j]),
        {
            let known = find_id(self.active.as_slice(), sorted[k]).is_some() || find_id(
                self.archive.as_slice(),
                sorted[k],
            ).is_some();
            proof {
                place_facts(state.active, sorted@[k as int]);
                place_facts(state.archive, sorted@[k as int]);
            }
            if !known {
                assert(!state.knows(sorted@[k as int]));
                return Err(SessionError::new(ErrorKind::NotFound, "notification not found"));
            }
        }
        proof {
            self.parts_are_small();
        }
        let active_bytes: usize = expired_bytes(
            self.active.as_slice(),
            sorted.as_slice(),
            self.active_json_bytes,
        );
        let archive_bytes: usize = expired_bytes(
            self.archive.as_slice(),
            sorted.as_slice(),
            self.archive_json_bytes,
        );
        let ghost operation = OperationView::ExpireActions { ids: sorted@ };
        let ghost after = effect(state, operation, self.capacity as int);
        match ensure_aggregate_parts(
            self.active.len(),
            self.archive.len(),
            active_bytes,
            archive_bytes,
            self.preferences_json_bytes,
            self.aggregate_limit,
            Ghost(after),
        ) {
            Ok(()) => {},
            Err(error) => {
                return Err(error);
            },
        }
        Ok(
            Some(
                PendingChange {
                    operation: StoreOperation::ExpireActions { ids: sorted },
                    active_bytes,
                    archive_bytes,
                    preferences: self.preferences,
                    preferences_bytes: self.preferences_json_bytes,
                },
            ),
        )
    }

    /// The notifications with an action that can still be invoked.
    pub fn ids_with_actions(&self) -> (ids: Vec<u64>)
        ensures
            forall|x: u64|
                ids@.contains(x) <==> exists|i: int|
                    0 <= i < self.state().all().len() && #[trigger] self.state().all()[i].id == x
                        && self.state().all()[i].has_available_action(),
    {
        let mut ids: Vec<u64> = Vec::new();
        let ghost all = self.state().all();
        for i in 0..self.active.len()
            invariant
                all == self.state().all(),
                forall|x: u64| #[trigger] ids@.contains(x) <==> available_before(all, i as int, x),
        {
            assert(all[i as int] == self.active@[i as int]@);
            let ghost before = ids@;
            if self.active[i].has_available_action() {
                ids.push(self.active[i].id);
            }
            proof {
                one_more_available(all, i as int, before, ids@);
            }
        }
        for i in 0..self.archive.len()
            invariant
                all == self.state().all(),
                forall|x: u64| #[trigger]
                    ids@.contains(x) <==> available_before(all, self.active@.len() + i, x),
        {
            assert(all[self.active@.len() + i] == self.archive@[i as int]@);
            let ghost before = ids@;
            if self.archive[i].has_available_action() {
                ids.push(self.archive[i].id);
            }
            proof {
                one_more_available(all, self.active@.len() + i, before, ids@);
            }
        }
        assert(all.len() == self.active@.len() + self.archive@.len());
        ids
    }

    /// Plans to expire every action that can still be invoked.
    pub fn expire_all_actions(&self) -> (change: Result<Option<PendingChange>, SessionError>)
        requires
            self.wf(),
        ensures
            leftovers_by(self.state(), self.capacity(), self.limit(), optional_plan(change)),
            change matches Ok(Some(change)) ==> self.planned(&change),
    {
        let ids = self.ids_with_actions();
        let change = self.expire_actions(ids.as_slice());
        proof {
            assert(have_actions(self.state(), ids@));
        }
        change
    }

    /// Takes a planned change into memory.
    fn commit(&mut self, change: PendingChange) -> (result: PushResult)
        requires
            old(self).wf(),
            old(self).planned(&change),
        ensures
            final(self).wf(),
            final(self).state() == effect(old(self).state(), change.op(), old(self).capacity()),
            final(self).log_state() == old(self).log_state(),
            final(self).capacity() == old(self).capacity(),
            final(self).limit() == old(self).limit(),
            change.op() matches OperationView::Push { notification, archived } ==> {
                &&& result.id == notification.id
                &&& result.archived_ids@ == archived.map_values(|d: NotificationView| d.id)
            },
    {
        let ghost state = self.state();
        let ghost capacity = self.capacity as int;
        let ghost operation = change.op();
        proof {
            well_formed_by_lists(state, capacity);
            effect_keeps_well_formed(state, operation, capacity);
        }
        self.active_json_bytes = change.active_bytes;
        self.archive_json_bytes = change.archive_bytes;
        self.preferences = change.preferences;
        self.preferences_json_bytes = change.preferences_bytes;
        let mut result = PushResult { id: 0, archived_ids: Vec::new() };
        match change.operation {
            StoreOperation::SetDnd { enabled: _ } => {},
            StoreOperation::Push { notification, mut archived } => {
                result.id = notification.id;
                for i in 0..archived.len()
                    invariant
                        result.id == notification.id,
                        result.archived_ids@ == document_views(archived@).take(i as int).map_values(
                            |d: NotificationView| d.id,
                        ),
                {
                    let ghost before = result.archived_ids@;
                    result.archived_ids.push(archived[i].id);
                    assert(document_views(archived@).take(i + 1).map_values(
                        |d: NotificationView| d.id,
                    ) =~= before.push(archived@[i as int].id));
                }
                assert(document_views(archived@).take(archived@.len() as int) =~= document_views(
                    archived@,
                ));
                let ghost shown = notification@;
                let ghost moved = document_views(archived@);
                assert(operation == OperationView::Push { notification: shown, archived: moved });
                assert(result.archived_ids@ == moved.map_values(|d: NotificationView| d.id));
                proof {
                    place_facts(state.active, shown.id);
                    without_id_facts(state.active, shown.id);
                }
                if let Some(at) = find_id(self.active.as_slice(), notification.id) {
                    proof {
                        without_id_removes_one(state.active, at as int);
                    }
                    let _ = self.active.remove(at);
                    assert(document_views(self.active@) =~= state.active.remove(at as int));
                }
                let ghost rest = without_id(state.active, shown.id);
                assert(document_views(self.active@) == rest);
                self.active.push(notification);
                assert(document_views(self.active@) =~= rest.push(shown));
                if archived.len() > 0 {
                    let _ = self.active.remove(0);
                    assert(document_views(self.active@) =~= rest.push(shown).skip(1));
                    let ghost archive_before = self.archive@;
                    self.archive.append(&mut archived);
                    assert(document_views(self.archive@) =~= state.archive + moved);
                    assert(state.archive + moved =~= state.archive.push(
                        rest.push(shown).first().with_archived(true),
                    ));
                }
            },
            StoreOperation::Dismiss { notification } => {
                let ghost moved = notification@;
                proof {
                    let i = choose|i: int|
                        0 <= i < state.active.len() && #[trigger] state.active[i].with_archived(
                            true,
                        ) == moved;
                    assert(state.active[i].id == moved.id);
                    place_facts(state.active, moved.id);
                }
                if let Some(at) = find_id(self.active.as_slice(), notification.id) {
                    proof {
                        without_id_removes_one(state.active, at as int);
                    }
                    let _ = self.active.remove(at);
                    assert(document_views(self.active@) =~= state.active.remove(at as int));
                }
                self.archive.push(notification);
                assert(document_views(self.archive@) =~= state.archive.push(moved));
            },
            StoreOperation::MarkRead { id } => {
                proof {
                    place_facts(state.active, id);
                }
                if let Some(at) = find_id(self.active.as_slice(), id) {
                    let mut updated = self.active[at].copy();
                    let ghost was = updated@;
                    updated.read = true;
                    assert(updated@ =~= was.with_read(true));
                    self.active.set(at, updated);
                    assert(document_views(self.active@) =~= marked_read(state.active, id)) by {
                        assert forall|i: int|
                            0 <= i < state.active.len() && i != at implies #[trigger]
                            state.active[i].id != id by {
                            assert(state.active[i].id != state.active[at as int].id);
                        }
                    }
                }
            },
            StoreOperation::ExpireActions { ids } => {
                expire_listed(&mut self.active, ids.as_slice());
                expire_listed(&mut self.archive, ids.as_slice());
            },
            StoreOperation::PurgeArchive => {
                self.archive.clear();
                assert(document_views(self.archive@) =~= Seq::<NotificationView>::empty());
            },
        }
        assert(self.state() =~= effect(state, operation, capacity));
        result
    }

    /// The record of a change, as it will stand in the log.
    pub open spec fn next_line(&self, operation: OperationView) -> Seq<char> {
        record_line(self.log_state().next_sequence, operation)
    }

    /// Whether a change may be made: its record may be written, and when it is in
    /// memory the checkpoint that is due may be published, and not before.
    pub open spec fn may_apply<
        W: FnOnce(&NotificationStore, &LogPlan, &str) -> Result<(), SessionError>,
        K: FnOnce(&NotificationStore, u64) -> Result<(), SessionError>,
    >(&self, operation: OperationView, write: W, publish: K) -> bool {
        let line = self.next_line(operation);
        let length = byte_len(line) as int;
        let log = self.log_state();
        log.append_refusal(length) is None ==> {
            &&& may_write(write, self.state(), log.ready_for(length), log.plan_for(length), line)
            &&& can_be_written(
                write,
                self.state(),
                log.ready_for(length),
                log.plan_for(length),
                line,
            ) && log.next_sequence < u64::MAX ==> may_publish(
                publish,
                effect(self.state(), operation, self.capacity()),
                log.ready_for(length).after_append(length),
            )
        }
    }

    /// Whether a change is made: its record is written first, then memory takes the
    /// change over, and then the checkpoint that is due is published. A write that
    /// fails leaves memory as it was, and the store takes no further change.
    pub open spec fn applied<
        W: FnOnce(&NotificationStore, &LogPlan, &str) -> Result<(), SessionError>,
        K: FnOnce(&NotificationStore, u64) -> Result<(), SessionError>,
    >(
        before: NotificationStore,
        operation: OperationView,
        write: W,
        publish: K,
        result: Result<PushResult, SessionError>,
        after: NotificationStore,
    ) -> bool {
        let line = before.next_line(operation);
        let length = byte_len(line) as int;
        let log = before.log_state();
        &&& after.capacity() == before.capacity()
        &&& after.limit() == before.limit()
        &&& match log.append_refusal(length) {
            Some(refusal) => {
                &&& refused(result, refusal)
                &&& after.state() == before.state()
                &&& log.poisoned || length > SEGMENT_LIMIT_BYTES ==> after.log_state() == log
                &&& length <= SEGMENT_LIMIT_BYTES ==> after.log_state().poisoned
            },
            None => exists|written: Result<(), SessionError>| #[trigger]
                wrote(
                    write,
                    before.state(),
                    log.ready_for(length),
                    log.plan_for(length),
                    line,
                    written,
                ) && match written {
                    Err(error) => {
                        &&& result == Err::<PushResult, SessionError>(error)
                        &&& after.state() == before.state()
                        &&& after.log_state() == log.ready_for(length)
                    },
                    Ok(()) => if log.next_sequence == u64::MAX {
                        &&& refused(
                            result,
                            (ErrorKind::OutOfMemory, "notification sequence exhausted"@),
                        )
                        &&& after.state() == before.state()
                        &&& after.log_state().poisoned
                    } else {
                        &&& after.state() == effect(before.state(), operation, before.capacity())
                        &&& Self::settled(
                            operation,
                            log.ready_for(length).after_append(length),
                            publish,
                            result,
                            after,
                        )
                    },
                },
        }
    }

    /// Whether a change that is in memory is ended.
    pub open spec fn settled<K: FnOnce(&NotificationStore, u64) -> Result<(), SessionError>>(
        operation: OperationView,
        log: LogState,
        publish: K,
        result: Result<PushResult, SessionError>,
        after: NotificationStore,
    ) -> bool {
        if log.due() is Some {
            exists|published: Result<(), SessionError>| #[trigger]
                published_as(publish, after.state(), log, published) && match published {
                    Err(error) => {
                        &&& result == Err::<PushResult, SessionError>(error)
                        &&& after.log_state() == log
                    },
                    Ok(()) => {
                        &&& reported(operation, result)
                        &&& after.log_state() == log.after_finish()
                    },
                }
        } else {
            &&& reported(operation, result)
            &&& after.log_state() == log.after_finish()
        }
    }

    /// Makes a planned change: writes its record, takes it into memory and publishes
    /// the checkpoint that is due, if one is, in this order.
    pub fn apply<
        W: FnOnce(&NotificationStore, &LogPlan, &str) -> Result<(), SessionError>,
        K: FnOnce(&NotificationStore, u64) -> Result<(), SessionError>,
    >(&mut self, change: PendingChange, write: W, publish: K) -> (result: Result<
        PushResult,
        SessionError,
    >)
        requires
            old(self).wf(),
            old(self).planned(&change),
            old(self).may_apply(change.op(), write, publish),
        ensures
            final(self).wf(),
            Self::applied(*old(self), change.op(), write, publish, result, *final(self)),
    {
        let ghost before = *self;
        let ghost operation = change.op();
        let line = record_text(self.log.next_sequence, &change.operation);
        let length: usize = text_bytes(line.as_str());
        let plan = match self.log.plan_append(length) {
            Ok(plan) => plan,
            Err(error) => return Err(error),
        };
        let written = write(&*self, &plan, line.as_str());
        assert(wrote(write, before.state(), self.log_state(), plan, line@, written));
        let append = match self.log.appended(length, written) {
            Ok(append) => append,
            Err(error) => return Err(error),
        };
        let result = self.commit(change);
        let published = match self.log.checkpoint_due() {
            Some(sequence) => {
                let published = publish(&*self, sequence);
                assert(published_as(publish, self.state(), self.log_state(), published));
                published
            },
            None => Ok(()),
        };
        match self.log.finish(append, published) {
            Ok(()) => Ok(result),
            Err(error) => Err(error),
        }
    }
}

/// Whether a record may be written by a store in a state.
pub open spec fn may_write<
    W: FnOnce(&NotificationStore, &LogPlan, &str) -> Result<(), SessionError>,
>(write: W, state: StoreView, log: LogState, plan: LogPlan, line: Seq<char>) -> bool {
    forall|store: &NotificationStore, told: &LogPlan, text: &str|
        store.state() == state && store.log_state() == log && *told == plan && text@ == line
            ==> #[trigger] call_requires(write, (store, told, text))
}

/// Whether writing a record can end in a way.
pub open spec fn wrote<
    W: FnOnce(&NotificationStore, &LogPlan, &str) -> Result<(), SessionError>,
>(
    write: W,
    state: StoreView,
    log: LogState,
    plan: LogPlan,
    line: Seq<char>,
    written: Result<(), SessionError>,
) -> bool {
    exists|store: &NotificationStore, told: &LogPlan, text: &str| #[trigger]
        call_ensures(write, (store, told, text), written) && store.state() == state
            && store.log_state() == log && *told == plan && text@ == line
}

/// Whether a record can have been written.
pub open spec fn can_be_written<
    W: FnOnce(&NotificationStore, &LogPlan, &str) -> Result<(), SessionError>,
>(write: W, state: StoreView, log: LogState, plan: LogPlan, line: Seq<char>) -> bool {
    exists|written: Result<(), SessionError>| #[trigger]
        wrote(write, state, log, plan, line, written) && written is Ok
}

/// Whether the checkpoint that is due may be published by a store in a state.
pub open spec fn may_publish<K: FnOnce(&NotificationStore, u64) -> Result<(), SessionError>>(
    publish: K,
    state: StoreView,
    log: LogState,
) -> bool {
    forall|store: &NotificationStore, sequence: u64|
        store.state() == state && store.log_state() == log && log.due() == Some(sequence)
            ==> #[trigger] call_requires(publish, (store, sequence))
}

/// Whether publishing the checkpoint that is due can end in a way.
pub open spec fn published_as<K: FnOnce(&NotificationStore, u64) -> Result<(), SessionError>>(
    publish: K,
    state: StoreView,
    log: LogState,
    published: Result<(), SessionError>,
) -> bool {
    exists|store: &NotificationStore, sequence: u64| #[trigger]
        call_ensures(publish, (store, sequence), published) && store.state() == state
            && store.log_state() == log && log.due() == Some(sequence)
}

/// Whether the result of a change tells what it did.
pub open spec fn reported(
    operation: OperationView,
    result: Result<PushResult, SessionError>,
) -> bool {
    &&& result is Ok
    &&& operation matches OperationView::Push { notification, archived } ==> {
        &&& result->Ok_0.id == notification.id
        &&& result->Ok_0.archived_ids@ == archived.map_values(|d: NotificationView| d.id)
    }
}

/// A change that failed once its write was begun leaves the store refusing every
/// other, whatever it is, with memory and log as they are. Only a store that was
/// opened anew takes changes again.
pub proof fn after_a_failed_write_every_change_is_refused<
    W: FnOnce(&NotificationStore, &LogPlan, &str) -> Result<(), SessionError>,
    K: FnOnce(&NotificationStore, u64) -> Result<(), SessionError>,
    X: FnOnce(&NotificationStore, &LogPlan, &str) -> Result<(), SessionError>,
    L: FnOnce(&NotificationStore, u64) -> Result<(), SessionError>,
>(
    before: NotificationStore,
    operation: OperationView,
    write: W,
    publish: K,
    failed: Result<PushResult, SessionError>,
    stuck: NotificationStore,
    next: OperationView,
    next_write: X,
    next_publish: L,
    result: Result<PushResult, SessionError>,
    after: NotificationStore,
)
    requires
        NotificationStore::applied(before, operation, write, publish, failed, stuck),
        failed is Err,
        byte_len(before.next_line(operation)) <= SEGMENT_LIMIT_BYTES,
        NotificationStore::applied(stuck, next, next_write, next_publish, result, after),
    ensures
        refused(
            result,
            (
                ErrorKind::Other,
                "notification store requires restart after an ambiguous durable write"@,
            ),
        ),
        after.state() == stuck.state(),
        after.log_state() == stuck.log_state(),
        stuck.log_state().poisoned,
{
}

spec fn available_before(all: Seq<NotificationView>, end: int, x: u64) -> bool {
    exists|i: int|
        0 <= i < end && i < all.len() && #[trigger] all[i].id == x && all[i].has_available_action()
}

proof fn one_more_available(all: Seq<NotificationView>, at: int, before: Seq<u64>, after: Seq<u64>)
    requires
        0 <= at < all.len(),
        forall|x: u64| #[trigger] before.contains(x) <==> available_before(all, at, x),
        after == if all[at].has_available_action() {
            before.push(all[at].id)
        } else {
            before
        },
    ensures
        forall|x: u64| #[trigger] after.contains(x) <==> available_before(all, at + 1, x),
{
    assert forall|x: u64| #[trigger] after.contains(x) <==> available_before(all, at + 1, x) by {
        if after.contains(x) {
            let k = choose|k: int| 0 <= k < after.len() && after[k] == x;
            if k < before.len() {
                assert(before[k] == x);
                assert(before.contains(x));
                let i = choose|i: int|
                    0 <= i < at && i < all.len() && #[trigger] all[i].id == x
                        && all[i].has_available_action();
                assert(all[i].id == x);
            } else {
                assert(all[at].id == x);
            }
        }
        if available_before(all, at + 1, x) {
            let i = choose|i: int|
                0 <= i < at + 1 && i < all.len() && #[trigger] all[i].id == x
                    && all[i].has_available_action();
            if i < at {
                assert(available_before(all, at, x));
                assert(before.contains(x));
                let k = choose|k: int| 0 <= k < before.len() && before[k] == x;
                assert(after[k] == x);
            } else {
                assert(after[before.len() as int] == x);
            }
        }
    }
}

/// Whether an ascending list holds a number.
fn listed(sorted: &[u64], id: u64) -> (found: bool)
    ensures
        found == sorted@.contains(id),
{
    for k in 0..sorted.len()
        invariant
            forall|j: int| 0 <= j < k ==> sorted@[j] != id,
    {
        if sorted[k] == id {
            return true;
        }
    }
    false
}

/// The size of a list once the actions of the listed notifications are expired.
fn expired_bytes(documents: &[NotificationDocument], ids: &[u64], bytes: usize) -> (after: usize)
    requires
        bytes == documents_size(document_views(documents@)),
    ensures
        after == documents_size(expired_in(document_views(documents@), ids@)),
        after <= bytes,
{
    let mut after: usize = bytes;
    let ghost views = document_views(documents@);
    let ghost expired = expired_in(views, ids@);
    assert(views =~= expired.take(0) + views.skip(0));
    for i in 0..documents.len()
        invariant
            views == document_views(documents@),
            expired == expired_in(views, ids@),
            after == documents_size(expired.take(i as int) + views.skip(i as int)),
            after <= bytes,
    {
        let ghost current = expired.take(i as int) + views.skip(i as int);
        let ghost next = expired.take(i + 1) + views.skip(i + 1);
        assert(current[i as int] == documents@[i as int]@);
        assert(next =~= current.update(i as int, expired[i as int]));
        proof {
            size_of_update(current, i as int, expired[i as int]);
            expiry_never_grows(views[i as int]);
        }
        if listed(ids, documents[i].id) {
            let updated = documents[i].copy_expired();
            after = after - document_bytes(&documents[i]) + document_bytes(&updated);
        }
    }
    assert(expired.take(documents@.len() as int) + views.skip(documents@.len() as int)
        =~= expired);
    after
}

/// Expires the actions of the listed notifications.
fn expire_listed(documents: &mut Vec<NotificationDocument>, ids: &[u64])
    ensures
        document_views(final(documents)@) == expired_in(document_views(old(documents)@), ids@),
{
    let ghost views = document_views(documents@);
    let ghost expired = expired_in(views, ids@);
    assert(document_views(documents@) =~= expired.take(0) + views.skip(0));
    let count: usize = documents.len();
    for i in 0..count
        invariant
            count == views.len(),
            expired == expired_in(views, ids@),
            documents@.len() == views.len(),
            document_views(documents@) == expired.take(i as int) + views.skip(i as int),
    {
        let ghost current = document_views(documents@);
        assert(current[i as int] == views[i as int]);
        assert(documents@[i as int]@ == views[i as int]);
        if listed(ids, documents[i].id) {
            let updated = documents[i].copy_expired();
            documents.set(i, updated);
        }
        assert(expired[i as int] == expired_if_listed(views[i as int], ids@));
        assert(document_views(documents@) =~= current.update(i as int, expired[i as int]));
        assert(current.update(i as int, expired[i as int]) =~= expired.take(i + 1) + views.skip(
            i + 1,
        ));
    }
    assert(expired.take(views.len() as int) + views.skip(views.len() as int) =~= expired);
}

// ---------------------------------------------------------------------------
// Opening
// ---------------------------------------------------------------------------

/// The greatest identifier of a list, zero if it is empty.
pub open spec fn greatest_id(documents: Seq<NotificationView>) -> u64
    decreases documents.len(),
{
    if documents.len() == 0 {
        0
    } else {
        let earlier = greatest_id(documents.drop_last());
        if documents.last().id > earlier {
            documents.last().id
        } else {
            earlier
        }
    }
}

proof fn greatest_id_bounds(documents: Seq<NotificationView>)
    ensures
        forall|i: int| 0 <= i < documents.len() ==> #[trigger] documents[i].id <= greatest_id(
            documents,
        ),
        documents.len() > 0 ==> exists|i: int|
            0 <= i < documents.len() && #[trigger] documents[i].id == greatest_id(documents),
        documents.len() == 0 ==> greatest_id(documents) == 0,
    decreases documents.len(),
{
    if documents.len() > 0 {
        let shorter = documents.drop_last();
        greatest_id_bounds(shorter);
        assert forall|i: int| 0 <= i < documents.len() implies #[trigger] documents[i].id
            <= greatest_id(documents) by {
            if i < shorter.len() {
                assert(shorter[i] == documents[i]);
            }
        }
        if documents.last().id > greatest_id(shorter) || shorter.len() == 0 {
            assert(documents[documents.len() - 1].id == greatest_id(documents));
        } else {
            let i = choose|i: int|
                0 <= i < shorter.len() && #[trigger] shorter[i].id == greatest_id(shorter);
            assert(documents[i].id == greatest_id(documents));
        }
    }
}

proof fn greatest_id_of_both(a: Seq<NotificationView>, b: Seq<NotificationView>)
    ensures
        greatest_id(a + b) == if greatest_id(b) > greatest_id(a) {
            greatest_id(b)
        } else {
            greatest_id(a)
        },
    decreases b.len(),
{
    if b.len() == 0 {
        assert(a + b =~= a);
    } else {
        greatest_id_of_both(a, b.drop_last());
        assert((a + b).drop_last() =~= a + b.drop_last());
        assert((a + b).last() == b.last());
    }
}

fn greatest_id_of(documents: &[NotificationDocument]) -> (greatest: u64)
    ensures
        greatest == greatest_id(document_views(documents@)),
{
    let mut greatest: u64 = 0;
    let ghost views = document_views(documents@);
    for i in 0..documents.len()
        invariant
            views == document_views(documents@),
            greatest == greatest_id(views.take(i as int)),
    {
        assert(views.take(i + 1).drop_last() =~= views.take(i as int));
        assert(views.take(i + 1).last() == documents@[i as int]@);
        if documents[i].id > greatest {
            greatest = documents[i].id;
        }
    }
    assert(views.take(documents@.len() as int) =~= views);
    greatest
}

/// The refusal of a capacity or a limit.
pub open spec fn limits_refusal(capacity: int, aggregate_limit: int) -> Option<Refusal> {
    if capacity == 0 {
        Some((ErrorKind::InvalidInput, "notification capacity must be positive"@))
    } else if aggregate_limit == 0 || aggregate_limit >= MAX_DURABLE_FILE_BYTES {
        Some(
            (
                ErrorKind::InvalidInput,
                "notification aggregate limit must fit in one durable document"@,
            ),
        )
    } else {
        None
    }
}

/// Checks a capacity and a limit before anything is read.
pub fn validate_limits(capacity: usize, aggregate_limit: usize) -> (result: Result<
    (),
    SessionError,
>)
    ensures
        match limits_refusal(capacity as int, aggregate_limit as int) {
            Some(refusal) => refused(result, refusal),
            None => result is Ok,
        },
{
    if capacity == 0 {
        return Err(
            SessionError::new(ErrorKind::InvalidInput, "notification capacity must be positive"),
        );
    }
    if aggregate_limit == 0 || aggregate_limit >= MAX_DURABLE_FILE_BYTES {
        return Err(
            SessionError::new(
                ErrorKind::InvalidInput,
                "notification aggregate limit must fit in one durable document",
            ),
        );
    }
    Ok(())
}

/// The state that an opened store has: as recovered, with the next identifier
/// above every identifier in use.
pub open spec fn opened_state(recovered: RecoveredState) -> StoreView {
    let active = document_views(recovered.active@);
    let archive = document_views(recovered.archive@);
    let greatest = greatest_id(active + archive);
    let above = if greatest == u64::MAX {
        u64::MAX
    } else {
        (greatest + 1) as u64
    };
    StoreView {
        active,
        archive,
        preferences: Preferences {
            next_notification_id: if above > recovered.preferences.next_notification_id {
                above
            } else {
                recovered.preferences.next_notification_id
            },
            ..recovered.preferences
        },
    }
}

/// Why a recovered state is refused, if it is.
pub open spec fn open_refusal(
    recovered: RecoveredState,
    verdicts: Seq<Option<String>>,
    capacity: int,
    aggregate_limit: int,
) -> Option<Refusal> {
    let state = opened_state(recovered);
    match limits_refusal(capacity, aggregate_limit) {
        Some(refusal) => Some(refusal),
        None => if !ids_valid(state.all()) {
            Some(
                (
                    ErrorKind::InvalidData,
                    "notification identifiers must be nonzero and unique across active and archive"@,
                ),
            )
        } else {
            match first_refusal(state.all(), verdict_views(verdicts)) {
                Some(refusal) => Some(refusal),
                None => if state.active.len() > capacity {
                    Some(
                        (
                            ErrorKind::InvalidData,
                            "notification active state exceeds configured capacity"@,
                        ),
                    )
                } else if state.aggregate_size() > aggregate_limit {
                    Some(
                        (
                            ErrorKind::InvalidInput,
                            "notification state exceeds the configured aggregate limit"@,
                        ),
                    )
                } else {
                    None
                },
            }
        },
    }
}

proof fn first_refusal_of_both(
    a: Seq<NotificationView>,
    b: Seq<NotificationView>,
    va: Seq<Option<Seq<char>>>,
    vb: Seq<Option<Seq<char>>>,
)
    requires
        a.len() == va.len(),
        b.len() == vb.len(),
    ensures
        first_refusal(a + b, va + vb) == match first_refusal(a, va) {
            Some(refusal) => Some(refusal),
            None => first_refusal(b, vb),
        },
    decreases a.len(),
{
    if a.len() == 0 {
        assert(a + b =~= b);
        assert(va + vb =~= vb);
    } else {
        first_refusal_of_both(a.skip(1), b, va.skip(1), vb);
        assert((a + b).skip(1) =~= a.skip(1) + b);
        assert((va + vb).skip(1) =~= va.skip(1) + vb);
        assert((a + b).first() == a.first());
        assert((va + vb).first() == va.first());
    }
}

impl NotificationStore {
    /// Opens the store with the default capacity and size limit.
    pub fn open_default(recovered: RecoveredState, verdicts: &[Option<String>]) -> (store: Result<
        NotificationStore,
        SessionError,
    >)
        requires
            verdicts@.len() == recovered.active@.len() + recovered.archive@.len(),
            recovered.next_sequence >= 1,
        ensures
            NotificationStore::opened(
                store,
                recovered,
                verdicts@,
                DEFAULT_ACTIVE_NOTIFICATION_CAPACITY as int,
                DEFAULT_NOTIFICATION_STATE_BYTES as int,
            ),
    {
        NotificationStore::open(recovered, verdicts, DEFAULT_ACTIVE_NOTIFICATION_CAPACITY)
    }

    /// Opens the store with the default size limit.
    pub fn open(recovered: RecoveredState, verdicts: &[Option<String>], capacity: usize) -> (store:
        Result<NotificationStore, SessionError>)
        requires
            verdicts@.len() == recovered.active@.len() + recovered.archive@.len(),
            recovered.next_sequence >= 1,
        ensures
            NotificationStore::opened(
                store,
                recovered,
                verdicts@,
                capacity as int,
                DEFAULT_NOTIFICATION_STATE_BYTES as int,
            ),
    {
        NotificationStore::open_with_limits(
            recovered,
            verdicts,
            capacity,
            DEFAULT_NOTIFICATION_STATE_BYTES,
        )
    }

    /// Whether a result is what opening a recovered state comes to.
    pub open spec fn opened(
        store: Result<NotificationStore, SessionError>,
        recovered: RecoveredState,
        verdicts: Seq<Option<String>>,
        capacity: int,
        aggregate_limit: int,
    ) -> bool {
        match open_refusal(recovered, verdicts, capacity, aggregate_limit) {
            Some(refusal) => refused(store, refusal),
            None => {
                &&& store is Ok
                &&& store->Ok_0.wf()
                &&& store->Ok_0.state() == opened_state(recovered)
                &&& store->Ok_0.capacity() == capacity
                &&& store->Ok_0.limit() == aggregate_limit
                &&& store->Ok_0.log_state() == (LogState {
                    initialized: recovered.next_sequence > 1 || recovered.checkpoint_present,
                    next_sequence: recovered.next_sequence,
                    operations_since_checkpoint: recovered.operations,
                    segment_bytes: recovered.segment_bytes,
                    log_bytes_since_checkpoint: recovered.log_bytes,
                    segment_index: recovered.segment_index,
                    tail_repair: recovered.tail_repair,
                    poisoned: false,
                })
            },
        }
    }

    /// Opens the store on what was read back. The verdicts are what the schema
    /// validator objects to in each document, the active ones first.
    pub fn open_with_limits(
        recovered: RecoveredState,
        verdicts: &[Option<String>],
        capacity: usize,
        aggregate_limit: usize,
    ) -> (store: Result<NotificationStore, SessionError>)
        requires
            verdicts@.len() == recovered.active@.len() + recovered.archive@.len(),
            recovered.next_sequence >= 1,
        ensures
            NotificationStore::opened(
                store,
                recovered,
                verdicts@,
                capacity as int,
                aggregate_limit as int,
            ),
    {
        match validate_limits(capacity, aggregate_limit) {
            Ok(()) => {},
            Err(error) => {
                return Err(error);
            },
        }
        let ghost state = opened_state(recovered);
        let ghost all = state.all();
        let mut preferences = recovered.preferences;
        let in_active: u64 = greatest_id_of(recovered.active.as_slice());
        let in_archive: u64 = greatest_id_of(recovered.archive.as_slice());
        proof {
            greatest_id_of_both(state.active, state.archive);
            greatest_id_bounds(all);
        }
        let greatest: u64 = if in_archive > in_active {
            in_archive
        } else {
            in_active
        };
        let above: u64 = greatest.saturating_add(1);
        if above > preferences.next_notification_id {
            preferences.next_notification_id = above;
        }
        match validate_unique_ids(recovered.active.as_slice(), recovered.archive.as_slice()) {
            Ok(()) => {},
            Err(error) => {
                return Err(error);
            },
        }
        let split: usize = recovered.active.len();
        let of_active = vstd::slice::slice_subrange(verdicts, 0, split);
        let of_archive = vstd::slice::slice_subrange(verdicts, split, verdicts.len());
        proof {
            first_refusal_of_both(
                state.active,
                state.archive,
                verdict_views(of_active@),
                verdict_views(of_archive@),
            );
            assert(verdict_views(of_active@) + verdict_views(of_archive@) =~= verdict_views(
                verdicts@,
            ));
        }
        match validate_documents(recovered.active.as_slice(), of_active) {
            Ok(()) => {},
            Err(error) => {
                return Err(error);
            },
        }
        match validate_documents(recovered.archive.as_slice(), of_archive) {
            Ok(()) => {},
            Err(error) => {
                return Err(error);
            },
        }
        if recovered.active.len() > capacity {
            return Err(
                SessionError::new(
                    ErrorKind::InvalidData,
                    "notification active state exceeds configured capacity",
                ),
            );
        }
        proof {
            aggregate_size_from_its_parts(state);
        }
        let preferences_json_bytes: usize = preferences_bytes(&preferences);
        let sizes = (
            serialized_documents_size(recovered.active.as_slice()),
            serialized_documents_size(recovered.archive.as_slice()),
        );
        if let (Some(active_json_bytes), Some(archive_json_bytes)) = sizes {
            let fits = match aggregate_size_from_parts(
                recovered.active.len(),
                recovered.archive.len(),
                active_json_bytes,
                archive_json_bytes,
                preferences_json_bytes,
            ) {
                Ok(size) => size <= aggregate_limit,
                Err(_) => false,
            };
            if fits {
                proof {
                    assert forall|i: int| 0 <= i < all.len() implies 0 < #[trigger] all[i].id
                        < state.preferences.next_notification_id by {
                        assert(all[i].id <= greatest_id(all));
                        let k = choose|k: int|
                            0 <= k < all.len() && #[trigger] all[k].id == greatest_id(all);
                        assert(all[k].id <= u32::MAX);
                    }
                }
                return Ok(
                    NotificationStore {
                        capacity,
                        aggregate_limit,
                        active: recovered.active,
                        archive: recovered.archive,
                        preferences,
                        active_json_bytes,
                        archive_json_bytes,
                        preferences_json_bytes,
                        log: LogState {
                            initialized: recovered.next_sequence > 1
                                || recovered.checkpoint_present,
                            next_sequence: recovered.next_sequence,
                            operations_since_checkpoint: recovered.operations,
                            segment_bytes: recovered.segment_bytes,
                            log_bytes_since_checkpoint: recovered.log_bytes,
                            segment_index: recovered.segment_index,
                            tail_repair: recovered.tail_repair,
                            poisoned: false,
                        },
                    },
                );
            }
        }
        Err(
            SessionError::new(
                ErrorKind::InvalidInput,
                "notification state exceeds the configured aggregate limit",
            ),
        )
    }
}

// ---------------------------------------------------------------------------
// Groups
// ---------------------------------------------------------------------------

/// The documents of one application, in their order.
pub open spec fn of_application(
    documents: Seq<NotificationView>,
    application_id: Seq<char>,
) -> Seq<NotificationView>
    decreases documents.len(),
{
    if documents.len() == 0 {
        documents
    } else {
        let earlier = of_application(documents.drop_last(), application_id);
        if documents.last().application_id == application_id {
            earlier.push(documents.last())
        } else {
            earlier
        }
    }
}

pub open spec fn borrowed_views(documents: Seq<&NotificationDocument>) -> Seq<NotificationView> {
    documents.map_values(|document: &NotificationDocument| document@)
}

/// Whether groups are the applications of a list of documents, in ascending
/// order, each with its documents in their order.
pub open spec fn grouped_by_application(
    groups: Seq<NotificationGroup>,
    documents: Seq<NotificationView>,
) -> bool {
    &&& forall|i: int, j: int|
        0 <= i < j < groups.len() ==> crate::text::lex_less(
            (#[trigger] groups[i]).application_id@,
            (#[trigger] groups[j]).application_id@,
        )
    &&& forall|i: int|
        0 <= i < groups.len() ==> {
            &&& borrowed_views((#[trigger] groups[i]).notifications@) == of_application(
                documents,
                groups[i].application_id@,
            )
            &&& groups[i].notifications@.len() > 0
        }
    &&& forall|k: int|
        0 <= k < documents.len() ==> exists|i: int|
            0 <= i < groups.len() && (#[trigger] groups[i]).application_id@
                == (#[trigger] documents[k]).application_id
}

proof fn of_application_is_empty(documents: Seq<NotificationView>, application_id: Seq<char>)
    requires
        forall|k: int|
            0 <= k < documents.len() ==> (#[trigger] documents[k]).application_id
                != application_id,
    ensures
        of_application(documents, application_id).len() == 0,
    decreases documents.len(),
{
    if documents.len() > 0 {
        let shorter = documents.drop_last();
        assert forall|k: int| 0 <= k < shorter.len() implies (#[trigger] shorter[k]).application_id
            != application_id by {
            assert(shorter[k] == documents[k]);
        }
        of_application_is_empty(shorter, application_id);
        assert(documents[documents.len() - 1].application_id != application_id);
    }
}

impl NotificationStore {
    /// The active notifications by application, the applications in ascending order.
    pub fn grouped_active(&self) -> (groups: Vec<NotificationGroup<'_>>)
        ensures
            grouped_by_application(groups@, self.state().active),
    {
        let mut groups: Vec<NotificationGroup<'_>> = Vec::new();
        let ghost views = self.state().active;
        for n in 0..self.active.len()
            invariant
                views == self.state().active,
                grouped_by_application(groups@, views.take(n as int)),
        {
            let notification = &self.active[n];
            let ghost app = notification.application_id@;
            let ghost taken = views.take(n as int);
            let ghost longer = views.take(n + 1);
            let mut at: usize = 0;
            while at < groups.len() && text_before(
                groups[at].application_id.as_str(),
                notification.application_id.as_str(),
            )
                invariant
                    at <= groups@.len(),
                    app == notification.application_id@,
                    forall|k: int|
                        0 <= k < at ==> crate::text::lex_less(
                            (#[trigger] groups@[k]).application_id@,
                            app,
                        ),
                decreases groups@.len() - at,
            {
                at = at + 1;
            }
            let ghost before = groups@;
            proof {
                assert(longer.drop_last() =~= taken);
                assert(longer.last() == notification@);
                assert(forall|k: int| 0 <= k < taken.len() ==> longer[k] == #[trigger] taken[k]);
                if at < groups@.len() {
                    crate::text::lex_less_total(groups@[at as int].application_id@, app);
                }
            }
            let known = at < groups.len() && crate::text::same_text(
                groups[at].application_id.as_str(),
                notification.application_id.as_str(),
            );
            if known {
                let mut group = groups.remove(at);
                let ghost members = group.notifications@;
                group.notifications.push(notification);
                assert(borrowed_views(group.notifications@) =~= borrowed_views(members).push(
                    notification@,
                ));
                groups.insert(at, group);
                assert(forall|k: int|
                    0 <= k < groups@.len() ==> (#[trigger] groups@[k]).application_id@
                        == before[k].application_id@);
                assert forall|i: int| 0 <= i < groups@.len() implies {
                    &&& borrowed_views((#[trigger] groups@[i]).notifications@) == of_application(
                        longer,
                        groups@[i].application_id@,
                    )
                    &&& groups@[i].notifications@.len() > 0
                } by {
                    assert(borrowed_views(before[i].notifications@) == of_application(
                        taken,
                        before[i].application_id@,
                    ));
                    if i != at {
                        assert(groups@[i] == before[i]);
                        if i < at {
                            crate::text::lex_less_total(before[i].application_id@, app);
                        } else {
                            assert(crate::text::lex_less(
                                before[at as int].application_id@,
                                before[i].application_id@,
                            ));
                            crate::text::lex_less_total(before[i].application_id@, app);
                        }
                    }
                }
                assert forall|k: int| 0 <= k < longer.len() implies exists|i: int|
                    0 <= i < groups@.len() && (#[trigger] groups@[i]).application_id@
                        == (#[trigger] longer[k]).application_id by {
                    if k < taken.len() {
                        assert(longer[k] == taken[k]);
                        let i = choose|i: int|
                            0 <= i < before.len() && (#[trigger] before[i]).application_id@
                                == taken[k].application_id;
                        assert(groups@[i].application_id@ == longer[k].application_id);
                    } else {
                        assert(groups@[at as int].application_id@ == longer[k].application_id);
                    }
                }
            } else {
                let mut notifications: Vec<&NotificationDocument> = Vec::new();
                notifications.push(notification);
                assert(borrowed_views(notifications@) =~= seq![notification@]);
                groups.insert(
                    at,
                    NotificationGroup {
                        application_id: notification.application_id.clone(),
                        notifications,
                    },
                );
                proof {
                    assert forall|k: int| at <= k < before.len() implies crate::text::lex_less(
                        app,
                        (#[trigger] before[k]).application_id@,
                    ) by {
                        crate::text::lex_less_total(before[at as int].application_id@, app);
                        if k > at {
                            assert(crate::text::lex_less(
                                before[at as int].application_id@,
                                before[k].application_id@,
                            ));
                            crate::text::lex_less_transitive(
                                app,
                                before[at as int].application_id@,
                                before[k].application_id@,
                            );
                        }
                    }
                    assert forall|k: int| 0 <= k < before.len() implies (
                    #[trigger] before[k]).application_id@ != app by {
                        crate::text::lex_less_total(app, app);
                    }
                    assert forall|k: int| 0 <= k < taken.len() implies (
                    #[trigger] taken[k]).application_id != app by {
                        let i = choose|i: int|
                            0 <= i < before.len() && (#[trigger] before[i]).application_id@
                                == taken[k].application_id;
                        assert(before[i].application_id@ != app);
                    }
                    of_application_is_empty(taken, app);
                    assert(of_application(longer, app) =~= seq![notification@]);
                    assert(groups@ =~= before.insert(at as int, groups@[at as int]));
                    assert forall|i: int| 0 <= i < groups@.len() implies {
                        &&& borrowed_views((#[trigger] groups@[i]).notifications@)
                            == of_application(longer, groups@[i].application_id@)
                        &&& groups@[i].notifications@.len() > 0
                    } by {
                        if i < at {
                            assert(groups@[i] == before[i]);
                        } else if i > at {
                            assert(groups@[i] == before[i - 1]);
                        }
                    }
                    assert forall|i: int, j: int|
                        0 <= i < j < groups@.len() implies crate::text::lex_less(
                        (#[trigger] groups@[i]).application_id@,
                        (#[trigger] groups@[j]).application_id@,
                    ) by {
                        if i < at {
                            assert(groups@[i] == before[i]);
                        } else if i > at {
                            assert(groups@[i] == before[i - 1]);
                        }
                        if j < at {
                            assert(groups@[j] == before[j]);
                        } else if j > at {
                            assert(groups@[j] == before[j - 1]);
                        }
                    }
                    assert forall|k: int| 0 <= k < longer.len() implies exists|i: int|
                        0 <= i < groups@.len() && (#[trigger] groups@[i]).application_id@
                            == (#[trigger] longer[k]).application_id by {
                        if k < taken.len() {
                            assert(longer[k] == taken[k]);
                            let i = choose|i: int|
                                0 <= i < before.len() && (#[trigger] before[i]).application_id@
                                    == taken[k].application_id;
                            let m = if i < at {
                                i
                            } else {
                                i + 1
                            };
                            assert(groups@[m] == before[i]);
                        } else {
                            assert(groups@[at as int].application_id@ == longer[k].application_id);
                        }
                    }
                }
            }
        }
        assert(views.take(self.active@.len() as int) =~= views);
        groups
    }
}

} // verus!

//! The notification store as a mathematical state: what each operation does,
//! what replaying its record does, and that the two agree.

use vstd::prelude::*;

use crate::error::ErrorKind;
use crate::notifications::document::{transaction_json, NotificationView, Preferences};
use crate::text::byte_len;

verus! {

/// The notifications and preferences that the store holds.
#[verifier::ext_equal]
pub struct StoreView {
    pub active: Seq<NotificationView>,
    pub archive: Seq<NotificationView>,
    pub preferences: Preferences,
}

/// One durable change of the store.
#[verifier::ext_equal]
pub enum OperationView {
    SetDnd { enabled: bool },
    Push { notification: NotificationView, archived: Seq<NotificationView> },
    Dismiss { notification: NotificationView },
    MarkRead { id: u64 },
    ExpireActions { ids: Seq<u64> },
    PurgeArchive,
}

pub open spec fn has_id(documents: Seq<NotificationView>, id: u64) -> bool {
    exists|i: int| 0 <= i < documents.len() && #[trigger] documents[i].id == id
}

/// The documents without those that have an identifier.
pub open spec fn without_id(documents: Seq<NotificationView>, id: u64) -> Seq<NotificationView>
    decreases documents.len(),
{
    if documents.len() == 0 {
        documents
    } else {
        let kept = without_id(documents.drop_last(), id);
        if documents.last().id == id {
            kept
        } else {
            kept.push(documents.last())
        }
    }
}

/// No identifier occurs twice in a list of documents.
pub open spec fn distinct_ids(documents: Seq<NotificationView>) -> bool {
    forall|i: int, j: int|
        0 <= i < j < documents.len() ==> #[trigger] documents[i].id != #[trigger] documents[j].id
}

impl StoreView {
    /// Every notification, the active ones first.
    pub open spec fn all(self) -> Seq<NotificationView> {
        self.active + self.archive
    }

    /// Whether an identifier is in use.
    pub open spec fn knows(self, id: u64) -> bool {
        has_id(self.active, id) || has_id(self.archive, id)
    }

    /// What always holds: identifiers are positive, differ from each other, lie
    /// below the next free one, and the active list is within its capacity.
    pub open spec fn well_formed(self, capacity: int) -> bool {
        &&& distinct_ids(self.all())
        &&& forall|i: int|
            0 <= i < self.all().len() ==> 0 < #[trigger] self.all()[i].id
                < self.preferences.next_notification_id
        &&& self.active.len() <= capacity
        &&& self.preferences.next_notification_id >= 1
    }

    /// The bytes of the whole state as one JSON document.
    pub open spec fn aggregate_size(self) -> nat {
        byte_len(transaction_json(self.active, self.archive, self.preferences))
    }

    /// The state after a notification was added or replaced. Beyond the capacity
    /// the oldest active notification moves to the archive.
    pub open spec fn pushed(self, notification: NotificationView, capacity: int) -> StoreView {
        let kept = without_id(self.active, notification.id).push(notification);
        let preferences = Preferences {
            next_notification_id: if notification.id >= self.preferences.next_notification_id {
                (notification.id + 1) as u64
            } else {
                self.preferences.next_notification_id
            },
            ..self.preferences
        };
        if kept.len() > capacity {
            StoreView {
                active: kept.skip(1),
                archive: self.archive.push(kept.first().with_archived(true)),
                preferences,
            }
        } else {
            StoreView { active: kept, archive: self.archive, preferences }
        }
    }

    /// What `pushed` moves to the archive.
    pub open spec fn evicted(self, notification: NotificationView, capacity: int) -> Seq<
        NotificationView,
    > {
        let kept = without_id(self.active, notification.id).push(notification);
        if kept.len() > capacity {
            seq![kept.first().with_archived(true)]
        } else {
            Seq::empty()
        }
    }
}

/// The documents with a read mark on those that have an identifier.
pub open spec fn marked_read(documents: Seq<NotificationView>, id: u64) -> Seq<NotificationView> {
    documents.map_values(
        |document: NotificationView|
            if document.id == id {
                document.with_read(true)
            } else {
                document
            },
    )
}

/// One document, expired if its identifier is listed.
pub open spec fn expired_if_listed(document: NotificationView, ids: Seq<u64>) -> NotificationView {
    if ids.contains(document.id) {
        document.with_expired_actions()
    } else {
        document
    }
}

/// The documents with the actions of the listed ones expired.
pub open spec fn expired_in(documents: Seq<NotificationView>, ids: Seq<u64>) -> Seq<
    NotificationView,
> {
    documents.map_values(|document: NotificationView| expired_if_listed(document, ids))
}

/// The effect of an operation on a running store.
pub open spec fn effect(state: StoreView, operation: OperationView, capacity: int) -> StoreView {
    match operation {
        OperationView::SetDnd { enabled } => StoreView {
            preferences: Preferences { dnd: enabled, ..state.preferences },
            ..state
        },
        OperationView::Push { notification, .. } => state.pushed(notification, capacity),
        OperationView::Dismiss { notification } => StoreView {
            active: without_id(state.active, notification.id),
            archive: state.archive.push(notification),
            ..state
        },
        OperationView::MarkRead { id } => StoreView {
            active: marked_read(state.active, id),
            ..state
        },
        OperationView::ExpireActions { ids } => StoreView {
            active: expired_in(state.active, ids),
            archive: expired_in(state.archive, ids),
            ..state
        },
        OperationView::PurgeArchive => StoreView { archive: Seq::empty(), ..state },
    }
}

/// Whether a running store can issue an operation in a state.
pub open spec fn issued_in(state: StoreView, operation: OperationView, capacity: int) -> bool {
    match operation {
        OperationView::SetDnd { .. } => true,
        OperationView::Push { notification, archived } => {
            &&& 0 < notification.id < u64::MAX
            &&& !has_id(state.archive, notification.id)
            &&& archived == state.evicted(notification, capacity)
        },
        OperationView::Dismiss { notification } => exists|i: int|
            0 <= i < state.active.len() && #[trigger] state.active[i].with_archived(true)
                == notification,
        OperationView::MarkRead { id } => has_id(state.active, id),
        OperationView::ExpireActions { ids } => {
            &&& ids.len() > 0
            &&& forall|k: int| 0 <= k < ids.len() ==> state.knows(#[trigger] ids[k])
            &&& forall|k: int, l: int| 0 <= k < l < ids.len() ==> ids[k] < ids[l]
        },
        OperationView::PurgeArchive => true,
    }
}

// ---------------------------------------------------------------------------
// Replay
// ---------------------------------------------------------------------------

/// A failed replay step: its class and its text.
pub type Refusal = (ErrorKind, Seq<char>);

pub open spec fn missing_id() -> Refusal {
    (ErrorKind::InvalidData, "notification segment references a missing id"@)
}

/// Moves each listed notification out of the active list to the end of the archive.
pub open spec fn archived_by_replay(state: StoreView, archived: Seq<NotificationView>) -> StoreView
    decreases archived.len(),
{
    if archived.len() == 0 {
        state
    } else {
        let before = archived_by_replay(state, archived.drop_last());
        let moved = archived.last();
        StoreView {
            active: without_id(before.active, moved.id),
            archive: without_id(before.archive, moved.id).push(moved),
            ..before
        }
    }
}

/// The place of the first document with an identifier, the length if there is none.
pub open spec fn place(documents: Seq<NotificationView>, id: u64) -> int
    decreases documents.len(),
{
    if documents.len() == 0 {
        0
    } else {
        let earlier = place(documents.drop_last(), id);
        if earlier < documents.len() - 1 {
            earlier
        } else if documents.last().id == id {
            documents.len() - 1
        } else {
            documents.len() as int
        }
    }
}

/// Expires the actions of the first document with an identifier, if there is one.
pub open spec fn expired_by_replay(state: StoreView, id: u64) -> Result<StoreView, Refusal> {
    let in_active = place(state.active, id);
    let in_archive = place(state.archive, id);
    if in_active < state.active.len() {
        Ok(
            StoreView {
                active: state.active.update(
                    in_active,
                    state.active[in_active].with_expired_actions(),
                ),
                ..state
            },
        )
    } else if in_archive < state.archive.len() {
        Ok(
            StoreView {
                archive: state.archive.update(
                    in_archive,
                    state.archive[in_archive].with_expired_actions(),
                ),
                ..state
            },
        )
    } else {
        Err(missing_id())
    }
}

pub open spec fn all_expired_by_replay(state: StoreView, ids: Seq<u64>) -> Result<
    StoreView,
    Refusal,
>
    decreases ids.len(),
{
    if ids.len() == 0 {
        Ok(state)
    } else {
        match all_expired_by_replay(state, ids.drop_last()) {
            Ok(before) => expired_by_replay(before, ids.last()),
            Err(refusal) => Err(refusal),
        }
    }
}

/// The state after a recorded operation is read back.
pub open spec fn replayed(state: StoreView, operation: OperationView, capacity: int) -> Result<
    StoreView,
    Refusal,
> {
    match operation {
        OperationView::SetDnd { enabled } => Ok(
            StoreView {
                preferences: Preferences { dnd: enabled, ..state.preferences },
                ..state
            },
        ),
        OperationView::Push { notification, archived } => {
            let removed = StoreView {
                active: without_id(state.active, notification.id),
                ..state
            };
            let moved = archived_by_replay(removed, archived);
            let next = if notification.id == u64::MAX {
                u64::MAX
            } else {
                (notification.id + 1) as u64
            };
            let after = StoreView {
                active: moved.active.push(notification),
                archive: moved.archive,
                preferences: Preferences {
                    next_notification_id: if next > moved.preferences.next_notification_id {
                        next
                    } else {
                        moved.preferences.next_notification_id
                    },
                    ..moved.preferences
                },
            };
            if after.active.len() > capacity {
                Err((ErrorKind::InvalidData, "notification segment exceeds active capacity"@))
            } else {
                Ok(after)
            }
        },
        OperationView::Dismiss { notification } => Ok(
            StoreView {
                active: without_id(state.active, notification.id),
                archive: without_id(state.archive, notification.id).push(notification),
                ..state
            },
        ),
        OperationView::MarkRead { id } => {
            let at = place(state.active, id);
            if at < state.active.len() {
                Ok(
                    StoreView {
                        active: state.active.update(at, state.active[at].with_read(true)),
                        ..state
                    },
                )
            } else {
                Err(missing_id())
            }
        },
        OperationView::ExpireActions { ids } => all_expired_by_replay(state, ids),
        OperationView::PurgeArchive => Ok(StoreView { archive: Seq::empty(), ..state }),
    }
}

// ---------------------------------------------------------------------------
// Facts about identifiers
// ---------------------------------------------------------------------------

pub proof fn place_facts(documents: Seq<NotificationView>, id: u64)
    ensures
        0 <= place(documents, id) <= documents.len(),
        place(documents, id) < documents.len() ==> documents[place(documents, id)].id == id,
        forall|i: int| 0 <= i < place(documents, id) ==> #[trigger] documents[i].id != id,
        has_id(documents, id) <==> place(documents, id) < documents.len(),
    decreases documents.len(),
{
    if documents.len() > 0 {
        let shorter = documents.drop_last();
        place_facts(shorter, id);
        assert forall|i: int| 0 <= i < place(documents, id) implies #[trigger] documents[i].id
            != id by {
            if i < shorter.len() {
                assert(shorter[i] == documents[i]);
            }
        }
    }
}

pub proof fn without_id_facts(documents: Seq<NotificationView>, id: u64)
    ensures
        without_id(documents, id).len() <= documents.len(),
        !has_id(documents, id) ==> without_id(documents, id) == documents,
        forall|i: int|
            0 <= i < without_id(documents, id).len() ==> #[trigger] without_id(documents, id)[i].id
                != id,
    decreases documents.len(),
{
    if documents.len() > 0 {
        let shorter = documents.drop_last();
        without_id_facts(shorter, id);
        if !has_id(documents, id) {
            assert forall|i: int| 0 <= i < shorter.len() implies #[trigger] shorter[i].id != id by {
                assert(documents[i] == shorter[i]);
            }
            assert(documents[documents.len() - 1].id != id);
            assert(shorter.push(documents.last()) =~= documents);
        }
    }
}

/// With distinct identifiers, dropping one drops exactly its document.
pub proof fn without_id_removes_one(documents: Seq<NotificationView>, at: int)
    requires
        distinct_ids(documents),
        0 <= at < documents.len(),
    ensures
        without_id(documents, documents[at].id) == documents.remove(at),
    decreases documents.len(),
{
    let id = documents[at].id;
    let shorter = documents.drop_last();
    assert forall|i: int, j: int| 0 <= i < j < shorter.len() implies #[trigger] shorter[i].id
        != #[trigger] shorter[j].id by {
        assert(documents[i].id != documents[j].id);
    }
    if at == documents.len() - 1 {
        without_id_facts(shorter, id);
        assert forall|i: int| 0 <= i < shorter.len() implies #[trigger] shorter[i].id != id by {
            assert(documents[i].id != documents[at].id);
        }
        assert(documents.remove(at) =~= shorter);
    } else {
        assert(shorter[at].id == id);
        without_id_removes_one(shorter, at);
        assert(documents[documents.len() - 1].id != id);
        assert(documents.remove(at) =~= shorter.remove(at).push(documents.last()));
    }
}

/// Every document that is kept was there before, in the same order.
pub proof fn without_id_keeps_distinct(documents: Seq<NotificationView>, id: u64)
    requires
        distinct_ids(documents),
    ensures
        distinct_ids(without_id(documents, id)),
        forall|d: NotificationView| #[trigger]
            without_id(documents, id).contains(d) ==> documents.contains(d),
{
    if has_id(documents, id) {
        place_facts(documents, id);
        let at = place(documents, id);
        without_id_removes_one(documents, at);
        let kept = documents.remove(at);
        assert forall|i: int, j: int| 0 <= i < j < kept.len() implies #[trigger] kept[i].id
            != #[trigger] kept[j].id by {
            let oi = if i < at {
                i
            } else {
                i + 1
            };
            let oj = if j < at {
                j
            } else {
                j + 1
            };
            assert(kept[i] == documents[oi] && kept[j] == documents[oj]);
        }
        assert forall|d: NotificationView| #[trigger] kept.contains(d) implies documents.contains(
            d,
        ) by {
            let i = choose|i: int| 0 <= i < kept.len() && kept[i] == d;
            let oi = if i < at {
                i
            } else {
                i + 1
            };
            assert(documents[oi] == d);
        }
    } else {
        without_id_facts(documents, id);
    }
}

/// The active and the archived identifiers are distinct on their own and from
/// each other.
pub proof fn split_distinct(state: StoreView)
    ensures
        distinct_ids(state.all()) <==> {
            &&& distinct_ids(state.active)
            &&& distinct_ids(state.archive)
            &&& forall|i: int, j: int|
                0 <= i < state.active.len() && 0 <= j < state.archive.len()
                    ==> #[trigger] state.active[i].id != #[trigger] state.archive[j].id
        },
{
    let all = state.all();
    let n = state.active.len();
    if distinct_ids(all) {
        assert forall|i: int, j: int| 0 <= i < j < state.active.len() implies #[trigger]
            state.active[i].id != #[trigger] state.active[j].id by {
            assert(all[i].id != all[j].id);
        }
        assert forall|i: int, j: int| 0 <= i < j < state.archive.len() implies #[trigger]
            state.archive[i].id != #[trigger] state.archive[j].id by {
            assert(all[n + i].id != all[n + j].id);
        }
        assert forall|i: int, j: int|
            0 <= i < state.active.len() && 0 <= j < state.archive.len() implies #[trigger]
            state.active[i].id != #[trigger] state.archive[j].id by {
            assert(all[i].id != all[n + j].id);
        }
    }
    if distinct_ids(state.active) && distinct_ids(state.archive) && (forall|i: int, j: int|
        0 <= i < state.active.len() && 0 <= j < state.archive.len()
            ==> #[trigger] state.active[i].id != #[trigger] state.archive[j].id) {
        assert forall|i: int, j: int| 0 <= i < j < all.len() implies #[trigger] all[i].id
            != #[trigger] all[j].id by {
            if j < n {
                assert(state.active[i].id != state.active[j].id);
            } else if i >= n {
                assert(state.archive[i - n].id != state.archive[j - n].id);
            } else {
                assert(state.active[i].id != state.archive[j - n].id);
            }
        }
    }
}

/// What `well_formed` says of the two lists on their own.
pub open spec fn lists_well_formed(state: StoreView, capacity: int) -> bool {
    &&& distinct_ids(state.active)
    &&& distinct_ids(state.archive)
    &&& forall|i: int, j: int|
        0 <= i < state.active.len() && 0 <= j < state.archive.len()
            ==> #[trigger] state.active[i].id != #[trigger] state.archive[j].id
    &&& forall|i: int|
        0 <= i < state.active.len() ==> 0 < #[trigger] state.active[i].id
            < state.preferences.next_notification_id
    &&& forall|i: int|
        0 <= i < state.archive.len() ==> 0 < #[trigger] state.archive[i].id
            < state.preferences.next_notification_id
    &&& state.active.len() <= capacity
    &&& state.preferences.next_notification_id >= 1
}

pub proof fn well_formed_by_lists(state: StoreView, capacity: int)
    ensures
        state.well_formed(capacity) <==> lists_well_formed(state, capacity),
{
    split_distinct(state);
    let all = state.all();
    let n = state.active.len();
    if state.well_formed(capacity) {
        assert forall|i: int| 0 <= i < state.active.len() implies 0 < #[trigger] state.active[i].id
            < state.preferences.next_notification_id by {
            assert(all[i] == state.active[i]);
        }
        assert forall|i: int| 0 <= i < state.archive.len() implies 0
            < #[trigger] state.archive[i].id < state.preferences.next_notification_id by {
            assert(all[n + i] == state.archive[i]);
        }
    }
    if lists_well_formed(state, capacity) {
        assert forall|i: int| 0 <= i < all.len() implies 0 < #[trigger] all[i].id
            < state.preferences.next_notification_id by {
            if i < n {
                assert(all[i] == state.active[i]);
            } else {
                assert(all[i] == state.archive[i - n]);
            }
        }
    }
}

// ---------------------------------------------------------------------------
// Laws
// ---------------------------------------------------------------------------

/// Every operation that a running store issues keeps identifiers distinct and
/// the active list within its capacity.
pub proof fn effect_keeps_well_formed(state: StoreView, operation: OperationView, capacity: int)
    requires
        state.well_formed(capacity),
        capacity >= 1,
        issued_in(state, operation, capacity),
    ensures
        effect(state, operation, capacity).well_formed(capacity),
{
    well_formed_by_lists(state, capacity);
    let after = effect(state, operation, capacity);
    match operation {
        OperationView::SetDnd { .. } => {},
        OperationView::Push { notification, .. } => {
            pushed_is_well_formed(state, notification, capacity);
        },
        OperationView::Dismiss { notification } => {
            let at = choose|i: int|
                0 <= i < state.active.len() && #[trigger] state.active[i].with_archived(true)
                    == notification;
            without_id_removes_one(state.active, at);
            without_id_keeps_distinct(state.active, notification.id);
            without_id_facts(state.active, notification.id);
            assert forall|i: int| 0 <= i < after.active.len() implies (0
                < #[trigger] after.active[i].id < after.preferences.next_notification_id)
                && after.active[i].id != notification.id && state.active.contains(
                after.active[i],
            ) by {
                assert(after.active.contains(after.active[i]));
            }
            assert forall|i: int, j: int|
                0 <= i < after.active.len() && 0 <= j < after.archive.len() implies #[trigger]
                after.active[i].id != #[trigger] after.archive[j].id by {
                let k = choose|k: int|
                    0 <= k < state.active.len() && state.active[k] == after.active[i];
                assert(state.active[k].id == after.active[i].id);
                if j < state.archive.len() {
                    assert(after.archive[j] == state.archive[j]);
                }
            }
            assert forall|i: int, j: int| 0 <= i < j < after.archive.len() implies #[trigger]
                after.archive[i].id != #[trigger] after.archive[j].id by {
                assert(after.archive[i] == state.archive[i]);
                if j < state.archive.len() {
                    assert(after.archive[j] == state.archive[j]);
                } else {
                    assert(state.active[at].id != state.archive[i].id);
                }
            }
            assert forall|j: int| 0 <= j < after.archive.len() implies 0
                < #[trigger] after.archive[j].id < after.preferences.next_notification_id by {
                if j < state.archive.len() {
                    assert(after.archive[j] == state.archive[j]);
                } else {
                    assert(state.active[at].id == notification.id);
                }
            }
            well_formed_by_lists(after, capacity);
        },
        OperationView::MarkRead { id } => {
            same_ids_well_formed(state, after, capacity);
        },
        OperationView::ExpireActions { ids } => {
            same_ids_well_formed(state, after, capacity);
        },
        OperationView::PurgeArchive => {
            well_formed_by_lists(after, capacity);
        },
    }
}

proof fn same_ids_well_formed(state: StoreView, after: StoreView, capacity: int)
    requires
        state.well_formed(capacity),
        after.preferences == state.preferences,
        after.active.len() == state.active.len(),
        after.archive.len() == state.archive.len(),
        forall|i: int|
            0 <= i < state.active.len() ==> (#[trigger] after.active[i]).id == state.active[i].id,
        forall|i: int|
            0 <= i < state.archive.len() ==> (#[trigger] after.archive[i]).id
                == state.archive[i].id,
    ensures
        after.well_formed(capacity),
{
    let all = after.all();
    assert forall|i: int| 0 <= i < all.len() implies #[trigger] all[i].id == state.all()[i].id by {
        if i < state.active.len() {
            assert(all[i] == after.active[i]);
        } else {
            assert(all[i] == after.archive[i - state.active.len()]);
        }
    }
    assert forall|i: int, j: int| 0 <= i < j < all.len() implies #[trigger] all[i].id
        != #[trigger] all[j].id by {
        assert(state.all()[i].id != state.all()[j].id);
    }
}

proof fn pushed_is_well_formed(state: StoreView, notification: NotificationView, capacity: int)
    requires
        state.well_formed(capacity),
        capacity >= 1,
        0 < notification.id < u64::MAX,
        !has_id(state.archive, notification.id),
    ensures
        state.pushed(notification, capacity).well_formed(capacity),
{
    well_formed_by_lists(state, capacity);
    let after = state.pushed(notification, capacity);
    let rest = without_id(state.active, notification.id);
    let kept = rest.push(notification);
    without_id_keeps_distinct(state.active, notification.id);
    without_id_facts(state.active, notification.id);
    assert forall|i: int| 0 <= i < rest.len() implies state.active.contains(#[trigger] rest[i]) by {
        assert(rest.contains(rest[i]));
    }
    assert forall|i: int, j: int| 0 <= i < j < kept.len() implies #[trigger] kept[i].id
        != #[trigger] kept[j].id by {
        if j < rest.len() {
            assert(rest[i].id != rest[j].id);
        }
    }
    assert forall|i: int, j: int| 0 <= i < kept.len() && 0 <= j < state.archive.len() implies (
    #[trigger] kept[i]).id != (#[trigger] state.archive[j]).id by {
        if i < rest.len() {
            let k = choose|k: int| 0 <= k < state.active.len() && state.active[k] == rest[i];
            assert(state.active[k].id != state.archive[j].id);
        }
    }
    assert forall|i: int| 0 <= i < kept.len() implies 0 < (#[trigger] kept[i]).id
        < after.preferences.next_notification_id by {
        if i < rest.len() {
            let k = choose|k: int| 0 <= k < state.active.len() && state.active[k] == rest[i];
            assert(0 < state.active[k].id < state.preferences.next_notification_id);
        }
    }
    if kept.len() > capacity {
        assert(after.active =~= kept.skip(1));
        assert forall|i: int| 0 <= i < after.active.len() implies #[trigger] after.active[i]
            == kept[i + 1] by {}
        assert forall|i: int, j: int| 0 <= i < j < after.active.len() implies #[trigger]
            after.active[i].id != #[trigger] after.active[j].id by {
            assert(kept[i + 1].id != kept[j + 1].id);
        }
        assert forall|j: int| 0 <= j < after.archive.len() implies (if j < state.archive.len() {
            #[trigger] after.archive[j] == state.archive[j]
        } else {
            after.archive[j].id == kept[0].id
        }) by {}
        assert forall|i: int, j: int| 0 <= i < j < after.archive.len() implies #[trigger]
            after.archive[i].id != #[trigger] after.archive[j].id by {
            assert(after.archive[i] == state.archive[i]);
            if j == state.archive.len() {
                assert(kept[0].id != state.archive[i].id);
            }
        }
        assert forall|i: int, j: int|
            0 <= i < after.active.len() && 0 <= j < after.archive.len() implies #[trigger]
            after.active[i].id != #[trigger] after.archive[j].id by {
            if j == state.archive.len() {
                assert(kept[0].id != kept[i + 1].id);
            } else {
                assert(kept[i + 1].id != state.archive[j].id);
            }
        }
        assert forall|j: int| 0 <= j < after.archive.len() implies 0
            < #[trigger] after.archive[j].id < after.preferences.next_notification_id by {
            if j == state.archive.len() {
                assert(0 < kept[0].id < after.preferences.next_notification_id);
            } else {
                assert(0 < state.archive[j].id);
            }
        }
        assert(rest.len() <= state.active.len());
    } else {
        assert forall|i: int, j: int|
            0 <= i < after.active.len() && 0 <= j < after.archive.len() implies #[trigger]
            after.active[i].id != #[trigger] after.archive[j].id by {
            assert(kept[i].id != state.archive[j].id);
        }
    }
    well_formed_by_lists(after, capacity);
}

/// A record that is read back does to the recovered state exactly what the
/// operation did to the running store.
pub proof fn replay_matches_effect(state: StoreView, operation: OperationView, capacity: int)
    requires
        state.well_formed(capacity),
        capacity >= 1,
        issued_in(state, operation, capacity),
    ensures
        replayed(state, operation, capacity) == Ok::<StoreView, Refusal>(
            effect(state, operation, capacity),
        ),
{
    well_formed_by_lists(state, capacity);
    match operation {
        OperationView::SetDnd { .. } => {},
        OperationView::Push { notification, archived } => {
            let rest = without_id(state.active, notification.id);
            let kept = rest.push(notification);
            let removed = StoreView { active: rest, ..state };
            without_id_facts(state.active, notification.id);
            without_id_keeps_distinct(state.active, notification.id);
            if kept.len() > capacity {
                let moved = kept.first().with_archived(true);
                assert(archived =~= seq![moved]);
                assert(archived.drop_last() =~= Seq::<NotificationView>::empty());
                assert(archived_by_replay(removed, archived.drop_last()) == removed);
                assert(rest.len() > 0);
                assert(kept.first() == rest[0]);
                without_id_removes_one(rest, 0);
                assert(rest.remove(0) =~= rest.skip(1));
                assert(rest.contains(rest[0]));
                let k = choose|k: int| 0 <= k < state.active.len() && state.active[k] == rest[0];
                assert forall|j: int| 0 <= j < state.archive.len() implies #[trigger]
                    state.archive[j].id != moved.id by {
                    assert(state.active[k].id != state.archive[j].id);
                }
                without_id_facts(state.archive, moved.id);
                assert(kept.skip(1) =~= rest.skip(1).push(notification));
                assert(rest.len() <= capacity);
            } else {
                assert(archived =~= Seq::<NotificationView>::empty());
                assert(archived_by_replay(removed, archived) == removed);
            }
        },
        OperationView::Dismiss { notification } => {
            let at = choose|i: int|
                0 <= i < state.active.len() && #[trigger] state.active[i].with_archived(true)
                    == notification;
            assert forall|j: int| 0 <= j < state.archive.len() implies #[trigger]
                state.archive[j].id != notification.id by {
                assert(state.active[at].id != state.archive[j].id);
            }
            without_id_facts(state.archive, notification.id);
        },
        OperationView::MarkRead { id } => {
            place_facts(state.active, id);
            let at = place(state.active, id);
            assert(state.active.update(at, state.active[at].with_read(true)) =~= marked_read(
                state.active,
                id,
            )) by {
                assert forall|i: int| 0 <= i < state.active.len() && i != at implies #[trigger]
                    state.active[i].id != id by {
                    assert(state.active[i].id != state.active[at].id);
                }
            }
        },
        OperationView::ExpireActions { ids } => {
            replay_of_expiry(state, ids, capacity);
        },
        OperationView::PurgeArchive => {},
    }
}

proof fn replay_of_expiry(state: StoreView, ids: Seq<u64>, capacity: int)
    requires
        state.well_formed(capacity),
        forall|k: int| 0 <= k < ids.len() ==> state.knows(#[trigger] ids[k]),
        forall|k: int, l: int| 0 <= k < l < ids.len() ==> ids[k] < ids[l],
    ensures
        all_expired_by_replay(state, ids) == Ok::<StoreView, Refusal>(
            StoreView {
                active: expired_in(state.active, ids),
                archive: expired_in(state.archive, ids),
                ..state
            },
        ),
    decreases ids.len(),
{
    well_formed_by_lists(state, capacity);
    if ids.len() == 0 {
        assert(expired_in(state.active, ids) =~= state.active);
        assert(expired_in(state.archive, ids) =~= state.archive);
    } else {
        let shorter = ids.drop_last();
        let id = ids.last();
        assert forall|k: int| 0 <= k < shorter.len() implies state.knows(#[trigger] shorter[k]) by {
            assert(shorter[k] == ids[k]);
        }
        replay_of_expiry(state, shorter, capacity);
        let before = StoreView {
            active: expired_in(state.active, shorter),
            archive: expired_in(state.archive, shorter),
            ..state
        };
        assert(!shorter.contains(id)) by {
            if shorter.contains(id) {
                let k = choose|k: int| 0 <= k < shorter.len() && shorter[k] == id;
                assert(ids[k] < ids[ids.len() - 1]);
            }
        }
        assert forall|x: u64| ids.contains(x) <==> (shorter.contains(x) || x == id) by {
            if ids.contains(x) {
                let k = choose|k: int| 0 <= k < ids.len() && ids[k] == x;
                if k < shorter.len() {
                    assert(shorter[k] == x);
                }
            }
            if shorter.contains(x) {
                let k = choose|k: int| 0 <= k < shorter.len() && shorter[k] == x;
                assert(ids[k] == x);
            }
            assert(ids[ids.len() - 1] == id);
        }
        place_facts(before.active, id);
        place_facts(before.archive, id);
        assert(state.knows(ids[ids.len() - 1]));
        if has_id(state.active, id) {
            let k = choose|k: int| 0 <= k < state.active.len() && #[trigger] state.active[k].id
                == id;
            assert(before.active[k].id == id);
            let at = place(before.active, id);
            assert(at == k) by {
                if at != k {
                    assert(state.active[at].id != state.active[k].id);
                    assert(before.active[at].id == state.active[at].id);
                }
            }
            assert(expired_in(state.active, ids) =~= before.active.update(
                at,
                before.active[at].with_expired_actions(),
            )) by {
                assert forall|i: int| 0 <= i < state.active.len() && i != at implies #[trigger]
                    state.active[i].id != id by {
                    assert(state.active[i].id != state.active[at].id);
                }
                assert(before.active[at] == state.active[at]);
            }
            assert(expired_in(state.archive, ids) =~= before.archive) by {
                assert forall|i: int| 0 <= i < state.archive.len() implies #[trigger]
                    state.archive[i].id != id by {
                    assert(state.active[k].id != state.archive[i].id);
                }
            }
        } else {
            let k = choose|k: int| 0 <= k < state.archive.len() && #[trigger] state.archive[k].id
                == id;
            assert(before.archive[k].id == id);
            assert(!has_id(before.active, id)) by {
                if has_id(before.active, id) {
                    let j = choose|j: int|
                        0 <= j < before.active.len() && #[trigger] before.active[j].id == id;
                    assert(state.active[j].id == id);
                }
            }
            let at = place(before.archive, id);
            assert(at == k) by {
                if at != k {
                    assert(state.archive[at].id != state.archive[k].id);
                    assert(before.archive[at].id == state.archive[at].id);
                }
            }
            assert(expired_in(state.archive, ids) =~= before.archive.update(
                at,
                before.archive[at].with_expired_actions(),
            )) by {
                assert forall|i: int| 0 <= i < state.archive.len() && i != at implies #[trigger]
                    state.archive[i].id != id by {
                    assert(state.archive[i].id != state.archive[at].id);
                }
                assert(before.archive[at] == state.archive[at]);
            }
            assert(expired_in(state.active, ids) =~= before.active) by {
                assert forall|i: int| 0 <= i < state.active.len() implies #[trigger]
                    state.active[i].id != id by {}
            }
        }
    }
}

} // verus!

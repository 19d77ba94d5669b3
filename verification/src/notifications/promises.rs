//! What the notification service promises, said of what goes in and what comes out.

use vstd::prelude::*;

use crate::error::{ErrorKind, SessionError};
use crate::ids::{uuid_hyphenated, uuid_value};
use crate::notifications::document::{
    document_size, document_views, NotificationActionState, NotificationUrgency, NotificationView,
};
use crate::notifications::files::{
    append_steps, checkpoint_steps, first_stages, import_steps, is_component_name, legacy_titles,
    preparation, removals, segment_stages, temporary_title, transaction_objection, FileStep,
    LegacyFile, NotificationCommitStage, Transaction,
};
use crate::notifications::journal::{record_line, segment_file, LogPlan, LogState};
use crate::notifications::model::{
    effect, has_id, place, place_facts, replayed, split_distinct, without_id, without_id_facts,
    without_id_removes_one, OperationView, Refusal, StoreView,
};
use crate::notifications::provider::{
    came_from, command_event, command_outcome, first_action, invocation_refusal, is_due,
    notify_events, origins_after, pops_up, popup_deadline, popups_after, request_refusal, started,
    without_ids, FreedesktopNotificationProvider, NotificationChange, NotificationCommand,
    NotifyOutcome, NotifyRequest, ServiceEvent,
};
use crate::notifications::replay::{
    readable, recovered_as, recovery, recovery_start, segment_step, step, LogProgress, Progress,
    RecordView, SegmentView, StoreCheckpoint,
};
use crate::notifications::socket::{
    error_code, groups_match, operation_id, request_envelope_valid, routed, shown_ids, Group,
    Operation, Snapshot, SocketAction,
};
use crate::notifications::store::{
    assigned, borrowed_views, dismiss_outcome, document_refusal, expire_outcome, expiry_by,
    first_refusal, greatest_id, grouped_by_application, have_actions, ids_valid, limits_refusal,
    mark_read_outcome, of_application, open_refusal, opened_state, push_outcome, refused,
    sorted_set_of, too_large, verdict_views, wrote, NotificationGroup, NotificationStore,
    PushResult, RecoveredState,
};
use crate::text::{byte_len, decimal, ends_with, is_blank, lex_less};

verus! {

// ---------------------------------------------------------------------------
// What the operations do
// ---------------------------------------------------------------------------

/// "Do not disturb" is as it was asked to be, at once and when the log is read back, and
/// nothing else changes.
pub proof fn do_not_disturb_is_what_was_asked(state: StoreView, enabled: bool, capacity: int)
    ensures
        ({
            let after = effect(state, OperationView::SetDnd { enabled }, capacity);
            &&& after.preferences.dnd <==> enabled
            &&& after.preferences.next_notification_id == state.preferences.next_notification_id
            &&& after.preferences.schema_version == state.preferences.schema_version
            &&& after.active == state.active
            &&& after.archive == state.archive
            &&& replayed(state, OperationView::SetDnd { enabled }, capacity) == Ok::<
                StoreView,
                Refusal,
            >(after)
        }),
{
}

/// A new notification is the last of the active ones. While there is room nothing else
/// moves; when there is none, the oldest goes to the end of the archive.
pub proof fn a_new_notification_is_the_last(
    state: StoreView,
    notification: NotificationView,
    archived: Seq<NotificationView>,
    capacity: int,
)
    requires
        state.well_formed(capacity),
        capacity >= 1,
        !has_id(state.active, notification.id),
        0 < notification.id < u64::MAX,
    ensures
        ({
            let after = effect(state, OperationView::Push { notification, archived }, capacity);
            &&& after.active.len() > 0
            &&& after.active.last() == notification
            &&& after.active.len() <= capacity
            &&& after.preferences.dnd == state.preferences.dnd
            &&& after.preferences.next_notification_id > notification.id
            &&& after.preferences.next_notification_id >= state.preferences.next_notification_id
            &&& state.active.len() < capacity ==> {
                &&& after.active == state.active.push(notification)
                &&& after.archive == state.archive
                &&& state.evicted(notification, capacity) == Seq::<NotificationView>::empty()
            }
            &&& state.active.len() == capacity ==> {
                &&& after.active == state.active.skip(1).push(notification)
                &&& after.archive.len() == state.archive.len() + 1
                &&& after.archive.drop_last() == state.archive
                &&& after.archive.last() == (NotificationView { archived: true, ..state.active[0] })
                &&& state.evicted(notification, capacity) == seq![after.archive.last()]
            }
        }),
{
    without_id_facts(state.active, notification.id);
    let kept = state.active.push(notification);
    let after = effect(state, OperationView::Push { notification, archived }, capacity);
    assert(without_id(state.active, notification.id) == state.active);
    if state.active.len() == capacity {
        assert(kept.skip(1) =~= state.active.skip(1).push(notification));
        assert(kept.first() == state.active[0]);
        assert(after.archive.drop_last() =~= state.archive);
    }
}

/// A notification that takes the place of another is the last of the active ones; the
/// other is gone, and every third one stays where it was.
pub proof fn a_replacement_takes_the_place(
    state: StoreView,
    at: int,
    notification: NotificationView,
    archived: Seq<NotificationView>,
    capacity: int,
)
    requires
        state.well_formed(capacity),
        0 <= at < state.active.len(),
        state.active[at].id == notification.id,
        notification.id < u64::MAX,
    ensures
        ({
            let after = effect(state, OperationView::Push { notification, archived }, capacity);
            &&& after.active == state.active.remove(at).push(notification)
            &&& after.archive == state.archive
            &&& after.preferences == state.preferences
        }),
{
    split_distinct(state);
    without_id_removes_one(state.active, at);
    assert(state.all()[at] == state.active[at]);
}

/// A dismissed notification leaves the active ones and is the last of the archive, marked
/// as archived and otherwise as it was.
pub proof fn a_dismissed_notification_is_archived(
    state: StoreView,
    at: int,
    capacity: int,
    limit: int,
)
    requires
        state.well_formed(capacity),
        0 <= at < state.active.len(),
    ensures
        dismiss_outcome(state, state.active[at].id, capacity, limit) matches Ok(operation) ==> {
            let after = effect(state, operation, capacity);
            &&& after.active == state.active.remove(at)
            &&& after.archive == state.archive.push(
                NotificationView { archived: true, ..state.active[at] },
            )
            &&& after.preferences == state.preferences
        },
{
    split_distinct(state);
    let id = state.active[at].id;
    place_facts(state.active, id);
    assert(has_id(state.active, id));
    let found = place(state.active, id);
    if found != at {
        assert(state.active[found].id != state.active[at].id);
    }
    without_id_removes_one(state.active, at);
}

/// A notification that was read has its mark, and nothing else changes.
pub proof fn a_read_notification_is_marked(state: StoreView, id: u64, i: int, capacity: int)
    requires
        0 <= i < state.active.len(),
    ensures
        ({
            let after = effect(state, OperationView::MarkRead { id }, capacity);
            &&& after.active.len() == state.active.len()
            &&& state.active[i].id == id ==> after.active[i] == (NotificationView {
                read: true,
                ..state.active[i]
            })
            &&& state.active[i].id != id ==> after.active[i] == state.active[i]
            &&& after.archive == state.archive
            &&& after.preferences == state.preferences
        }),
{
}

/// Every action of a listed notification is expired, active or archived; its identifier
/// and its label stay, and what is not listed stays as it was.
pub proof fn listed_actions_are_expired(state: StoreView, ids: Seq<u64>, i: int, k: int, capacity: int)
    requires
        0 <= i < state.all().len(),
    ensures
        ({
            let after = effect(state, OperationView::ExpireActions { ids }, capacity);
            let before = state.all()[i];
            let now = after.all()[i];
            &&& after.active.len() == state.active.len()
            &&& after.archive.len() == state.archive.len()
            &&& now.id == before.id
            &&& now.actions.len() == before.actions.len()
            &&& !ids.contains(before.id) ==> now == before
            &&& ids.contains(before.id) && 0 <= k < before.actions.len() ==> {
                &&& now.actions[k].state == NotificationActionState::Expired
                &&& now.actions[k].id == before.actions[k].id
                &&& now.actions[k].label == before.actions[k].label
            }
            &&& now.summary == before.summary
            &&& now.body == before.body
            &&& now.application_id == before.application_id
            &&& now.urgency == before.urgency
            &&& now.created_at == before.created_at
            &&& now.timeout_ms == before.timeout_ms
            &&& now.read == before.read
            &&& now.archived == before.archived
            &&& after.preferences == state.preferences
        }),
{
}

/// A purge empties the archive and nothing else.
pub proof fn a_purge_empties_the_archive(state: StoreView, capacity: int)
    ensures
        ({
            let after = effect(state, OperationView::PurgeArchive, capacity);
            &&& after.archive.len() == 0
            &&& after.active == state.active
            &&& after.preferences == state.preferences
        }),
{
}

// ---------------------------------------------------------------------------
// What the requests lead to
// ---------------------------------------------------------------------------

/// A request to show a notification leads to just that notification: under its own
/// identifier, or under the next free one if it has none, and not archived.
pub proof fn what_was_asked_is_shown(
    state: StoreView,
    notification: NotificationView,
    verdict: Option<Seq<char>>,
    capacity: int,
    limit: int,
)
    ensures
        push_outcome(state, notification, verdict, capacity, limit) matches Ok(operation) ==> {
            &&& operation is Push
            &&& operation->Push_notification == (NotificationView {
                id: if notification.id == 0 {
                    state.preferences.next_notification_id
                } else {
                    notification.id
                },
                archived: false,
                ..notification
            })
            &&& operation->archived == state.evicted(operation->Push_notification, capacity)
            &&& verdict is None
        },
{
}

/// When a request to show a notification is refused.
pub proof fn when_a_notification_is_refused(
    state: StoreView,
    notification: NotificationView,
    verdict: Option<Seq<char>>,
    capacity: int,
    limit: int,
)
    requires
        0 < notification.id < u64::MAX,
        limit <= usize::MAX,
    ensures
        push_outcome(state, notification, verdict, capacity, limit) is Ok <==> {
            &&& document_size(notification) <= 65536
            &&& verdict is None
            &&& has_id(state.active, notification.id) || !has_id(state.archive, notification.id)
            &&& state.pushed(
                NotificationView { archived: false, ..notification },
                capacity,
            ).aggregate_size() <= limit
        },
{
}

/// Identifiers are handed out in order, as far as the bus can carry them.
pub proof fn identifiers_are_handed_out_in_order(state: StoreView, notification: NotificationView)
    ensures
        notification.id == 0 ==> (assigned(state, notification) is Ok
            <==> state.preferences.next_notification_id <= 4_294_967_295),
        notification.id == 0 && assigned(state, notification) is Ok ==> assigned(
            state,
            notification,
        )->Ok_0.id == state.preferences.next_notification_id,
        0 < notification.id < u64::MAX ==> assigned(state, notification) == Ok::<
            NotificationView,
            Refusal,
        >(notification),
        notification.id == u64::MAX ==> assigned(state, notification) is Err,
{
}

/// What is not there cannot be marked, dismissed or expired.
pub proof fn what_is_not_there_is_not_found(
    state: StoreView,
    id: u64,
    sorted: Seq<u64>,
    k: int,
    capacity: int,
    limit: int,
)
    ensures
        !has_id(state.active, id) ==> {
            &&& mark_read_outcome(state, id, capacity, limit) == Err::<OperationView, Refusal>(
                (ErrorKind::NotFound, "notification not found"@),
            )
            &&& dismiss_outcome(state, id, capacity, limit) == Err::<OperationView, Refusal>(
                (ErrorKind::NotFound, "notification not found"@),
            )
        },
        0 <= k < sorted.len() && !has_id(state.active, sorted[k]) && !has_id(
            state.archive,
            sorted[k],
        ) ==> expire_outcome(state, sorted, capacity, limit) == Err::<OperationView, Refusal>(
            (ErrorKind::NotFound, "notification not found"@),
        ),
{
    if 0 <= k < sorted.len() && !has_id(state.active, sorted[k]) && !has_id(
        state.archive,
        sorted[k],
    ) {
        assert(!state.knows(sorted[k]));
    }
}

/// Each command leads to the operation of its name, on the notification that it names.
pub proof fn commands_do_what_they_say(
    state: StoreView,
    command: NotificationCommand,
    capacity: int,
    limit: int,
)
    ensures
        command_outcome(state, command, capacity, limit) matches Ok(operation) ==> match command {
            NotificationCommand::MarkRead { id } => operation is MarkRead && operation->MarkRead_id
                == id,
            NotificationCommand::Dismiss { id } => operation is Dismiss
                && operation->Dismiss_notification.id == id
                && operation->Dismiss_notification.archived,
            NotificationCommand::Archive { id } => operation is Dismiss
                && operation->Dismiss_notification.id == id
                && operation->Dismiss_notification.archived,
            NotificationCommand::SetDnd { enabled } => operation is SetDnd && (operation->enabled
                <==> enabled),
            NotificationCommand::PurgeArchive => operation is PurgeArchive,
        },
{
    match command {
        NotificationCommand::Dismiss { id } => {
            place_facts(state.active, id);
        },
        NotificationCommand::Archive { id } => {
            place_facts(state.active, id);
        },
        _ => {},
    }
}

/// A document is refused when it is larger than 64 KiB or when the schema objects to it.
pub proof fn when_a_document_is_refused(document: NotificationView, verdict: Option<Seq<char>>)
    ensures
        document_refusal(document, verdict) is None <==> document_size(document) <= 65536
            && verdict is None,
        document_size(document) > 65536 ==> document_refusal(document, verdict) == Some(
            (ErrorKind::InvalidInput, "notification exceeds the 64 KiB input limit"@),
        ),
        document_size(document) <= 65536 && verdict is Some ==> document_refusal(document, verdict)
            == Some((ErrorKind::InvalidData, verdict->Some_0)),
{
}

/// A list is accepted when each of its documents is.
pub proof fn when_a_list_is_refused(
    documents: Seq<NotificationView>,
    verdicts: Seq<Option<Seq<char>>>,
)
    requires
        verdicts.len() == documents.len(),
    ensures
        first_refusal(documents, verdicts) is None <==> forall|i: int|
            0 <= i < documents.len() ==> document_size(#[trigger] documents[i]) <= 65536
                && verdicts[i] is None,
    decreases documents.len(),
{
    if documents.len() > 0 {
        let rest = documents.skip(1);
        let said = verdicts.skip(1);
        when_a_list_is_refused(rest, said);
        assert(documents.first() == documents[0] && verdicts.first() == verdicts[0]);
        if first_refusal(documents, verdicts) is None {
            assert forall|i: int| 0 <= i < documents.len() implies document_size(
                #[trigger] documents[i],
            ) <= 65536 && verdicts[i] is None by {
                if i > 0 {
                    assert(rest[i - 1] == documents[i] && said[i - 1] == verdicts[i]);
                }
            }
        }
        if forall|i: int|
            0 <= i < documents.len() ==> document_size(#[trigger] documents[i]) <= 65536
                && verdicts[i] is None {
            assert forall|i: int| 0 <= i < rest.len() implies document_size(#[trigger] rest[i])
                <= 65536 && said[i] is None by {
                assert(rest[i] == documents[i + 1] && said[i] == verdicts[i + 1]);
            }
            assert(document_size(documents[0]) <= 65536);
        }
    }
}

/// Which capacities and limits a store can have.
pub proof fn which_limits_are_accepted(capacity: int, limit: int)
    ensures
        limits_refusal(capacity, limit) is None <==> capacity != 0 && limit != 0 && limit
            < 67_108_864,
{
}

/// Whether a state is too large is a matter of its size alone.
pub proof fn when_a_state_is_too_large(state: StoreView, limit: int)
    requires
        limit <= usize::MAX,
    ensures
        too_large(state, limit) is None <==> state.aggregate_size() <= limit,
{
}

/// The greatest identifier is one of the identifiers, and none is above it.
pub proof fn no_identifier_is_above_the_greatest(documents: Seq<NotificationView>)
    ensures
        forall|i: int|
            0 <= i < documents.len() ==> (#[trigger] documents[i]).id <= greatest_id(documents),
        documents.len() == 0 ==> greatest_id(documents) == 0,
        greatest_id(documents) == 0 || exists|i: int|
            0 <= i < documents.len() && (#[trigger] documents[i]).id == greatest_id(documents),
    decreases documents.len(),
{
    if documents.len() > 0 {
        let shorter = documents.drop_last();
        no_identifier_is_above_the_greatest(shorter);
        let last = documents.len() - 1;
        assert forall|i: int| 0 <= i < documents.len() implies (#[trigger] documents[i]).id
            <= greatest_id(documents) by {
            if i < last {
                assert(shorter[i] == documents[i]);
            }
        }
        if documents[last].id > greatest_id(shorter) {
            assert(documents[last].id == greatest_id(documents));
        } else if greatest_id(shorter) != 0 {
            let i = choose|i: int|
                0 <= i < shorter.len() && (#[trigger] shorter[i]).id == greatest_id(shorter);
            assert(documents[i].id == greatest_id(documents));
        }
    }
}

/// The group of an application holds its notifications and no others, in their order.
pub proof fn a_group_is_what_its_application_sent(
    documents: Seq<NotificationView>,
    application_id: Seq<char>,
)
    ensures
        of_application(documents, application_id) == documents.filter(
            |document: NotificationView| document.application_id == application_id,
        ),
    decreases documents.len(),
{
    reveal(Seq::filter);
    if documents.len() > 0 {
        a_group_is_what_its_application_sent(documents.drop_last(), application_id);
    } else {
        assert(documents =~= Seq::empty());
    }
}

// ---------------------------------------------------------------------------
// Popups, origins and announcements
// ---------------------------------------------------------------------------

/// A popup is shown unless "do not disturb" is on; a critical one is shown even then.
pub proof fn when_a_notification_pops_up(state: StoreView, notification: NotificationView)
    ensures
        !state.preferences.dnd ==> pops_up(state, notification),
        notification.urgency == NotificationUrgency::Critical ==> pops_up(state, notification),
        state.preferences.dnd && notification.urgency == NotificationUrgency::Normal ==> !pops_up(
            state,
            notification,
        ),
        state.preferences.dnd && notification.urgency == NotificationUrgency::Low ==> !pops_up(
            state,
            notification,
        ),
{
}

/// A popup closes by itself after its time, and not before. Without a time, or with the
/// time zero, it stays.
pub proof fn when_a_popup_closes(
    popups: Map<u64, Option<u64>>,
    id: u64,
    timeout: u64,
    shown: u64,
    now: u64,
)
    requires
        shown + timeout <= u64::MAX,
    ensures
        timeout > 0 ==> (is_due(
            popups.insert(id, popup_deadline(Some(timeout), shown)),
            id,
            now,
        ) <==> now - shown >= timeout),
        !is_due(popups.insert(id, popup_deadline(Some(0), shown)), id, now),
        !is_due(popups.insert(id, popup_deadline(None, shown)), id, now),
        !is_due(popups.remove(id), id, now),
{
}

/// Which popups stay when a command is carried out.
pub proof fn which_popups_stay(state: StoreView, popups: Map<u64, Option<u64>>, id: u64, of: u64)
    requires
        popups.contains_key(of),
    ensures
        popups_after(state, popups, NotificationCommand::MarkRead { id }).contains_key(of),
        popups_after(state, popups, NotificationCommand::Dismiss { id }).contains_key(of) <==> of
            != id,
        popups_after(state, popups, NotificationCommand::Archive { id }).contains_key(of) <==> of
            != id,
        popups_after(state, popups, NotificationCommand::SetDnd { enabled: false }).contains_key(
            of,
        ),
        popups_after(state, popups, NotificationCommand::SetDnd { enabled: true }).contains_key(of)
            <==> exists|i: int|
            0 <= i < state.active.len() && (#[trigger] state.active[i]).id == of
                && state.active[i].urgency == NotificationUrgency::Critical,
        has_id(state.archive, of) <==> !popups_after(
            state,
            popups,
            NotificationCommand::PurgeArchive,
        ).contains_key(of),
{
    let ids = state.archive.map_values(|d: NotificationView| d.id);
    if has_id(state.archive, of) {
        let i = choose|i: int| 0 <= i < state.archive.len() && #[trigger] state.archive[i].id == of;
        assert(ids[i] == of);
        assert(ids.contains(of));
    }
    if ids.contains(of) {
        let i = choose|i: int| 0 <= i < ids.len() && ids[i] == of;
        assert(state.archive[i].id == of);
    }
}

/// A command changes no popup that stays, shows none that was not shown, and forgets an
/// origin only when a purge takes the notification away.
pub proof fn commands_show_nothing_new(
    state: StoreView,
    popups: Map<u64, Option<u64>>,
    origins: Map<u64, Seq<char>>,
    command: NotificationCommand,
    id: u64,
)
    ensures
        popups_after(state, popups, command).contains_key(id) ==> popups.contains_key(id)
            && popups_after(state, popups, command)[id] == popups[id],
        origins_after(state, origins, command).contains_key(id) ==> origins.contains_key(id)
            && origins_after(state, origins, command)[id] == origins[id],
        origins.contains_key(id) && !origins_after(state, origins, command).contains_key(id)
            <==> origins.contains_key(id) && command is PurgeArchive && has_id(state.archive, id),
{
    let ids = state.archive.map_values(|d: NotificationView| d.id);
    if has_id(state.archive, id) {
        let i = choose|i: int| 0 <= i < state.archive.len() && #[trigger] state.archive[i].id == id;
        assert(ids[i] == id);
        assert(ids.contains(id));
    }
    if ids.contains(id) {
        let i = choose|i: int| 0 <= i < ids.len() && ids[i] == id;
        assert(state.archive[i].id == id);
    }
}

/// Only the program that sent a notification can replace it, and only while it is active.
pub proof fn only_the_sender_replaces(
    state: StoreView,
    origins: Map<u64, Seq<char>>,
    origin: Seq<char>,
    replaces: u64,
)
    ensures
        request_refusal(state, origins, origin, replaces) is None && replaces != 0 ==> {
            &&& has_id(state.active, replaces)
            &&& origins.contains_key(replaces)
            &&& origins[replaces] == origin
        },
        request_refusal(state, origins, origin, 0) is None <==> !is_blank(origin) && byte_len(
            origin,
        ) <= 255,
        !is_blank(origin) && byte_len(origin) <= 255 && has_id(state.active, replaces)
            && origins.contains_key(replaces) && origins[replaces] == origin ==> request_refusal(
            state,
            origins,
            origin,
            replaces,
        ) is None,
        request_refusal(state, origins, origin, replaces) matches Some(refusal) ==> refusal.0
            == ErrorKind::InvalidInput || refusal.0 == ErrorKind::PermissionDenied,
{
}

/// An action can be invoked when its notification is active, its program is known and the
/// action has not expired.
pub proof fn when_an_action_can_be_invoked(
    state: StoreView,
    origins: Map<u64, Seq<char>>,
    i: int,
    k: int,
)
    requires
        0 <= i < state.active.len(),
        0 <= k < state.active[i].actions.len(),
        forall|j: int|
            0 <= j < i ==> (#[trigger] state.active[j]).id != state.active[i].id,
        forall|j: int|
            0 <= j < k ==> (#[trigger] state.active[i].actions[j]).id
                != state.active[i].actions[k].id,
    ensures
        invocation_refusal(state, origins, state.active[i].id, state.active[i].actions[k].id)
            is None <==> {
            &&& origins.contains_key(state.active[i].id)
            &&& state.active[i].actions[k].state == NotificationActionState::Available
        },
{
    let id = state.active[i].id;
    place_facts(state.active, id);
    assert(has_id(state.active, id));
    let at = place(state.active, id);
    if at < i {
        assert(state.active[at].id != id);
    }
    let notification = state.active[i];
    let action_id = notification.actions[k].id;
    let found = first_action(notification, action_id);
    let good = |j: int|
        {
            &&& 0 <= j < notification.actions.len()
            &&& notification.actions[j].id == action_id
            &&& forall|l: int| 0 <= l < j ==> (#[trigger] notification.actions[l]).id != action_id
        };
    assert(good(k));
    assert(notification.actions[k].id == action_id);
    if found < k {
        assert(notification.actions[found].id != action_id);
    } else if k < found {
        assert(notification.actions[k].id != action_id);
    }
}

/// What a notification pushed out is announced first, each as archived and in its order;
/// then the notification itself.
pub proof fn what_is_announced_of_a_notification(
    outcome: NotifyOutcome,
    change: NotificationChange,
    i: int,
)
    ensures
        notify_events(outcome, change).len() == outcome.archived_ids@.len() + 1,
        0 <= i < outcome.archived_ids@.len() ==> notify_events(outcome, change)[i]
            == (ServiceEvent::Notification {
            id: outcome.archived_ids@[i],
            change: NotificationChange::Archived,
        }),
        notify_events(outcome, change).last() == (ServiceEvent::Notification {
            id: outcome.id,
            change,
        }),
{
}

/// What is announced of a command.
pub proof fn what_is_announced_of_a_command(id: u64)
    ensures
        command_event(NotificationCommand::MarkRead { id }) == (ServiceEvent::Notification {
            id,
            change: NotificationChange::Updated,
        }),
        command_event(NotificationCommand::Dismiss { id }) == (ServiceEvent::Notification {
            id,
            change: NotificationChange::Archived,
        }),
        command_event(NotificationCommand::Archive { id }) == (ServiceEvent::Notification {
            id,
            change: NotificationChange::Archived,
        }),
        command_event(NotificationCommand::SetDnd { enabled: true }) == (
        ServiceEvent::DndProvider { online: false }),
        command_event(NotificationCommand::SetDnd { enabled: false }) == (
        ServiceEvent::DndProvider { online: true }),
        command_event(NotificationCommand::PurgeArchive) == (
        ServiceEvent::ArchiveProvider { online: true }),
{
}

// ---------------------------------------------------------------------------
// The socket
// ---------------------------------------------------------------------------

/// A request is routed to the command of its name, with its own identifier.
pub proof fn requests_are_routed_by_their_names(operation: Operation, action: SocketAction)
    requires
        routed(operation, action),
    ensures
        operation is Snapshot <==> action is Snapshot,
        operation is InvokeAction <==> action is Invoke,
        action is Command ==> match action->command {
            NotificationCommand::MarkRead { id } => operation is MarkRead && operation->MarkRead_id
                == id,
            NotificationCommand::Dismiss { id } => operation is Dismiss && operation->Dismiss_id
                == id,
            NotificationCommand::Archive { id } => operation is Archive && operation->Archive_id
                == id,
            NotificationCommand::SetDnd { enabled } => operation is SetDnd && operation->enabled
                == enabled,
            NotificationCommand::PurgeArchive => operation is PurgeArchive,
        },
        action is Invoke ==> action->Invoke_id == operation->InvokeAction_id
            && action->Invoke_action_id@ == operation->InvokeAction_action_id@,
        operation is MarkRead ==> operation_id(operation) == Some(operation->MarkRead_id),
        operation is Dismiss ==> operation_id(operation) == Some(operation->Dismiss_id),
        operation is Archive ==> operation_id(operation) == Some(operation->Archive_id),
        operation is InvokeAction ==> operation_id(operation) == Some(operation->InvokeAction_id),
        operation is Snapshot || operation is SetDnd || operation is PurgeArchive
            ==> operation_id(operation) is None,
{
}

/// The codes of errors.
pub proof fn errors_have_these_codes(kind: ErrorKind)
    ensures
        error_code(kind) == "expired"@ || error_code(kind) == "notFound"@ || error_code(kind)
            == "permissionDenied"@ || error_code(kind) == "error"@,
        error_code(kind) == "expired"@ <==> kind == ErrorKind::NotConnected,
        error_code(kind) == "notFound"@ <==> kind == ErrorKind::NotFound,
        error_code(kind) == "permissionDenied"@ <==> kind == ErrorKind::PermissionDenied,
{
    reveal_strlit("expired");
    reveal_strlit("notFound");
    reveal_strlit("permissionDenied");
    reveal_strlit("error");
    assert("expired"@.len() == 7 && "notFound"@.len() == 8);
    assert("permissionDenied"@.len() == 16 && "error"@.len() == 5);
}

/// A notification is listed as shown exactly when it has a popup.
pub proof fn what_has_a_popup_is_shown(
    active: Seq<NotificationView>,
    popups: Map<u64, Option<u64>>,
    id: u64,
)
    ensures
        shown_ids(active, popups).contains(id) <==> has_id(active, id) && popups.contains_key(id),
        shown_ids(active, popups).len() <= active.len(),
    decreases active.len(),
{
    if active.len() > 0 {
        let shorter = active.drop_last();
        let earlier = shown_ids(shorter, popups);
        let all = shown_ids(active, popups);
        what_has_a_popup_is_shown(shorter, popups, id);
        let last = active.len() - 1;
        if has_id(active, id) && popups.contains_key(id) {
            let i = choose|i: int| 0 <= i < active.len() && #[trigger] active[i].id == id;
            if i < last {
                assert(shorter[i].id == id);
                let k = choose|k: int| 0 <= k < earlier.len() && earlier[k] == id;
                assert(all[k] == id);
            } else {
                assert(all[earlier.len() as int] == id);
            }
        }
        if all.contains(id) {
            let k = choose|k: int| 0 <= k < all.len() && all[k] == id;
            if k < earlier.len() {
                assert(earlier[k] == id);
                let i = choose|i: int| 0 <= i < shorter.len() && #[trigger] shorter[i].id == id;
                assert(active[i].id == id);
            } else {
                assert(active[last].id == id);
            }
        }
    }
}

// ---------------------------------------------------------------------------
// The log
// ---------------------------------------------------------------------------

/// After an append the log is one record longer.
pub proof fn an_append_adds_one_record(log: LogState, length: int)
    requires
        0 <= length,
        log.segment_bytes + length <= usize::MAX,
        log.log_bytes_since_checkpoint + length <= usize::MAX,
        log.operations_since_checkpoint < u64::MAX,
        log.next_sequence < u64::MAX,
    ensures
        ({
            let after = log.after_append(length);
            &&& after.segment_bytes == log.segment_bytes + length
            &&& after.log_bytes_since_checkpoint == log.log_bytes_since_checkpoint + length
            &&& after.operations_since_checkpoint == log.operations_since_checkpoint + 1
            &&& after.next_sequence == log.next_sequence + 1
            &&& after.segment_index == log.segment_index
            &&& after.poisoned == log.poisoned
            &&& after.initialized == log.initialized
        }),
{
}

/// A checkpoint is due after a thousand operations, and it covers every record so far.
pub proof fn when_a_checkpoint_is_due(log: LogState)
    requires
        log.next_sequence >= 1,
    ensures
        log.due() is Some <==> log.operations_since_checkpoint >= 1000,
        log.due() matches Some(sequence) ==> sequence + 1 == log.next_sequence,
        !log.after_finish().poisoned,
        log.after_finish().next_sequence == log.next_sequence,
        log.due() is Some ==> {
            &&& log.after_finish().operations_since_checkpoint == 0
            &&& log.after_finish().segment_bytes == 0
            &&& log.after_finish().log_bytes_since_checkpoint == 0
            &&& log.after_finish().segment_index == 0
        },
        log.due() is None ==> {
            &&& log.after_finish().operations_since_checkpoint == log.operations_since_checkpoint
            &&& log.after_finish().segment_bytes == log.segment_bytes
            &&& log.after_finish().log_bytes_since_checkpoint == log.log_bytes_since_checkpoint
            &&& log.after_finish().segment_index == log.segment_index
        },
{
}

/// A record goes to the present segment while it fits there, to the next one when it does
/// not, and to the first one when the whole log has become too long.
pub proof fn where_a_record_goes(log: LogState, length: int)
    requires
        log.tail_repair is None,
        0 <= length <= 4_194_304,
        log.log_bytes_since_checkpoint <= 16_777_216,
        log.segment_bytes <= 4_194_304,
        log.segment_index < usize::MAX,
        log.next_sequence >= 1,
    ensures
        ({
            let plan = log.plan_for(length);
            let full = log.log_bytes_since_checkpoint + length > 16_777_216;
            let over = log.segment_bytes + length > 4_194_304;
            &&& plan.import_legacy == !log.initialized
            &&& plan.truncate is None
            &&& plan.checkpoint is Some <==> full
            &&& full ==> plan.checkpoint->Some_0 + 1 == log.next_sequence && plan.segment == 0
                && !plan.rotated
            &&& !full && over ==> plan.rotated && plan.segment == log.segment_index + 1
            &&& !full && !over ==> !plan.rotated && plan.segment == log.segment_index
            &&& plan.discarded_through == log.segment_index
            &&& log.ready_for(length).poisoned
            &&& log.ready_for(length).initialized
            &&& log.ready_for(length).segment_index == plan.segment
            &&& log.ready_for(length).next_sequence == log.next_sequence
        }),
{
}

/// An unfinished record is cut off before anything is appended.
pub proof fn an_unfinished_record_is_cut_off(log: LogState, length: usize)
    requires
        log.tail_repair == Some((log.segment_index, length)),
        length <= log.segment_bytes <= log.log_bytes_since_checkpoint,
    ensures
        log.plan_for(0).truncate == Some((log.segment_index, length)),
        log.repaired().segment_bytes == length,
        log.log_bytes_since_checkpoint - log.repaired().log_bytes_since_checkpoint
            == log.segment_bytes - length,
        log.repaired().tail_repair is None,
        log.repaired().next_sequence == log.next_sequence,
        log.repaired().segment_index == log.segment_index,
{
}

/// A record can be appended unless a write is unfinished, the record is larger than a
/// segment, or no segment is left.
pub proof fn when_a_record_is_refused(log: LogState, length: int)
    requires
        0 <= length,
        log.segment_index < usize::MAX,
    ensures
        log.append_refusal(length) is None <==> !log.poisoned && length <= 4_194_304,
{
}

// ---------------------------------------------------------------------------
// The order of a write
// ---------------------------------------------------------------------------

proof fn segments_are_removed_one_by_one(through: nat, i: int)
    requires
        through <= usize::MAX,
    ensures
        removals(through).len() == through,
        0 <= i < through ==> removals(through)[i] == FileStep::RemoveSegment((i + 1) as usize),
    decreases through,
{
    if through > 0 {
        segments_are_removed_one_by_one((through - 1) as nat, i);
    }
}

/// A checkpoint is written first; then the first segment is emptied and the others are
/// removed from the second on, each once; the directory is brought to the disk last.
pub proof fn how_a_checkpoint_is_published(sequence: u64, through: usize, i: int)
    ensures
        ({
            let steps = checkpoint_steps(sequence, through);
            &&& steps.len() == through + 5
            &&& steps[0] == FileStep::Checkpoint(sequence)
            &&& steps[1] == FileStep::Observe(NotificationCommitStage::CheckpointPublished)
            &&& steps[2] == FileStep::EmptyFirstSegment
            &&& 1 <= i <= through ==> steps[i + 2] == FileStep::RemoveSegment(i as usize)
            &&& steps[through + 3] == FileStep::SyncDirectory
            &&& steps[through + 4] == FileStep::Observe(NotificationCommitStage::SegmentRotated)
        }),
{
    segments_are_removed_one_by_one(through as nat, i - 1);
}

/// The files of an older store are backed up, all three, before its checkpoint, which has
/// the number zero, is published.
pub proof fn how_an_older_store_is_taken_over(through: usize)
    ensures
        import_steps(through).len() == through + 9,
        import_steps(through).take(4) == seq![
            FileStep::Backup(LegacyFile::Active),
            FileStep::Backup(LegacyFile::Archive),
            FileStep::Backup(LegacyFile::Preferences),
            FileStep::Observe(NotificationCommitStage::LegacyMigration),
        ],
        import_steps(through).skip(4) == checkpoint_steps(0, through),
{
    segments_are_removed_one_by_one(through as nat, 0);
    assert(import_steps(through).take(4) =~= seq![
        FileStep::Backup(LegacyFile::Active),
        FileStep::Backup(LegacyFile::Archive),
        FileStep::Backup(LegacyFile::Preferences),
        FileStep::Observe(NotificationCommitStage::LegacyMigration),
    ]);
    assert(import_steps(through).skip(4) =~= checkpoint_steps(0, through));
}

/// What precedes a record: the import of an older store, the cut of an unfinished record
/// and the checkpoint, each exactly when the plan has it.
pub proof fn what_precedes_a_record(plan: LogPlan)
    ensures
        !plan.import_legacy && plan.truncate is None && plan.checkpoint is None && !plan.rotated
            ==> preparation(plan).len() == 0,
        !plan.import_legacy && plan.truncate is None && plan.checkpoint is None && plan.rotated
            ==> preparation(plan) == seq![
            FileStep::Observe(NotificationCommitStage::SegmentRotated),
        ],
        !plan.import_legacy && plan.truncate is Some && plan.checkpoint is None && !plan.rotated
            ==> preparation(plan) == seq![
            FileStep::Truncate(plan.truncate->Some_0.0, plan.truncate->Some_0.1),
        ],
        !plan.import_legacy && plan.truncate is None && plan.checkpoint is Some ==> preparation(
            plan,
        ) == checkpoint_steps(plan.checkpoint->Some_0, plan.discarded_through),
        plan.import_legacy && plan.truncate is None && plan.checkpoint is None && !plan.rotated
            ==> preparation(plan) == import_steps(plan.discarded_through),
{
    if !plan.import_legacy && plan.truncate is Some && plan.checkpoint is None && !plan.rotated {
        assert(preparation(plan) =~= seq![
            FileStep::Truncate(plan.truncate->Some_0.0, plan.truncate->Some_0.1),
        ]);
    }
    if !plan.import_legacy && plan.truncate is None {
        if plan.checkpoint is Some {
            assert(preparation(plan) =~= checkpoint_steps(
                plan.checkpoint->Some_0,
                plan.discarded_through,
            ));
        } else if plan.rotated {
            assert(preparation(plan) =~= seq![
                FileStep::Observe(NotificationCommitStage::SegmentRotated),
            ]);
        } else {
            assert(preparation(plan) =~= Seq::empty());
        }
    }
    if plan.import_legacy && plan.truncate is None && plan.checkpoint is None && !plan.rotated {
        assert(preparation(plan) =~= import_steps(plan.discarded_through));
    }
}

// ---------------------------------------------------------------------------
// What requests leave behind
// ---------------------------------------------------------------------------

/// A notification that was shown has its sender and its popup, closes when its time is
/// over, and is told as new exactly when it replaced none.
pub proof fn what_a_shown_notification_leaves(
    before: FreedesktopNotificationProvider,
    request: NotifyRequest,
    operation: OperationView,
    now: u64,
    told: (NotifyOutcome, NotificationChange),
    after: FreedesktopNotificationProvider,
)
    requires
        FreedesktopNotificationProvider::shown(before, request, operation, now, told, after),
        operation is Push,
    ensures
        ({
            let id = operation->Push_notification.id;
            let disturbed = before.store.state().preferences.dnd
                && request.notification.urgency != NotificationUrgency::Critical;
            &&& told.0.id == id
            &&& told.0.popup <==> !disturbed
            &&& told.1 == NotificationChange::Added <==> request.notification.id == 0
            &&& told.1 == NotificationChange::Updated <==> request.notification.id != 0
            &&& told.0.archived_ids@.len() == operation->archived.len()
            &&& forall|i: int|
                0 <= i < operation->archived.len() ==> #[trigger] told.0.archived_ids@[i]
                    == operation->archived[i].id
            &&& after.origins().contains_key(id)
            &&& after.origins()[id] == request.origin@
            &&& after.popups().contains_key(id) <==> !disturbed
            &&& !disturbed && request.notification.timeout_ms is Some
                && request.notification.timeout_ms->Some_0 > 0 && now
                + request.notification.timeout_ms->Some_0 <= u64::MAX ==> after.popups()[id]
                == Some((now + request.notification.timeout_ms->Some_0) as u64)
            &&& !disturbed && (request.notification.timeout_ms is None
                || request.notification.timeout_ms == Some(0u64)) ==> after.popups()[id] is None
        }),
{
}

/// Nothing changes when a request is refused; what was asked happened when it is not.
pub proof fn what_a_command_leaves<
    W: FnOnce(&NotificationStore, &LogPlan, &str) -> Result<(), SessionError>,
    K: FnOnce(&NotificationStore, u64) -> Result<(), SessionError>,
>(
    before: FreedesktopNotificationProvider,
    enabled: bool,
    write: W,
    publish: K,
    result: Result<(), SessionError>,
    after: FreedesktopNotificationProvider,
)
    requires
        FreedesktopNotificationProvider::executed(
            before,
            NotificationCommand::SetDnd { enabled },
            write,
            publish,
            result,
            after,
        ),
        result is Ok,
    ensures
        after.store.state().preferences.dnd == enabled,
        after.store.state().active == before.store.state().active,
        after.store.state().archive == before.store.state().archive,
        after.origins() == before.origins(),
        !enabled ==> after.popups() == before.popups(),
{
    let state = before.store.state();
    let operation = OperationView::SetDnd { enabled };
    let applied = choose|applied: Result<PushResult, SessionError>| #[trigger]
        NotificationStore::applied(
            before.store,
            operation,
            write,
            publish,
            applied,
            after.store,
        ) && match applied {
            Err(error) => {
                &&& result == Err::<(), SessionError>(error)
                &&& after.origins() == before.origins()
                &&& after.popups() == before.popups()
            },
            Ok(_) => {
                &&& result is Ok
                &&& after.origins() == origins_after(
                    state,
                    before.origins(),
                    NotificationCommand::SetDnd { enabled },
                )
                &&& after.popups() == popups_after(
                    state,
                    before.popups(),
                    NotificationCommand::SetDnd { enabled },
                )
            },
        };
    assert(applied is Ok);
}

/// A store that is opened holds what was recovered, and hands out identifiers above every
/// one in use.
pub proof fn what_an_opened_store_holds(recovered: RecoveredState, i: int)
    requires
        greatest_id(document_views(recovered.active@) + document_views(recovered.archive@))
            < u64::MAX,
    ensures
        ({
            let state = opened_state(recovered);
            &&& state.active == document_views(recovered.active@)
            &&& state.archive == document_views(recovered.archive@)
            &&& state.preferences.dnd == recovered.preferences.dnd
            &&& state.preferences.schema_version == recovered.preferences.schema_version
            &&& state.preferences.next_notification_id
                >= recovered.preferences.next_notification_id
            &&& 0 <= i < state.active.len() ==> state.active[i].id
                < state.preferences.next_notification_id
            &&& 0 <= i < state.archive.len() ==> state.archive[i].id
                < state.preferences.next_notification_id
        }),
{
    let active = document_views(recovered.active@);
    let archive = document_views(recovered.archive@);
    let all = active + archive;
    no_identifier_is_above_the_greatest(all);
    if 0 <= i < active.len() {
        assert(all[i] == active[i]);
    }
    if 0 <= i < archive.len() {
        assert(all[active.len() + i] == archive[i]);
    }
}

/// When a recovered state can be opened.
pub proof fn when_a_state_can_be_opened(
    recovered: RecoveredState,
    verdicts: Seq<Option<String>>,
    capacity: int,
    limit: int,
)
    requires
        open_refusal(recovered, verdicts, capacity, limit) is None,
    ensures
        capacity != 0,
        0 != limit && limit < 67_108_864,
        ids_valid(document_views(recovered.active@) + document_views(recovered.archive@)),
        recovered.active@.len() <= capacity,
        opened_state(recovered).aggregate_size() <= limit,
{
}

/// Identifiers are valid when they are positive, fit the bus and differ.
pub proof fn which_identifiers_are_valid(documents: Seq<NotificationView>, i: int, j: int)
    requires
        ids_valid(documents),
        0 <= i < j < documents.len(),
    ensures
        documents[i].id != documents[j].id,
        0 < documents[i].id <= 4_294_967_295,
        0 < documents[j].id <= 4_294_967_295,
{
}

// ---------------------------------------------------------------------------
// Reading the log back
// ---------------------------------------------------------------------------

/// A record is applied when it is the next; a gap, another version and what was not read
/// are refused.
pub proof fn which_records_are_applied(
    progress: Progress,
    checkpoint: u64,
    record: RecordView,
    capacity: int,
)
    requires
        progress.latest < u64::MAX,
        progress.applied < u64::MAX,
        record.sequence > checkpoint,
    ensures
        record.schema_version != 1 ==> step(progress, checkpoint, Ok(record), capacity) is Err,
        record.schema_version == 1 && record.sequence != progress.latest + 1 ==> step(
            progress,
            checkpoint,
            Ok(record),
            capacity,
        ) is Err,
        record.schema_version == 1 && record.sequence == progress.latest + 1 ==> (step(
            progress,
            checkpoint,
            Ok(record),
            capacity,
        ) is Ok <==> replayed(progress.state, record.operation, capacity) is Ok),
        step(progress, checkpoint, Ok(record), capacity) matches Ok(after) ==> {
            &&& after.latest == progress.latest + 1
            &&& after.applied == progress.applied + 1
            &&& Ok::<StoreView, Refusal>(after.state) == replayed(
                progress.state,
                record.operation,
                capacity,
            )
        },
        step(progress, checkpoint, Err(Seq::empty()), capacity) is Err,
{
}

/// A segment counts with its length, and what is unfinished at its end is kept in mind.
pub proof fn what_a_segment_adds(
    before: LogProgress,
    checkpoint: u64,
    index: int,
    segment: SegmentView,
    capacity: int,
)
    ensures
        segment_step(before, checkpoint, index, segment, capacity) matches Ok(after) ==> {
            &&& after.segment_index == index
            &&& after.segment_bytes == segment.length
            &&& after.log_bytes == before.log_bytes + segment.length
            &&& segment.length <= 4_194_304
            &&& after.log_bytes <= 16_777_216
            &&& segment.valid_length != segment.length ==> after.tail_repair == Some(
                (index, segment.valid_length),
            )
            &&& segment.valid_length == segment.length ==> after.tail_repair
                == before.tail_repair
        },
        segment.length > 4_194_304 ==> segment_step(
            before,
            checkpoint,
            index,
            segment,
            capacity,
        ) is Err,
{
}

/// Recovery takes place from a checkpoint of the known versions, and comes to a state
/// whose identifiers are valid.
pub proof fn what_recovery_comes_to(
    checkpoint: StoreCheckpoint,
    segments: Seq<SegmentView>,
    capacity: int,
)
    ensures
        recovery(checkpoint, segments, capacity) matches Ok(reached) ==> {
            &&& checkpoint.schema_version == 1
            &&& checkpoint.preferences.schema_version == 1
            &&& checkpoint.storage_version == 2
            &&& ids_valid(reached.progress.state.all())
            &&& reached.progress.latest < u64::MAX
        },
        segments.len() == 0 && checkpoint.schema_version == 1
            && checkpoint.preferences.schema_version == 1 && checkpoint.storage_version == 2
            && checkpoint.sequence < u64::MAX && ids_valid(
            document_views(checkpoint.active@) + document_views(checkpoint.archive@),
        ) ==> {
            let end = recovery(checkpoint, segments, capacity);
            &&& end is Ok
            &&& end->Ok_0.progress.latest == checkpoint.sequence
            &&& end->Ok_0.progress.applied == 0
            &&& end->Ok_0.progress.state.active == document_views(checkpoint.active@)
            &&& end->Ok_0.progress.state.archive == document_views(checkpoint.archive@)
            &&& end->Ok_0.progress.state.preferences == checkpoint.preferences
        },
{
}

/// An unfinished write of an older store is accepted when its versions are known and every
/// document of it is accepted.
pub proof fn which_unfinished_writes_are_accepted(
    transaction: Transaction,
    active: Seq<Option<Seq<char>>>,
    archive: Seq<Option<Seq<char>>>,
)
    ensures
        transaction_objection(transaction, active, archive) is None <==> {
            &&& transaction.schema_version == 1
            &&& transaction.preferences.schema_version == 1
            &&& first_refusal(document_views(transaction.active@), active) is None
            &&& first_refusal(document_views(transaction.archive@), archive) is None
        },
{
}

/// The names of the files of an older store and of their backups.
pub proof fn how_older_files_are_named()
    ensures
        legacy_titles(LegacyFile::Active) == ("active.json"@, "legacy-active.json"@),
        legacy_titles(LegacyFile::Archive) == ("archive.json"@, "legacy-archive.json"@),
        legacy_titles(LegacyFile::Preferences) == (
            "preferences.json"@,
            "legacy-preferences.json"@,
        ),
{
}

/// A file that is written stands apart from the one it replaces.
pub proof fn how_unfinished_files_are_named(name: Seq<char>, id: u128)
    ensures
        temporary_title(name, id)[0] == '.',
        temporary_title(name, id).skip(1).take(name.len() as int) == name,
        ends_with(temporary_title(name, id), uuid_hyphenated(id) + ".tmp"@),
        temporary_title(name, id).len() > name.len(),
{
    let title = temporary_title(name, id);
    let tail = uuid_hyphenated(id) + ".tmp"@;
    assert(title.skip(1).take(name.len() as int) =~= name);
    assert(title.skip(title.len() - tail.len()) =~= tail);
}

/// Which names are entries of a directory: not empty, neither the directory itself nor the
/// one above, and without separators.
pub proof fn which_names_are_entries(name: Seq<u8>, i: int)
    requires
        is_component_name(name),
    ensures
        name.len() > 0,
        0 <= i < name.len() ==> name[i] != 0x2f && name[i] != 0,
        name.len() == 1 ==> name[0] != 0x2e,
        name.len() == 2 ==> !(name[0] == 0x2e && name[1] == 0x2e),
{
    if 0 <= i < name.len() {
        assert(name.contains(name[i]));
    }
    if name.len() == 1 && name[0] == 0x2e {
        assert(name =~= seq![0x2eu8]);
    }
    if name.len() == 2 && name[0] == 0x2e && name[1] == 0x2e {
        assert(name =~= seq![0x2eu8, 0x2eu8]);
    }
}

/// A change that was made durable has its effect, and its record is the line that was
/// written, under the next number.
pub proof fn what_a_durable_change_leaves<
    W: FnOnce(&NotificationStore, &LogPlan, &str) -> Result<(), SessionError>,
    K: FnOnce(&NotificationStore, u64) -> Result<(), SessionError>,
>(
    before: NotificationStore,
    operation: OperationView,
    write: W,
    publish: K,
    result: Result<PushResult, SessionError>,
    after: NotificationStore,
)
    requires
        NotificationStore::applied(before, operation, write, publish, result, after),
        result is Ok,
    ensures
        after.state() == effect(before.state(), operation, before.capacity()),
        after.log_state().next_sequence == before.log_state().next_sequence + 1,
        !after.log_state().poisoned,
        !before.log_state().poisoned,
        operation is Push ==> result->Ok_0.id == operation->Push_notification.id
            && result->Ok_0.archived_ids@.len() == operation->archived.len(),
        exists|store: &NotificationStore, plan: &LogPlan, text: &str, written: Result<(), SessionError>|
            {
                &&& #[trigger] call_ensures(write, (store, plan, text), written)
                &&& written is Ok
                &&& text@ == record_line(before.log_state().next_sequence, operation)
                &&& store.state() == before.state()
            },
{
    let line = before.next_line(operation);
    let length = byte_len(line) as int;
    let log = before.log_state();
    assert(log.append_refusal(length) is None);
    let written = choose|written: Result<(), SessionError>| #[trigger]
        wrote(
            write,
            before.state(),
            log.ready_for(length),
            log.plan_for(length),
            line,
            written,
        ) && match written {
            Err(error) => {
                &&& result == Err::<PushResult, SessionError>(error)
                &&& after.state() == before.state()
                &&& after.log_state() == log.ready_for(length)
            },
            Ok(()) => if log.next_sequence == u64::MAX {
                &&& refused(
                    result,
                    (ErrorKind::OutOfMemory, "notification sequence exhausted"@),
                )
                &&& after.state() == before.state()
                &&& after.log_state().poisoned
            } else {
                &&& after.state() == effect(before.state(), operation, before.capacity())
                &&& NotificationStore::settled(
                    operation,
                    log.ready_for(length).after_append(length),
                    publish,
                    result,
                    after,
                )
            },
        };
    assert(written is Ok);
    let (store, plan, text) = choose|store: &NotificationStore, told: &LogPlan, text: &str| #[trigger]
        call_ensures(write, (store, told, text), written) && store.state() == before.state()
            && store.log_state() == log.ready_for(length) && *told == log.plan_for(length)
            && text@ == line;
    assert(call_ensures(write, (store, plan, text), written));
}

/// A program that is gone leaves its notifications without an origin, and no others.
pub proof fn what_a_lost_program_leaves<
    W: FnOnce(&NotificationStore, &LogPlan, &str) -> Result<(), SessionError>,
    K: FnOnce(&NotificationStore, u64) -> Result<(), SessionError>,
>(
    before: FreedesktopNotificationProvider,
    ids: Seq<u64>,
    plan: Result<Option<OperationView>, Refusal>,
    write: W,
    publish: K,
    result: Result<Vec<u64>, SessionError>,
    after: FreedesktopNotificationProvider,
    origin: Seq<char>,
    id: u64,
)
    requires
        FreedesktopNotificationProvider::forgotten(
            before,
            ids,
            plan,
            write,
            publish,
            result,
            after,
        ),
        came_from(before.origins(), origin, ids),
        result is Ok,
        before.origins().contains_key(id),
    ensures
        result->Ok_0@ == ids,
        result->Ok_0@.contains(id) <==> before.origins()[id] == origin,
        after.origins().contains_key(id) <==> before.origins()[id] != origin,
        after.popups() == before.popups(),
{
}

/// The popups and origins that are left without some notifications.
pub proof fn what_is_left_without_some(map: Map<u64, Option<u64>>, ids: Seq<u64>, id: u64)
    ensures
        without_ids(map, ids).contains_key(id) <==> map.contains_key(id) && !ids.contains(id),
        without_ids(map, ids).contains_key(id) ==> without_ids(map, ids)[id] == map[id],
{
}

/// Identifiers are listed once each, in ascending order.
pub proof fn how_identifiers_are_sorted(sorted: Seq<u64>, ids: Seq<u64>, i: int, j: int, x: u64)
    requires
        sorted_set_of(sorted, ids),
    ensures
        0 <= i < j < sorted.len() ==> sorted[i] < sorted[j],
        sorted.contains(x) <==> ids.contains(x),
{
}

/// Nothing is planned for nothing; what is planned expires just what is listed.
pub proof fn what_an_expiry_plans(
    state: StoreView,
    ids: Seq<u64>,
    capacity: int,
    limit: int,
    plan: Result<Option<OperationView>, Refusal>,
    x: u64,
)
    requires
        expiry_by(state, ids, capacity, limit, plan),
        plan is Ok,
    ensures
        ids.len() == 0 <==> plan->Ok_0 is None,
        plan->Ok_0 matches Some(operation) ==> operation is ExpireActions && (
        operation->ids.contains(x) <==> ids.contains(x)),
        ids.contains(x) ==> has_id(state.active, x) || has_id(state.archive, x),
{
    if ids.len() > 0 {
        let sorted = choose|sorted: Seq<u64>| #[trigger]
            sorted_set_of(sorted, ids) && plan == match expire_outcome(
                state,
                sorted,
                capacity,
                limit,
            ) {
                Ok(operation) => Ok(Some(operation)),
                Err(refusal) => Err(refusal),
            };
        if ids.contains(x) {
            assert(sorted.contains(x));
            let k = choose|k: int| 0 <= k < sorted.len() && sorted[k] == x;
            assert(state.knows(sorted[k]));
        }
    }
}

/// The notifications with actions are those that have one which can be invoked.
pub proof fn which_notifications_have_actions(state: StoreView, ids: Seq<u64>, i: int, k: int)
    requires
        have_actions(state, ids),
        0 <= i < state.all().len(),
        0 <= k < state.all()[i].actions.len(),
        state.all()[i].actions[k].state == NotificationActionState::Available,
    ensures
        ids.contains(state.all()[i].id),
{
    assert(state.all()[i].has_available_action());
}

/// A store that was opened is what was recovered.
pub proof fn what_was_opened(
    store: Result<NotificationStore, SessionError>,
    recovered: RecoveredState,
    verdicts: Seq<Option<String>>,
    capacity: int,
    limit: int,
)
    requires
        NotificationStore::opened(store, recovered, verdicts, capacity, limit),
        store is Ok,
    ensures
        store->Ok_0.state().active == document_views(recovered.active@),
        store->Ok_0.state().archive == document_views(recovered.archive@),
        store->Ok_0.state().preferences.dnd == recovered.preferences.dnd,
        store->Ok_0.capacity() == capacity,
        store->Ok_0.limit() == limit,
        store->Ok_0.log_state().next_sequence == recovered.next_sequence,
        store->Ok_0.log_state().segment_index == recovered.segment_index,
        store->Ok_0.log_state().segment_bytes == recovered.segment_bytes,
        store->Ok_0.log_state().log_bytes_since_checkpoint == recovered.log_bytes,
        store->Ok_0.log_state().operations_since_checkpoint == recovered.operations,
        store->Ok_0.log_state().tail_repair == recovered.tail_repair,
        !store->Ok_0.log_state().poisoned,
        store->Ok_0.log_state().initialized <==> recovered.next_sequence > 1
            || recovered.checkpoint_present,
{
}

/// What recovery reached is what is opened.
pub proof fn what_was_recovered(recovered: RecoveredState, reached: LogProgress)
    requires
        recovered_as(recovered, reached),
    ensures
        document_views(recovered.active@) == reached.progress.state.active,
        document_views(recovered.archive@) == reached.progress.state.archive,
        recovered.preferences == reached.progress.state.preferences,
        recovered.next_sequence == reached.progress.latest + 1,
        recovered.operations == reached.progress.applied,
        recovered.log_bytes == reached.log_bytes,
        recovered.segment_index == reached.segment_index,
        recovered.segment_bytes == reached.segment_bytes,
        recovered.checkpoint_present,
        recovered.tail_repair is Some <==> reached.tail_repair is Some,
{
}

/// The groups of an answer are those of the store, with the identifiers of their
/// notifications.
pub proof fn how_groups_are_answered(
    groups: Seq<Group>,
    of: Seq<NotificationGroup>,
    i: int,
    k: int,
)
    requires
        groups_match(groups, of),
        0 <= i < of.len(),
    ensures
        groups.len() == of.len(),
        groups[i].application_id@ == of[i].application_id@,
        groups[i].notification_ids@.len() == of[i].notifications@.len(),
        0 <= k < of[i].notifications@.len() ==> groups[i].notification_ids@[k]
            == of[i].notifications@[k].id,
{
    assert(groups[i].application_id@ == of[i].application_id@);
}

/// Every notification is in the group of its application; the groups stand in ascending
/// order and none is empty.
pub proof fn how_notifications_are_grouped(
    groups: Seq<NotificationGroup>,
    documents: Seq<NotificationView>,
    i: int,
    k: int,
)
    requires
        grouped_by_application(groups, documents),
        0 <= i < groups.len(),
    ensures
        groups[i].notifications@.len() > 0,
        0 <= k < groups[i].notifications@.len() ==> groups[i].notifications@[k]@.application_id
            == groups[i].application_id@,
        i + 1 < groups.len() ==> lex_less(
            groups[i].application_id@,
            groups[i + 1].application_id@,
        ),
{
    let app = groups[i].application_id@;
    assert(groups[i].notifications@.len() > 0);
    if 0 <= k < groups[i].notifications@.len() {
        a_group_is_what_its_application_sent(documents, app);
        let sent = of_application(documents, app);
        let chosen = |document: NotificationView| document.application_id == app;
        documents.lemma_filter_pred(chosen, k);
        assert(borrowed_views(groups[i].notifications@)[k] == groups[i].notifications@[k]@);
    }
}

/// A request is accepted under the known version, with an identifier that can be read.
pub proof fn which_requests_are_accepted(version: u32, request_id: Seq<char>)
    ensures
        request_envelope_valid(version, request_id) <==> version == 1 && uuid_value(request_id)
            is Some,
{
}

/// How segments are named.
pub proof fn how_segments_are_named(index: nat)
    ensures
        segment_file(0) == "segment-v2.ndjson"@,
        index > 0 ==> segment_file(index) == "segment-v2-"@ + decimal(index) + ".ndjson"@,
{
}

/// No more segments are read than there can be records.
pub proof fn how_many_segments_are_read(segments: Seq<SegmentView>)
    ensures
        segments.len() <= 1_001 ==> readable(segments) == segments,
        segments.len() > 1_001 ==> readable(segments) == segments.take(1_001),
{
    if segments.len() == 1_001 {
        assert(segments.take(1_001) =~= segments);
    }
}

/// What recovery begins with: the checkpoint, and nothing of the log.
pub proof fn what_recovery_begins_with(checkpoint: StoreCheckpoint)
    ensures
        recovery_start(checkpoint).progress.latest == checkpoint.sequence,
        recovery_start(checkpoint).progress.applied == 0,
        recovery_start(checkpoint).segment_index == 0,
        recovery_start(checkpoint).segment_bytes == 0,
        recovery_start(checkpoint).log_bytes == 0,
        recovery_start(checkpoint).tail_repair is None,
{
}

/// One document with a valid identifier is enough for a valid list.
pub proof fn which_single_identifiers_are_valid(document: NotificationView)
    ensures
        ids_valid(seq![document]) <==> 0 < document.id <= 4_294_967_295,
        ids_valid(Seq::empty()),
{
    if ids_valid(seq![document]) {
        assert(seq![document][0].id == document.id);
    }
}

/// Such a state can be opened.
pub proof fn what_can_be_opened(
    recovered: RecoveredState,
    verdicts: Seq<Option<String>>,
    capacity: int,
    limit: int,
)
    requires
        capacity > 0,
        0 < limit < 67_108_864,
        ids_valid(document_views(recovered.active@) + document_views(recovered.archive@)),
        first_refusal(
            document_views(recovered.active@) + document_views(recovered.archive@),
            verdict_views(verdicts),
        ) is None,
        recovered.active@.len() <= capacity,
        opened_state(recovered).aggregate_size() <= limit,
    ensures
        open_refusal(recovered, verdicts, capacity, limit) is None,
{
}

/// The notifications that are listed have an action which can be invoked.
pub proof fn what_is_listed_has_an_action(state: StoreView, ids: Seq<u64>, x: u64)
    requires
        have_actions(state, ids),
        ids.contains(x),
    ensures
        exists|i: int, k: int|
            #![trigger state.all()[i].actions[k]]
            0 <= i < state.all().len() && state.all()[i].id == x && 0 <= k
                < state.all()[i].actions.len() && state.all()[i].actions[k].state
                == NotificationActionState::Available,
{
    let i = choose|i: int|
        0 <= i < state.all().len() && #[trigger] state.all()[i].id == x
            && state.all()[i].has_available_action();
    let document = state.all()[i];
    let k = choose|k: int|
        0 <= k < document.actions.len() && #[trigger] document.actions[k].state
            == NotificationActionState::Available;
    assert(state.all()[i].actions[k].state == NotificationActionState::Available);
}

/// The notifications of a program are listed in ascending order.
pub proof fn how_the_notifications_of_a_program_are_listed(
    origins: Map<u64, Seq<char>>,
    origin: Seq<char>,
    ids: Seq<u64>,
    i: int,
    j: int,
)
    requires
        came_from(origins, origin, ids),
        0 <= i < j < ids.len(),
    ensures
        ids[i] < ids[j],
        origins.contains_key(ids[i]) && origins[ids[i]] == origin,
{
    assert(ids.contains(ids[i]));
}

/// A service that started holds the store that was left.
pub proof fn what_a_started_service_holds<
    W: FnOnce(&NotificationStore, &LogPlan, &str) -> Result<(), SessionError>,
    K: FnOnce(&NotificationStore, u64) -> Result<(), SessionError>,
>(
    store: NotificationStore,
    operation: OperationView,
    write: W,
    publish: K,
    provider: Result<FreedesktopNotificationProvider, SessionError>,
)
    requires
        started(store, operation, write, publish, provider),
        provider is Ok,
    ensures
        provider->Ok_0.store.state() == effect(store.state(), operation, store.capacity()),
        provider->Ok_0.store.capacity() == store.capacity(),
        provider->Ok_0.store.limit() == store.limit(),
{
    let (applied, after) = choose|
        applied: Result<PushResult, SessionError>,
        after: NotificationStore,
    | #[trigger]
        NotificationStore::applied(store, operation, write, publish, applied, after)
            && match applied {
            Err(error) => provider == Err::<FreedesktopNotificationProvider, SessionError>(error),
            Ok(_) => provider is Ok && provider->Ok_0.store == after,
        };
    what_a_durable_change_leaves(store, operation, write, publish, applied, after);
}

/// The stages of an append are told in this order, each once: what is told as written is
/// written by then, and what is told as brought to the disk is there.
pub proof fn in_which_order_stages_are_told(segment: usize)
    ensures
        append_steps(segment).len() == 13,
        append_steps(segment)[1] == FileStep::Observe(NotificationCommitStage::AppendWritten),
        append_steps(segment)[2] == FileStep::Observe(NotificationCommitStage::JournalCommitted),
        append_steps(segment)[3] == FileStep::Observe(NotificationCommitStage::ActiveCommitted),
        append_steps(segment)[5] == FileStep::Observe(NotificationCommitStage::AppendFileSynced),
        append_steps(segment)[6] == FileStep::Observe(NotificationCommitStage::ArchiveCommitted),
        append_steps(segment)[7] == FileStep::Observe(
            NotificationCommitStage::PreferencesCommitted,
        ),
        append_steps(segment)[9] == FileStep::Observe(
            NotificationCommitStage::AppendDirectorySynced,
        ),
        append_steps(segment)[10] == FileStep::Observe(NotificationCommitStage::JournalRemoved),
        append_steps(segment)[11] == FileStep::Observe(NotificationCommitStage::DirectorySynced),
        append_steps(segment)[0] == FileStep::Append(segment),
        first_stages().len() == 6,
        first_stages()[0] == NotificationCommitStage::JournalCommitted,
        first_stages()[1] == NotificationCommitStage::ActiveCommitted,
        first_stages()[2] == NotificationCommitStage::ArchiveCommitted,
        first_stages()[3] == NotificationCommitStage::PreferencesCommitted,
        first_stages()[4] == NotificationCommitStage::JournalRemoved,
        first_stages()[5] == NotificationCommitStage::DirectorySynced,
        segment_stages().len() == 7,
        segment_stages()[0] == NotificationCommitStage::LegacyMigration,
        segment_stages()[1] == NotificationCommitStage::CheckpointPublished,
        segment_stages()[2] == NotificationCommitStage::SegmentRotated,
        segment_stages()[3] == NotificationCommitStage::AppendWritten,
        segment_stages()[4] == NotificationCommitStage::AppendFileSynced,
        segment_stages()[5] == NotificationCommitStage::AppendDirectorySynced,
        segment_stages()[6] == NotificationCommitStage::RecordAppended,
{
}

} // verus!

//! The notification store, its log and the interfaces that reach it.

use std::cell::RefCell;

use sleepy_session::desktop::adapters::notification_state;
use sleepy_session::desktop::domain::DesktopDomainValue;
use sleepy_session::error::{ErrorKind, SessionError};
use sleepy_session::notifications::dbus_server::{
    bus_method, notify_request, origin_vanished, reply_text, wire_id, BusMethod, NotifyCall,
};
use sleepy_session::notifications::document::{
    document_bytes, document_text, documents_text, preferences_text, NotificationAction,
    NotificationActionState, NotificationDocument, NotificationUrgency, Preferences,
};
use sleepy_session::notifications::files::{
    append_operation_steps, check_file_size, check_state_path, component_name,
    fresh_temporary_name, legacy_names, read_documents, read_preferences, reconcile,
    steps_of_checkpoint, temporary_name, validate_directory, validate_private_file, FileStep,
    LegacyFile, NotificationCommitStage, OpenFile, Transaction,
};
use sleepy_session::notifications::journal::{
    record_text, scan_segment, segment_name, LogPlan, LogState, SEGMENT_LIMIT_BYTES,
};
use sleepy_session::notifications::provider::{
    event_of_command, events_of_notify, FreedesktopNotificationProvider, NotificationChange,
    NotificationCommand, NotifyRequest, ServiceEvent,
};
use sleepy_session::notifications::replay::{
    read_v2_state, require_durable_version, SegmentContents, SegmentRecord, StoreCheckpoint,
};
use sleepy_session::notifications::socket::{
    authorize_peer, respond, route, snapshot, validate_request, Data, Operation, Request,
    SocketAction,
};
use sleepy_session::notifications::store::{
    sorted_ids, validate_document, validate_limits, validate_unique_ids, NotificationStore,
    PendingChange, RecoveredState, StoreOperation, MAX_DURABLE_FILE_BYTES,
};

fn document(id: u64) -> NotificationDocument {
    NotificationDocument {
        schema_version: 1,
        id,
        application_id: "app".into(),
        summary: "Summary".into(),
        body: "line\nbreak \"quoted\"".into(),
        urgency: NotificationUrgency::Normal,
        created_at: "2024-01-01T00:00:00Z".into(),
        timeout_ms: Some(5_000),
        read: false,
        archived: false,
        actions: vec![NotificationAction {
            id: "open".into(),
            label: "Open".into(),
            state: NotificationActionState::Available,
        }],
    }
}

fn fresh() -> RecoveredState {
    RecoveredState {
        active: vec![],
        archive: vec![],
        preferences: Preferences { schema_version: 1, dnd: false, next_notification_id: 1 },
        next_sequence: 1,
        operations: 0,
        segment_bytes: 0,
        log_bytes: 0,
        segment_index: 0,
        tail_repair: None,
        checkpoint_present: false,
    }
}

fn store(capacity: usize) -> NotificationStore {
    NotificationStore::open(fresh(), &[], capacity).ok().unwrap()
}

/// Makes a change, and tells where and as what its record was written.
fn carry_out(store: &mut NotificationStore, change: PendingChange) -> (LogPlan, String, Vec<u64>) {
    let mut record = None;
    let result = store.apply(
        change,
        |_: &NotificationStore, plan: &LogPlan, line: &str| {
            record = Some((*plan, line.to_string()));
            Ok(())
        },
        no_checkpoint,
    );
    let (plan, line) = record.unwrap();
    (plan, line, result.unwrap().archived_ids)
}

/// A disk that takes every record.
fn disk(_: &NotificationStore, _: &LogPlan, _: &str) -> Result<(), SessionError> {
    Ok(())
}

/// A disk that nothing may be written to.
fn untouched(_: &NotificationStore, _: &LogPlan, _: &str) -> Result<(), SessionError> {
    panic!("nothing is written")
}

/// A disk that takes no record.
fn broken(_: &NotificationStore, _: &LogPlan, _: &str) -> Result<(), SessionError> {
    Err(SessionError::new(ErrorKind::Other, "disk"))
}

fn no_checkpoint(_: &NotificationStore, _: u64) -> Result<(), SessionError> {
    panic!("no checkpoint is due")
}

#[test]
fn a_pushed_notification_is_active_and_durable_as_one_line() {
    let mut store = store(4);
    let change = store.push(&document(0), None).ok().unwrap();
    let (plan, text, _) = carry_out(&mut store, change);
    assert!(plan.import_legacy);
    assert_eq!(plan.segment, 0);
    assert!(text.ends_with('\n'));
    assert_eq!(text.matches('\n').count(), 1);
    assert!(text.starts_with("{\"schemaVersion\":1,\"sequence\":1,\"operation\":{\"type\":\"push\""));
    assert_eq!(store.active().len(), 1);
    assert_eq!(store.active()[0].id, 1);
    assert_eq!(store.unread_count(), 1);
    assert_eq!(store.preferences().next_notification_id, 2);
}

#[test]
fn texts_are_escaped_as_json_strings() {
    let body: String = "q\" b\\ \u{8}\t\n\u{c}\r \u{0}\u{1f} /\u{7f}\u{e9}\u{1f600}".into();
    let text = document_text(&NotificationDocument { body, ..document(1) });
    assert!(text.contains(
        "\"body\":\"q\\\" b\\\\ \\b\\t\\n\\f\\r \\u0000\\u001f /\u{7f}\u{e9}\u{1f600}\""
    ));
}

#[test]
fn the_oldest_notification_makes_room() {
    let mut store = store(2);
    for _ in 0..2 {
        let change = store.push(&document(0), None).ok().unwrap();
        carry_out(&mut store, change);
    }
    let change = store.push(&document(0), None).ok().unwrap();
    let (_, _, archived) = carry_out(&mut store, change);
    assert_eq!(archived.len(), 1);
    assert_eq!(store.active().len(), 2);
    assert_eq!(store.archive().len(), 1);
    assert!(store.archive()[0].archived);
}

#[test]
fn notifications_are_read_dismissed_and_purged() {
    let mut store = store(4);
    let change = store.push(&document(0), None).ok().unwrap();
    carry_out(&mut store, change);
    let change = store.mark_read(1).ok().unwrap();
    carry_out(&mut store, change);
    assert_eq!(store.unread_count(), 0);
    let change = store.expire_all_actions().ok().unwrap().unwrap();
    carry_out(&mut store, change);
    assert!(store.ids_with_actions().is_empty());
    assert!(store.expire_all_actions().ok().unwrap().is_none());
    let change = store.dismiss(1).ok().unwrap();
    carry_out(&mut store, change);
    assert!(store.active().is_empty());
    assert_eq!(store.archive().len(), 1);
    let change = store.purge_archive();
    carry_out(&mut store, change);
    assert!(store.archive().is_empty());
    assert_eq!(store.dismiss(9).err().unwrap().kind, ErrorKind::NotFound);
    assert_eq!(store.mark_read(9).err().unwrap().kind, ErrorKind::NotFound);
    let change = store.set_dnd(true).ok().unwrap();
    carry_out(&mut store, change);
    assert!(store.dnd());
    let mut critical = document(1);
    assert!(!store.popup_allowed(&critical));
    critical.urgency = NotificationUrgency::Critical;
    assert!(store.popup_allowed(&critical));
}

#[test]
fn documents_that_do_not_fit_are_refused() {
    let mut large = document(1);
    large.body = "x".repeat(64 * 1024);
    let error = validate_document(&large, &None).unwrap_err();
    assert_eq!(error.message, "notification exceeds the 64 KiB input limit");
    let odd = validate_document(&document(1), &Some("odd".into())).unwrap_err();
    assert_eq!((odd.kind, odd.message.as_str()), (ErrorKind::InvalidData, "odd"));
    assert!(store(4).push(&large, None).is_err());
    assert!(validate_unique_ids(&[document(1)], &[document(2)]).is_ok());
    assert!(validate_unique_ids(&[document(1)], &[document(1)]).is_err());
    assert!(validate_unique_ids(&[document(0)], &[]).is_err());
    assert!(validate_limits(0, 10).is_err());
    assert!(validate_limits(1, MAX_DURABLE_FILE_BYTES).is_err());
    assert!(validate_limits(1, 10).is_ok());
    assert_eq!(sorted_ids(&[3, 1, 2, 1]), [1, 2, 3]);
}

#[test]
fn the_active_notifications_are_grouped_by_application() {
    let mut store = store(4);
    for application in ["a", "b", "a"] {
        let mut next = document(0);
        next.application_id = application.into();
        let change = store.push(&next, None).ok().unwrap();
        carry_out(&mut store, change);
    }
    let groups = store.grouped_active();
    assert_eq!(groups.len(), 2);
    let sizes: Vec<(String, usize)> = groups
        .iter()
        .map(|group| (group.application_id.clone(), group.notifications.len()))
        .collect();
    assert!(sizes.contains(&("a".to_string(), 2)));
    assert!(sizes.contains(&("b".to_string(), 1)));
}

#[test]
fn durable_text_is_that_of_the_json_writer() {
    let text = document_text(&document(7));
    let value: serde_json::Value = serde_json::from_str(&text).unwrap();
    assert_eq!(value["id"], 7);
    assert_eq!(value["body"], "line\nbreak \"quoted\"");
    assert_eq!(value["timeoutMs"], 5_000);
    assert_eq!(value["actions"][0]["state"], "available");
    assert_eq!(document_bytes(&document(7)), text.len());
    assert_eq!(documents_text(&[document(1), document(2)]).matches("\"id\":").count(), 4);
    assert_eq!(
        preferences_text(&Preferences { schema_version: 1, dnd: true, next_notification_id: 9 }),
        "{\"schemaVersion\":1,\"dnd\":true,\"nextNotificationId\":9}"
    );
    assert_eq!(
        record_text(5, &StoreOperation::ExpireActions { ids: vec![1, 2] }),
        "{\"schemaVersion\":1,\"sequence\":5,\"operation\":{\"type\":\"expireActions\",\"data\":{\"ids\":[1,2]}}}\n"
    );
    assert_eq!(
        record_text(6, &StoreOperation::PurgeArchive),
        "{\"schemaVersion\":1,\"sequence\":6,\"operation\":{\"type\":\"purgeArchive\"}}\n"
    );
}

#[test]
fn segments_are_scanned_up_to_their_last_line() {
    let scan = scan_segment(b"one\ntwo\n\nthr");
    assert_eq!(scan.valid_length, 9);
    assert_eq!(scan.lines, [b"one".to_vec(), b"two".to_vec()]);
    assert_eq!(segment_name(0), "segment-v2.ndjson");
    assert_eq!(segment_name(12), "segment-v2-12.ndjson");
}

fn log() -> LogState {
    LogState {
        initialized: true,
        next_sequence: 5,
        operations_since_checkpoint: 0,
        segment_bytes: 0,
        log_bytes_since_checkpoint: 0,
        segment_index: 0,
        tail_repair: None,
        poisoned: false,
    }
}

#[test]
fn the_log_rotates_and_folds() {
    let mut state = log();
    let plan = state.plan_append(10).unwrap();
    assert!(!plan.rotated && plan.checkpoint.is_none() && !plan.import_legacy);
    assert!(state.poisoned);
    assert_eq!(
        state.plan_append(10).unwrap_err().message,
        "notification store requires restart after an ambiguous durable write"
    );
    let append = state.appended(10, Ok(())).unwrap();
    state.finish(append, Ok(())).unwrap();
    assert_eq!((state.segment_bytes, state.next_sequence, state.poisoned), (10, 6, false));

    let mut full = LogState { segment_bytes: SEGMENT_LIMIT_BYTES, ..log() };
    let plan = full.plan_append(1).unwrap();
    assert!(plan.rotated);
    assert_eq!(plan.segment, 1);
    let mut long = LogState { log_bytes_since_checkpoint: 16 * 1024 * 1024, segment_index: 3, ..log() };
    let plan = long.plan_append(1).unwrap();
    assert_eq!(plan.checkpoint, Some(4));
    assert_eq!((plan.discarded_through, plan.segment), (3, 0));
    assert_eq!(
        log().plan_append(SEGMENT_LIMIT_BYTES + 1).unwrap_err().kind,
        ErrorKind::InvalidInput
    );
    let mut torn = LogState { segment_bytes: 30, log_bytes_since_checkpoint: 30, tail_repair: Some((0, 20)), ..log() };
    let plan = torn.plan_append(5).unwrap();
    assert_eq!(plan.truncate, Some((0, 20)));
    assert_eq!((torn.segment_bytes, torn.log_bytes_since_checkpoint), (20, 20));
    let mut due = LogState { operations_since_checkpoint: 999, ..log() };
    due.plan_append(1).unwrap();
    let append = due.appended(1, Ok(())).unwrap();
    assert_eq!(due.checkpoint_due(), Some(5));
    due.finish(append, Ok(())).unwrap();
    assert_eq!(due.operations_since_checkpoint, 0);
    let mut end = LogState { next_sequence: u64::MAX, ..log() };
    end.plan_append(1).unwrap();
    assert_eq!(end.appended(1, Ok(())).unwrap_err().message, "notification sequence exhausted");
}

#[test]
fn a_write_that_failed_blocks_every_other() {
    let failed = || Err(SessionError::new(ErrorKind::Other, "disk"));
    let restart = "notification store requires restart after an ambiguous durable write";
    let mut provider = provider();
    let id = notify(&mut provider, ":1.5", 100);
    let request = || NotifyRequest { origin: ":1.5".into(), notification: document(0) };
    let refused = provider.notify(request(), None, 100, broken, no_checkpoint);
    assert_eq!(refused.unwrap_err().message, "disk");
    assert_eq!(provider.store().active().len(), 1);
    for command in [
        NotificationCommand::MarkRead { id },
        NotificationCommand::Dismiss { id },
        NotificationCommand::Archive { id },
        NotificationCommand::SetDnd { enabled: true },
        NotificationCommand::PurgeArchive,
    ] {
        let refused = provider.execute(command, untouched, no_checkpoint);
        assert_eq!(refused.unwrap_err().message, restart);
    }
    let refused = provider.notify(request(), None, 100, untouched, no_checkpoint);
    assert_eq!(refused.unwrap_err().message, restart);
    let refused = provider.origin_lost(":1.5", untouched, no_checkpoint);
    assert_eq!(refused.unwrap_err().message, restart);
    let store = provider.store();
    assert_eq!((store.active().len(), store.archive().len(), store.dnd()), (1, 0, false));
    assert!(!store.active()[0].read && provider.popup_visible(id));
    assert_eq!(provider.ids_for_origin(":1.5"), [id]);

    let mut due = LogState { operations_since_checkpoint: 999, ..log() };
    due.plan_append(1).unwrap();
    let append = due.appended(1, Ok(())).unwrap();
    assert_eq!(append.sequence(), 5);
    assert_eq!(due.finish(append, failed()).unwrap_err().message, "disk");
    assert!(due.poisoned && due.plan_append(1).is_err());
}

#[test]
fn a_record_is_synced_before_it_is_acknowledged() {
    let plan = LogPlan {
        import_legacy: true,
        truncate: Some((0, 7)),
        checkpoint: None,
        discarded_through: 2,
        rotated: true,
        segment: 3,
    };
    let steps = append_operation_steps(&plan);
    let place = |step| steps.iter().position(|other| *other == step).unwrap();
    let append = place(FileStep::Append(3));
    assert_eq!(steps[0], FileStep::Backup(LegacyFile::Active));
    assert!(place(FileStep::Truncate(0, 7)) < append);
    assert!(place(FileStep::RemoveSegment(2)) < append);
    let synced = append
        + steps[append..].iter().position(|step| *step == FileStep::SyncFile).unwrap();
    let directory = synced
        + steps[synced..].iter().position(|step| *step == FileStep::SyncDirectory).unwrap();
    let acknowledged = place(FileStep::Observe(NotificationCommitStage::RecordAppended));
    assert!(append < synced && synced < directory && directory < acknowledged);
    assert_eq!(acknowledged, steps.len() - 1);
    assert_eq!(
        steps_of_checkpoint(4, 1),
        [
            FileStep::Checkpoint(4),
            FileStep::Observe(NotificationCommitStage::CheckpointPublished),
            FileStep::EmptyFirstSegment,
            FileStep::RemoveSegment(1),
            FileStep::SyncDirectory,
            FileStep::Observe(NotificationCommitStage::SegmentRotated),
        ]
    );
    assert_eq!(NotificationCommitStage::all().len(), 6);
    assert_eq!(NotificationCommitStage::v2_all().len(), 7);
    assert_eq!(legacy_names(LegacyFile::Archive), ("archive.json", "legacy-archive.json"));
}

#[test]
fn only_private_files_of_the_user_are_trusted() {
    for name in [&b"active.json"[..], &b".active.json.tmp"[..], &b"..."[..]] {
        assert!(component_name(name).is_ok());
    }
    for name in [&b""[..], &b"."[..], &b".."[..], &b"a/b"[..], &b"a\0"[..]] {
        let error = component_name(name).unwrap_err();
        assert_eq!(error.kind, ErrorKind::PermissionDenied);
        assert_eq!(error.message, "unsafe notification state path");
    }
    let file = |directory, mode, uid| OpenFile { directory, regular: !directory, mode, uid };
    assert!(validate_directory(file(true, 0o755, 1), 1).is_ok());
    assert!(validate_directory(file(true, 0o775, 1), 1).is_err());
    assert!(validate_directory(file(true, 0o755, 2), 1).is_err());
    assert!(validate_directory(file(false, 0o755, 1), 1).is_err());
    assert!(validate_private_file(file(false, 0o600, 1), 1).is_ok());
    assert!(validate_private_file(file(false, 0o644, 1), 1).is_err());
    assert!(validate_private_file(file(true, 0o600, 1), 1).is_err());
    assert!(check_state_path(b"/x").is_ok());
    assert_eq!(check_state_path(b"x").unwrap_err().kind, ErrorKind::InvalidInput);
    assert!(check_file_size(MAX_DURABLE_FILE_BYTES).is_ok());
    assert_eq!(
        check_file_size(MAX_DURABLE_FILE_BYTES + 1).unwrap_err().message,
        "notification state exceeds 64 MiB"
    );
    assert_eq!(
        temporary_name("a.json", 1),
        ".a.json.00000000-0000-0000-0000-000000000001.tmp"
    );
    assert_ne!(fresh_temporary_name("a"), fresh_temporary_name("a"));
}

#[test]
fn what_an_older_store_left_is_checked() {
    let preferences = Preferences { schema_version: 1, dnd: true, next_notification_id: 4 };
    let transaction = |version, preferences| Transaction {
        schema_version: version,
        active: vec![document(1)],
        archive: vec![],
        preferences,
    };
    assert!(reconcile(&transaction(1, preferences), &[None], &[]).is_ok());
    assert_eq!(
        reconcile(&transaction(2, preferences), &[None], &[]).unwrap_err().message,
        "unsupported notification durable schema version 2"
    );
    assert_eq!(
        reconcile(&transaction(1, preferences), &[Some("bad".into())], &[])
            .unwrap_err()
            .message,
        "bad"
    );
    assert!(read_documents(1, &[document(1)], &[None]).is_ok());
    assert!(read_documents(3, &[], &[]).is_err());
    assert_eq!(read_preferences(Some(preferences)).unwrap(), preferences);
    assert_eq!(read_preferences(None).unwrap().next_notification_id, 1);
    assert!(read_preferences(Some(Preferences { schema_version: 9, ..preferences })).is_err());
    assert!(require_durable_version(1).is_ok());
}

#[test]
fn recovery_replays_the_log_after_the_checkpoint() {
    let checkpoint = || StoreCheckpoint {
        schema_version: 1,
        storage_version: 2,
        sequence: 3,
        active: vec![document(1)],
        archive: vec![],
        preferences: Preferences { schema_version: 1, dnd: false, next_notification_id: 2 },
    };
    let record = |sequence, operation| {
        Ok(SegmentRecord { schema_version: 1, sequence, operation })
    };
    let segment = |records| SegmentContents { length: 100, valid_length: 100, records };
    let recovered = read_v2_state(
        checkpoint(),
        vec![segment(vec![
            record(3, StoreOperation::PurgeArchive),
            record(4, StoreOperation::MarkRead { id: 1 }),
            record(5, StoreOperation::SetDnd { enabled: true }),
        ])],
        4,
    )
    .ok()
    .unwrap();
    assert!(recovered.active[0].read);
    assert!(recovered.preferences.dnd);
    assert_eq!(recovered.next_sequence, 6);
    assert_eq!(recovered.operations, 2);
    let gap = read_v2_state(
        checkpoint(),
        vec![segment(vec![record(5, StoreOperation::PurgeArchive)])],
        4,
    );
    assert_eq!(gap.err().unwrap().kind, ErrorKind::InvalidData);
    let odd = read_v2_state(
        StoreCheckpoint { storage_version: 3, ..checkpoint() },
        vec![],
        4,
    );
    assert_eq!(odd.err().unwrap().message, "unsupported notification storage version");
    let malformed = read_v2_state(checkpoint(), vec![segment(vec![Err("x".into())])], 4);
    assert_eq!(malformed.err().unwrap().kind, ErrorKind::InvalidData);
}

fn provider() -> FreedesktopNotificationProvider {
    FreedesktopNotificationProvider::new(store(4), untouched, no_checkpoint).ok().unwrap()
}

fn notify(provider: &mut FreedesktopNotificationProvider, origin: &str, now: u64) -> u64 {
    let request = NotifyRequest { origin: origin.into(), notification: document(0) };
    provider.notify(request, None, now, disk, no_checkpoint).unwrap().0.id
}

#[test]
fn a_service_starts_without_actions_that_nobody_waits_for() {
    let mut left = store(4);
    let change = left.push(&document(0), None).ok().unwrap();
    carry_out(&mut left, change);
    let started = FreedesktopNotificationProvider::new(left, disk, no_checkpoint).ok().unwrap();
    let shown = &started.store().active()[0];
    assert!(matches!(shown.actions[0].state, NotificationActionState::Expired));
    let mut left = store(4);
    let change = left.push(&document(0), None).ok().unwrap();
    carry_out(&mut left, change);
    let refused = FreedesktopNotificationProvider::new(left, broken, no_checkpoint);
    assert_eq!(refused.err().unwrap().message, "disk");
}

#[test]
fn a_checkpoint_that_fails_leaves_the_change_in_memory_and_blocks_the_next() {
    let recovered = RecoveredState { operations: 999, next_sequence: 1000, ..fresh() };
    let mut store = NotificationStore::open(recovered, &[], 4).ok().unwrap();
    let change = store.push(&document(0), None).ok().unwrap();
    let steps = RefCell::new(Vec::new());
    let failed = store.apply(
        change,
        |store: &NotificationStore, _: &LogPlan, _: &str| {
            steps.borrow_mut().push(("record", store.active().len()));
            Ok(())
        },
        |store: &NotificationStore, sequence: u64| {
            assert_eq!(sequence, 1000);
            steps.borrow_mut().push(("checkpoint", store.active().len()));
            Err(SessionError::new(ErrorKind::Other, "disk"))
        },
    );
    assert_eq!(failed.unwrap_err().message, "disk");
    assert_eq!(steps.into_inner(), [("record", 0), ("checkpoint", 1)]);
    assert_eq!(store.active().len(), 1);
    let change = store.mark_read(1).ok().unwrap();
    assert!(store.apply(change, untouched, no_checkpoint).is_err());
}

#[test]
fn popups_expire_and_actions_belong_to_their_origin() {
    let mut provider = provider();
    let id = notify(&mut provider, ":1.5", 100);
    assert!(provider.popup_visible(id));
    assert_eq!(provider.ids_for_origin(":1.5"), [id]);
    let invocation = provider.invoke_action(id, "open").ok().unwrap();
    assert_eq!(invocation.origin, ":1.5");
    assert!(provider.invoke_action(id, "other").is_err());
    assert!(provider.advance_popup_time(5_099).is_empty());
    assert_eq!(provider.advance_popup_time(5_100), [id]);
    assert!(!provider.popup_visible(id));
    let shown = snapshot(&provider);
    assert_eq!(shown.active.len(), 1);
    assert_eq!(shown.unread_count, 1);
    assert!(shown.popup_ids.is_empty());
    assert_eq!(provider.origin_lost(":1.5", disk, no_checkpoint).unwrap(), [id]);
    assert!(provider.invoke_action(id, "open").is_err());
    assert!(provider.ids_for_origin(":1.5").is_empty());
    assert_eq!(provider.bus_name(), "org.freedesktop.Notifications");
    assert!(provider.capabilities().contains(&"actions".to_string()));
}

#[test]
fn commands_are_planned_and_announced() {
    let mut provider = provider();
    let id = notify(&mut provider, ":1.5", 0);
    provider.execute(NotificationCommand::Archive { id }, disk, no_checkpoint).unwrap();
    assert!(provider.store().active().is_empty());
    assert!(!provider.popup_visible(id));
    let unknown = NotificationCommand::MarkRead { id: 99 };
    assert!(provider.execute(unknown, untouched, no_checkpoint).is_err());
    assert_eq!(
        event_of_command(NotificationCommand::Dismiss { id: 3 }),
        ServiceEvent::Notification { id: 3, change: NotificationChange::Archived }
    );
    let request = NotifyRequest { origin: ":1.5".into(), notification: document(0) };
    let (outcome, announced) = provider.notify(request, None, 0, disk, no_checkpoint).unwrap();
    let events = events_of_notify(&outcome, announced);
    assert!(events.contains(&ServiceEvent::Notification {
        id: outcome.id,
        change: NotificationChange::Added
    }));
}

#[test]
fn requests_on_the_socket_are_checked_and_routed() {
    assert!(authorize_peer(5, 5).is_ok());
    assert_eq!(authorize_peer(5, 6).unwrap_err().kind, ErrorKind::PermissionDenied);
    let request = |version, id: &str| Request {
        schema_version: version,
        request_id: id.into(),
        operation: Operation::Snapshot,
    };
    assert!(validate_request(&request(1, "00000000-0000-4000-8000-000000000001")).is_ok());
    assert!(validate_request(&request(9, "00000000-0000-4000-8000-000000000001")).is_err());
    assert!(validate_request(&request(1, "")).is_err());
    assert!(matches!(route(Operation::Snapshot), Ok(SocketAction::Snapshot)));
    assert!(matches!(
        route(Operation::SetDnd { enabled: true }),
        Ok(SocketAction::Command { command: NotificationCommand::SetDnd { enabled: true } })
    ));
    let failed = respond("r".into(), Err(SessionError::new(ErrorKind::NotFound, "none")));
    assert_eq!(failed.request_id, "r");
    assert!(failed.data.is_none());
    assert_eq!(failed.error.unwrap().message, "none");
    let invoked = respond("r".into(), Ok(Data::ActionInvoked { id: 1, action_id: "a".into() }));
    assert!(invoked.data.is_some() && invoked.error.is_none());
    assert_ne!(invoked.status, failed.status);
}

#[test]
fn methods_on_the_bus_are_known_by_name() {
    assert_eq!(bus_method(Some("Notify")).unwrap(), BusMethod::Notify);
    assert_eq!(
        bus_method(Some("CloseNotification")).unwrap(),
        BusMethod::CloseNotification
    );
    assert!(bus_method(Some("Other")).is_err());
    assert!(bus_method(None).is_err());
    assert_eq!(wire_id(7).unwrap(), 7);
    assert!(wire_id(1 << 40).is_err());
    assert!(origin_vanished(":1.5", ":1.5", ""));
    assert!(!origin_vanished(":1.5", ":1.5", ":1.6"));
    assert_eq!(reply_text(&SessionError::new(ErrorKind::Other, "a\0b")).matches('\0').count(), 0);
}

fn call(actions: &[&str], urgency: Option<u64>, timeout: i32) -> NotifyCall {
    NotifyCall {
        application: "app".into(),
        replaces_id: 4,
        summary: "Summary".into(),
        body: "Body".into(),
        actions: actions.iter().map(|text| text.to_string()).collect(),
        urgency,
        timeout,
        sender: Some(":1.7".into()),
        created_at: "2024-01-01T00:00:00Z".into(),
    }
}

#[test]
fn calls_on_the_bus_become_requests() {
    let request = notify_request(call(&["open", "Open", "quit", "Quit"], Some(2), -1)).unwrap();
    assert_eq!(request.origin, ":1.7");
    assert_eq!(request.notification.id, 4);
    assert_eq!(request.notification.urgency, NotificationUrgency::Critical);
    assert_eq!(request.notification.timeout_ms, Some(5_000));
    assert_eq!(request.notification.actions[1].id, "quit");
    assert_eq!(request.notification.actions[1].label, "Quit");
    assert!(!request.notification.read && !request.notification.archived);
    let plain = notify_request(call(&[], None, 0)).unwrap();
    assert_eq!(plain.notification.urgency, NotificationUrgency::Normal);
    assert_eq!(plain.notification.timeout_ms, Some(0));
    assert_eq!(
        notify_request(call(&["open"], None, 0)).unwrap_err().message,
        "notification actions must be key/label pairs"
    );
    assert_eq!(
        notify_request(call(&[], Some(3), 0)).unwrap_err().message,
        "invalid notification urgency"
    );
    let nameless = NotifyCall { sender: None, ..call(&[], None, 0) };
    assert_eq!(notify_request(nameless).unwrap_err().message, "missing D-Bus sender");
}

#[test]
fn a_store_opens_with_its_default_limits() {
    let mut recovered = fresh();
    recovered.active = (1..=500).map(document).collect();
    let store = NotificationStore::open_default(recovered, &vec![None; 500]).ok().unwrap();
    assert_eq!(store.active().len(), 500);
    match notification_state(&store).value() {
        Some(DesktopDomainValue::Notifications(shown)) => {
            assert!(!shown.dnd);
            assert_eq!(shown.active.len(), 500);
            assert_eq!(shown.active[0], document(1));
        }
        _ => panic!("the notifications are not shown"),
    }
    let mut recovered = fresh();
    recovered.active = (1..=501).map(document).collect();
    assert_eq!(
        NotificationStore::open_default(recovered, &vec![None; 501]).err().unwrap().message,
        "notification active state exceeds configured capacity"
    );
}

//! The record of commands, the limits on frames, the authority and the control
//! of commands.

use std::cell::{Cell, RefCell};

use sleepy_session::desktop::authority::{
    command_result, DesktopStateAuthority, DesktopSubscriber, Received, StagedPublication,
    SubscriberStep,
};
use sleepy_session::desktop::budget::{
    accumulate_serialized_budget, check_serialized_budget, validate_serialized_budget, Json,
    MAX_DESKTOP_FRAME_BYTES, MAX_DESKTOP_SERIALIZED_ITEMS, MAX_DESKTOP_STRING_BYTES,
};
use sleepy_session::desktop::control::{
    check_capacity, conclude, public_mutation_diagnostic, ControlAction, ControlEvent, ControlRun,
    DesktopMutationOutcome,
};
use sleepy_session::desktop::dedupe::{
    check_size, dedupe_file_place, validate_canonical_request_id, DedupeDisk, DedupeDocument,
    DedupeRecord, DurableDedupe, LoadedDocument, StoredDocument, MAX_DEDUPE_BYTES,
};
use sleepy_session::desktop::domain::{
    CapabilityAvailability, DesktopDomainId, DesktopDomainState, DesktopDomainUpdate,
    DesktopDomainValue, LockState, ProducerError,
};
use sleepy_session::desktop::executor::{
    accept_command, execute_hyprland, execute_notification, needed_output, validate_output,
    worker_failed, CompositorExecution, DesktopCommand, DesktopNotificationCommand,
    NotificationStep, OutputAuthority, Worker,
};
use sleepy_session::desktop::localize::localize_contract_failures;
use sleepy_session::desktop::publication::{InitializationAssembly, InitializationStage};
use sleepy_session::desktop::registry::{
    contract_invalid, fill_unreported, over_budget, probe_isolation, production_kind,
    record_initial, DesktopRegistry, ProducerKind,
};
use sleepy_session::desktop::runtime::{
    after_publication, bounded_diagnostic, check_queue_capacity, ended_state,
    ensure_initial_deadline, ensure_publication_active, initial_deadlines, ActiveAttemptSlot,
    AggregatorEnd, LoopAction, LoopEvent, ProducerLoop, PublicationControl, Restarts, RunEnd,
    Shutdown, ShutdownPhase, TaskEnd,
};
use sleepy_session::desktop::snapshot::{
    assemble, domain_update, producer_availability, public_producer_diagnostic, DomainUpdate,
    Fallbacks,
};
use sleepy_session::desktop::states::DomainStates;
use sleepy_session::desktop::wire::{accept, DesktopResult, DesktopResultStatus, EventCauseKind};
use sleepy_session::desktop::commands::{DesktopSessionCommand, UtilityCommand};
use sleepy_session::desktop::domain::StableId;
use sleepy_session::error::{ErrorKind, SessionError};
use sleepy_session::notifications::provider::NotificationCommand;

fn result(request_id: &str) -> DesktopResult {
    DesktopResult {
        schema_version: 3,
        request_id: request_id.into(),
        generation: 7,
        status: DesktopResultStatus::Succeeded,
        diagnostic: None,
    }
}

#[derive(Debug, Clone, Copy, PartialEq)]
enum FaultPoint {
    FileSync,
    Rename,
    DirectorySync,
}

/// A disk that holds one document and fails where it is told to. The document is
/// in place once it was renamed.
struct Disk {
    document: Option<DedupeDocument>,
    fault: Option<FaultPoint>,
}

impl Disk {
    /// Puts a document in the place of the one that is there.
    fn replace(&mut self, staged: DedupeDocument) -> Result<(), SessionError> {
        match self.fault.take() {
            None => {
                self.document = Some(staged);
                Ok(())
            }
            Some(fault) => {
                if fault != FaultPoint::FileSync {
                    self.document = Some(staged);
                }
                Err(SessionError::new(ErrorKind::Other, &format!("injected {fault:?}")))
            }
        }
    }

    fn open(&self) -> DurableDedupe {
        let stored = match &self.document {
            None => StoredDocument::Missing,
            Some(document) => StoredDocument::Read {
                size: 100,
                loaded: LoadedDocument {
                    document: document.copy(),
                    rejections: vec![None; document.records.len()],
                },
            },
        };
        DurableDedupe::open(stored, 8).ok().unwrap()
    }
}

fn begin(dedupe: &mut DurableDedupe, disk: &mut Disk, id: &str) -> Result<(), SessionError> {
    let staged = RefCell::new(None);
    let disk = RefCell::new(disk);
    dedupe.begin(
        id.to_string(),
        DedupeDisk {
            encode: |document: &DedupeDocument| {
                *staged.borrow_mut() = Some(document.copy());
                Ok(vec![0])
            },
            replace: |_: &Vec<u8>| disk.borrow_mut().replace(staged.take().unwrap()),
            reread: || disk.borrow().document.as_ref().map(|document| document.copy()),
            sync: || Ok(()),
        },
    )
}

fn complete(
    dedupe: &mut DurableDedupe,
    disk: &mut Disk,
    outcome: DesktopResult,
) -> Result<(), SessionError> {
    let id = outcome.request_id.clone();
    let staged = RefCell::new(None);
    let disk = RefCell::new(disk);
    dedupe.complete(
        &id,
        outcome,
        None,
        DedupeDisk {
            encode: |document: &DedupeDocument| {
                *staged.borrow_mut() = Some(document.copy());
                Ok(vec![0])
            },
            replace: |_: &Vec<u8>| disk.borrow_mut().replace(staged.take().unwrap()),
            reread: || disk.borrow().document.as_ref().map(|document| document.copy()),
            sync: || Ok(()),
        },
    )
}

type Encode = fn(&DedupeDocument) -> Result<Vec<u8>, SessionError>;
type Replace = fn(&Vec<u8>) -> Result<(), SessionError>;
type Reread = fn() -> Option<DedupeDocument>;
type Sync = fn() -> Result<(), SessionError>;

/// A disk that nothing may be asked of.
fn untouched() -> DedupeDisk<Encode, Replace, Reread, Sync> {
    DedupeDisk {
        encode: |_| panic!("nothing is encoded"),
        replace: |_| panic!("nothing is written"),
        reread: || panic!("nothing is read"),
        sync: || panic!("nothing is synced"),
    }
}

#[test]
fn the_record_of_commands_follows_its_disk() {
    let id = "00000000-0000-4000-8000-000000000042";
    let mut dedupe = DurableDedupe::open(StoredDocument::Missing, 2).ok().unwrap();
    let long: Encode = |_| Ok(vec![0; MAX_DEDUPE_BYTES + 1]);
    let refused = dedupe.begin(id.to_string(), DedupeDisk { encode: long, ..untouched() });
    assert_eq!(
        refused.unwrap_err().message,
        "desktop dedupe document exceeds its bounded size"
    );
    let unencoded: Encode = |_| Err(SessionError::new(ErrorKind::Other, "encode"));
    let refused = dedupe.begin(id.to_string(), DedupeDisk { encode: unencoded, ..untouched() });
    assert_eq!(refused.unwrap_err().message, "encode");
    assert!(dedupe.lookup(id).is_none());

    let staged = RefCell::new(None);
    let written = || SessionError::new(ErrorKind::Other, "written");
    let refused = dedupe.begin(
        id.to_string(),
        DedupeDisk {
            encode: |document: &DedupeDocument| {
                *staged.borrow_mut() = Some(document.copy());
                Ok(vec![0])
            },
            replace: |_: &Vec<u8>| Err(written()),
            reread: || staged.take(),
            sync: || Err(SessionError::new(ErrorKind::TimedOut, "sync")),
        },
    );
    let refused = refused.unwrap_err();
    assert_eq!((refused.kind, refused.message.as_str()), (ErrorKind::Other, "sync"));
    assert!(dedupe.lookup(id).is_none());
}

#[test]
fn dedupe_fault_boundaries_never_leave_memory_ahead_of_disk() {
    let request_id = "00000000-0000-4000-8000-000000000041";
    for (fault, reconciled) in [
        (FaultPoint::FileSync, false),
        (FaultPoint::Rename, true),
        (FaultPoint::DirectorySync, true),
    ] {
        let mut disk = Disk { document: None, fault: Some(fault) };
        let mut dedupe = disk.open();
        assert_eq!(begin(&mut dedupe, &mut disk, request_id).is_ok(), reconciled, "{fault:?}");
        assert_eq!(dedupe.lookup(request_id).is_some(), reconciled, "{fault:?}");

        let reopened = disk.open();
        assert_eq!(reopened.lookup(request_id).is_some(), reconciled, "{fault:?}");
    }
}

#[test]
fn dedupe_completion_faults_reconcile_key_and_correlated_result() {
    let request_id = "00000000-0000-4000-8000-000000000042";
    for fault in [FaultPoint::FileSync, FaultPoint::Rename, FaultPoint::DirectorySync] {
        let mut disk = Disk { document: None, fault: None };
        let mut dedupe = disk.open();
        begin(&mut dedupe, &mut disk, request_id).unwrap();
        disk.fault = Some(fault);
        let reconciled = fault != FaultPoint::FileSync;
        assert_eq!(
            complete(&mut dedupe, &mut disk, result(request_id)).is_ok(),
            reconciled,
            "{fault:?}"
        );

        let reopened = disk.open();
        match (fault, reopened.lookup(request_id).unwrap()) {
            (FaultPoint::FileSync, None) => {}
            (_, Some(value)) => assert_eq!(value.request_id, request_id),
            _ => panic!("unexpected dedupe state after {fault:?}"),
        }
    }
}

#[test]
fn dedupe_load_rejects_invalid_ids_results_and_key_correlation() {
    let valid = "00000000-0000-4000-8000-000000000043";
    let other = "00000000-0000-4000-8000-000000000044";
    let cases = [
        (DedupeRecord { request_id: "not-a-request-id".into(), result: None }, None),
        (DedupeRecord { request_id: valid.into(), result: Some(result(other)) }, None),
        (
            DedupeRecord {
                request_id: valid.into(),
                result: Some(DesktopResult {
                    diagnostic: Some("invalid diagnostic on success".into()),
                    ..result(valid)
                }),
            },
            Some("a success has no diagnostic".to_string()),
        ),
    ];
    for (record, rejection) in cases {
        let stored = StoredDocument::Read {
            size: 100,
            loaded: LoadedDocument {
                document: DedupeDocument { schema_version: 1, records: vec![record] },
                rejections: vec![rejection],
            },
        };
        let error = match DurableDedupe::open(stored, 8) {
            Ok(_) => panic!("invalid dedupe record was accepted"),
            Err(error) => error,
        };
        assert_eq!(error.kind, ErrorKind::InvalidData);
    }
}

#[test]
fn serialized_desktop_budget_is_conservatively_below_transport_limit() {
    let payload = "x".repeat(MAX_DESKTOP_FRAME_BYTES);
    let encoded = format!("{{\"payload\":\"{payload}\"}}");
    assert_eq!(
        validate_serialized_budget(&encoded).unwrap_err().kind,
        ErrorKind::InvalidData
    );

    let items = vec![0; MAX_DESKTOP_SERIALIZED_ITEMS + 1];
    let too_many_items = serde_json::to_string(&items).unwrap();
    assert_eq!(
        validate_serialized_budget(&too_many_items).unwrap_err().kind,
        ErrorKind::InvalidData
    );
}

#[test]
fn budgets_count_items_texts_and_depth() {
    let value = Json::Object(vec![
        ("ab".to_string(), Json::Array(vec![Json::Null, Json::Bool(true)])),
        ("c".to_string(), Json::Text("d\u{e9}".to_string())),
    ]);
    let (mut items, mut bytes) = (0, 0);
    accumulate_serialized_budget(&value, 0, &mut items, &mut bytes).unwrap();
    assert_eq!((items, bytes), (4, 6));
    assert!(check_serialized_budget("{}", &Ok(value)).is_ok());
    let mut deep = Json::Null;
    for _ in 0..65 {
        deep = Json::Array(vec![deep]);
    }
    assert_eq!(
        check_serialized_budget("[]", &Ok(deep)).unwrap_err().message,
        "desktop.serialization-depth-exceeded"
    );
    let long = Json::Text("x".repeat(MAX_DESKTOP_STRING_BYTES + 1));
    assert_eq!(
        check_serialized_budget("[]", &Ok(long)).unwrap_err().message,
        "desktop.aggregate-budget-exceeded"
    );
    let unread = check_serialized_budget("[", &Err("EOF".to_string())).unwrap_err();
    assert_eq!((unread.kind, unread.message.as_str()), (ErrorKind::Other, "EOF"));
}

#[test]
fn frames_are_read_before_they_are_counted() {
    assert!(validate_serialized_budget("{\"a\":[null,true,1.5,\"x\"]}").is_ok());
    let unread = validate_serialized_budget("[1,").unwrap_err();
    let reason = serde_json::from_str::<serde_json::Value>("[1,").unwrap_err();
    assert_eq!((unread.kind, unread.message), (ErrorKind::Other, reason.to_string()));
    let nested = |depth: usize| format!("{}{}", "[".repeat(depth), "]".repeat(depth));
    assert!(validate_serialized_budget(&nested(65)).is_ok());
    assert_eq!(
        validate_serialized_budget(&nested(66)).unwrap_err().message,
        "desktop.serialization-depth-exceeded"
    );
    let items = format!("[{}0]", "0,".repeat(MAX_DESKTOP_SERIALIZED_ITEMS));
    assert_eq!(
        validate_serialized_budget(&items).unwrap_err().message,
        "desktop.aggregate-budget-exceeded"
    );
    let long = "x".repeat(MAX_DESKTOP_STRING_BYTES / 2 + 1);
    assert_eq!(
        validate_serialized_budget(&format!("{{\"{long}\":\"{long}\"}}")).unwrap_err().message,
        "desktop.aggregate-budget-exceeded"
    );
}

#[test]
fn the_record_of_commands_is_kept_in_a_named_file() {
    let place = |path: &str| dedupe_file_place(path.as_bytes());
    assert_eq!(
        place("/run//sleepy/./dedupe.json").unwrap(),
        (b"/run/sleepy".to_vec(), b"dedupe.json".to_vec())
    );
    assert_eq!(place("/x").unwrap(), (b"/".to_vec(), b"x".to_vec()));
    for (path, kind, message) in [
        ("x", ErrorKind::PermissionDenied, "desktop dedupe path must be absolute"),
        ("//.", ErrorKind::InvalidInput, "desktop dedupe path has no parent"),
        ("/run/..", ErrorKind::InvalidInput, "desktop dedupe path has no name"),
    ] {
        let error = place(path).unwrap_err();
        assert_eq!((error.kind, error.message.as_str()), (kind, message));
    }
}

#[test]
fn the_record_of_commands_is_bounded_and_keeps_what_is_pending() {
    let id = |n: u32| format!("00000000-0000-4000-8000-{n:012}");
    let mut disk = Disk { document: None, fault: None };
    let mut dedupe = DurableDedupe::open(StoredDocument::Missing, 2).ok().unwrap();
    begin(&mut dedupe, &mut disk, &id(1)).unwrap();
    assert_eq!(begin(&mut dedupe, &mut disk, &id(1)).unwrap_err().kind, ErrorKind::AlreadyExists);
    assert_eq!(
        begin(&mut dedupe, &mut disk, "nonsense").unwrap_err().kind,
        ErrorKind::InvalidData
    );
    complete(&mut dedupe, &mut disk, result(&id(1))).unwrap();
    begin(&mut dedupe, &mut disk, &id(2)).unwrap();
    // The command that is done makes room for a new one; those that are pending do not.
    begin(&mut dedupe, &mut disk, &id(3)).unwrap();
    assert!(dedupe.lookup(&id(1)).is_none());
    let full = begin(&mut dedupe, &mut disk, &id(4)).unwrap_err();
    assert_eq!(full.kind, ErrorKind::WouldBlock);
    assert_eq!(dedupe.document().records.len(), 2);
    let mismatch = dedupe.complete(&id(2), result(&id(3)), None, untouched()).err().unwrap();
    assert_eq!(mismatch.kind, ErrorKind::InvalidInput);
    let rejected = dedupe.complete(&id(2), result(&id(2)), Some("no".into()), untouched());
    let rejected = rejected.err().unwrap();
    assert_eq!(rejected.message, "no");
}

#[test]
fn stored_records_must_fit() {
    let document = |version, count: u32| DedupeDocument {
        schema_version: version,
        records: (0..count)
            .map(|n| DedupeRecord {
                request_id: format!("00000000-0000-4000-8000-{n:012}"),
                result: None,
            })
            .collect(),
    };
    let open = |document: DedupeDocument, size| {
        let rejections = vec![None; document.records.len()];
        DurableDedupe::open(
            StoredDocument::Read { size, loaded: LoadedDocument { document, rejections } },
            2,
        )
        .err()
        .map(|error| error.message)
    };
    assert_eq!(open(document(1, 2), 10), None);
    let schema = "desktop dedupe document violates its schema or capacity";
    assert_eq!(open(document(2, 1), 10).as_deref(), Some(schema));
    assert_eq!(open(document(1, 3), 10).as_deref(), Some(schema));
    assert_eq!(
        open(document(1, 1), usize::MAX).as_deref(),
        Some("desktop dedupe document exceeds its bounded size")
    );
    let mut twice = document(1, 1);
    twice.records.push(twice.records[0].copy());
    assert_eq!(
        open(twice, 10).as_deref(),
        Some("desktop dedupe document contains duplicate request IDs")
    );
    let malformed = StoredDocument::Malformed { size: 5, reason: "not JSON".into() };
    assert_eq!(DurableDedupe::open(malformed, 2).err().unwrap().message, "not JSON");
    assert!(check_size(10).is_ok());
    assert!(check_size(usize::MAX).is_err());
}

#[test]
fn request_identifiers_are_canonical() {
    assert!(validate_canonical_request_id("00000000-0000-4000-8000-000000000041").is_ok());
    for wrong in [
        "00000000-0000-4000-8000-00000000004A",
        "{00000000-0000-4000-8000-000000000041}",
        "00000000000040008000000000000041",
        "",
    ] {
        assert_eq!(
            validate_canonical_request_id(wrong).unwrap_err().kind,
            ErrorKind::InvalidData
        );
    }
}

#[test]
fn active_attempt_slot_handoff_cannot_install_after_shutdown_cancellation() {
    let mut slot = ActiveAttemptSlot::new();
    let first = slot.begin(false).unwrap();
    assert_eq!(slot.cancel(), Some(first));
    let second = slot.begin(false).unwrap();
    assert_ne!(first, second);
    assert!(!slot.finish(first), "an attempt that was replaced is not removed");
    assert!(slot.finish(second));
    assert!(slot.begin(true).is_none());
    assert_eq!(slot.cancel(), None);
}

fn locked() -> DesktopDomainState {
    DesktopDomainState::available(
        DesktopDomainId::Lock,
        DesktopDomainValue::Lock(LockState { secure: true }),
    )
    .unwrap()
}

/// Carries a command through, with the record on a disk.
fn handle(
    dedupe: &mut DurableDedupe,
    disk: &mut Disk,
    request_id: &str,
    calls: &RefCell<usize>,
) -> Result<DesktopResult, SessionError> {
    let mut run = ControlRun::start(3, request_id.to_string());
    let mut event = ControlEvent::Found(dedupe.lookup(request_id));
    loop {
        assert!(run.awaits(&event));
        let (next, action) = run.advance(event);
        run = next;
        event = match action {
            ControlAction::Compare => ControlEvent::Generation { matches: true, current: 7 },
            ControlAction::Begin => ControlEvent::Recorded(begin(dedupe, disk, request_id)),
            ControlAction::Execute => {
                *calls.borrow_mut() += 1;
                ControlEvent::Executed(Ok(DesktopMutationOutcome::Confirmed(vec![locked()])))
            }
            ControlAction::Publish(state) => {
                assert_eq!(state.domain(), DesktopDomainId::Lock);
                ControlEvent::Published(Ok(()))
            }
            ControlAction::Report { status, diagnostic } => ControlEvent::Reported(Ok(
                command_result(3, request_id.to_string(), 8, status, diagnostic),
            )),
            ControlAction::Complete(outcome) => {
                ControlEvent::Recorded(complete(dedupe, disk, outcome))
            }
            ControlAction::Answer(answer) => return answer,
        };
    }
}

#[test]
fn reconciled_control_begin_executes_once_and_replays_durable_completion() {
    for fault in [FaultPoint::Rename, FaultPoint::DirectorySync] {
        let mut disk = Disk { document: None, fault: Some(fault) };
        let mut dedupe = disk.open();
        let request_id = "00000000-0000-4000-8000-000000000045";
        let first_calls = RefCell::new(0);
        let first = handle(&mut dedupe, &mut disk, request_id, &first_calls).unwrap();
        assert_eq!(first.status, DesktopResultStatus::Succeeded, "{fault:?}");
        assert_eq!(*first_calls.borrow(), 1, "{fault:?}");

        let mut reopened = disk.open();
        let replay_calls = RefCell::new(0);
        let replay = handle(&mut reopened, &mut disk, request_id, &replay_calls).unwrap();
        assert_eq!(replay, first, "{fault:?}");
        assert_eq!(*replay_calls.borrow(), 0, "{fault:?}");
    }
}

#[test]
fn stale_and_interrupted_commands_are_not_executed() {
    let id = "00000000-0000-4000-8000-000000000045";
    let run = ControlRun::start(3, id.to_string());
    let (run, _) = run.advance(ControlEvent::Found(None));
    let (_, action) = run.advance(ControlEvent::Generation { matches: false, current: 9 });
    match action {
        ControlAction::Complete(refusal) => {
            assert_eq!(refusal.status, DesktopResultStatus::Failed);
            assert_eq!(refusal.generation, 9);
            assert_eq!(refusal.diagnostic.as_deref(), Some("request.generation-stale"));
        }
        _ => panic!("the refusal is recorded"),
    }
    let run = ControlRun::start(3, id.to_string());
    match run.advance(ControlEvent::Found(Some(None))).1 {
        ControlAction::Answer(Err(error)) => assert_eq!(error.kind, ErrorKind::AlreadyExists),
        _ => panic!("the outcome is not known"),
    }
    assert!(check_capacity(0).is_err());
    assert!(check_capacity(1).is_ok());
}

#[test]
fn outcomes_of_commands_are_concluded() {
    let failed = |outcome| {
        let conclusion = conclude(outcome);
        (conclusion.status, conclusion.diagnostic)
    };
    assert_eq!(
        failed(Ok(DesktopMutationOutcome::Acknowledged)),
        (DesktopResultStatus::Succeeded, None)
    );
    let told = |text: &str| (DesktopResultStatus::Failed, Some(text.to_string()));
    assert_eq!(
        failed(Ok(DesktopMutationOutcome::Confirmed(vec![]))),
        told("mutation.readback-missing")
    );
    assert_eq!(
        failed(Ok(DesktopMutationOutcome::Confirmed(vec![
            locked(),
            contract_invalid(DesktopDomainId::Audio)
        ]))),
        told("mutation.readback-terminal")
    );
    assert_eq!(failed(Err(ProducerError::new("x"))), told("mutation.backend-failed"));
    assert_eq!(
        failed(Ok(DesktopMutationOutcome::TerminalFailure {
            readbacks: vec![],
            diagnostic_code: "capture.portal-unavailable".into(),
        })),
        told("capture.portal-unavailable")
    );
    assert_eq!(public_mutation_diagnostic("other"), "mutation.terminal-failure");
}

#[test]
fn restarts_pause_longer_from_run_to_run() {
    let mut restarts = Restarts::new();
    let pauses: Vec<u64> = (0..8).map(|_| restarts.pause(0)).collect();
    assert_eq!(pauses, [100, 200, 400, 800, 1_600, 3_200, 5_000, 5_000]);
    assert_eq!(restarts.pause(10_000), 100);
    assert_eq!(restarts.pause(9_999), 200);
}

#[test]
fn producers_that_ended_leave_a_reason() {
    for (end, reason) in [
        (RunEnd::Returned, "producer.disconnected"),
        (RunEnd::Panicked, "producer.panicked"),
        (RunEnd::Aborted, "producer.worker-failed"),
        (RunEnd::Failed(ProducerError::new("boom")), "boom"),
    ] {
        let state = ended_state(DesktopDomainId::Audio, end);
        assert_eq!(state.diagnostic(), Some(reason));
        assert_eq!(state.status(), CapabilityAvailability::Error);
    }
    let long = "\u{e9}".repeat(513);
    assert_eq!(bounded_diagnostic(long).len(), 1_024);
    let odd = format!("a{}", "\u{e9}".repeat(512));
    assert_eq!(bounded_diagnostic(odd).len(), 1_023);
}

#[test]
fn a_shutdown_fails_with_its_first_failure() {
    let mut shutdown = Shutdown::new(2);
    assert_eq!(shutdown.phase(), ShutdownPhase::Producer(0));
    assert!(!shutdown.producer_ended(TaskEnd::Finished));
    assert_eq!(shutdown.phase(), ShutdownPhase::Producer(1));
    assert!(shutdown.producer_ended(TaskEnd::TimedOut));
    assert_eq!(shutdown.phase(), ShutdownPhase::Reaping(1));
    assert!(shutdown.producer_reaped(TaskEnd::TimedOut));
    assert_eq!(shutdown.phase(), ShutdownPhase::Aggregator);
    assert_eq!(shutdown.aggregator_deadline(1, 2), 2);
    assert!(shutdown.aggregator_ended(AggregatorEnd::TimedOut));
    assert_eq!(shutdown.phase(), ShutdownPhase::Workers(0));
    assert!(shutdown.workers_idle(false));
    assert!(!shutdown.workers_idle(true));
    assert_eq!(shutdown.phase(), ShutdownPhase::Publication);
    assert!(!shutdown.publication_idle(true));
    assert_eq!(shutdown.phase(), ShutdownPhase::Ended);
    assert_eq!(
        shutdown.outcome().unwrap_err().message,
        "desktop producers did not drain"
    );
}

/// Ends a shutdown in which the aggregator ended in a way and nothing else failed.
fn end_shutdown(mut shutdown: Shutdown, aggregator: AggregatorEnd, idle: bool) -> String {
    assert_eq!(shutdown.phase(), ShutdownPhase::Aggregator);
    assert_eq!(shutdown.aggregator_deadline(1, 2), 1);
    shutdown.aggregator_ended(aggregator);
    while let ShutdownPhase::Workers(_) = shutdown.phase() {
        assert!(!shutdown.workers_idle(true));
    }
    assert_eq!(shutdown.publication_idle(idle), !idle);
    match shutdown.outcome() {
        Ok(()) => String::new(),
        Err(error) => error.message,
    }
}

#[test]
fn a_shutdown_ends_in_order() {
    let rejected = SessionError::new(ErrorKind::Other, "r");
    assert_eq!(end_shutdown(Shutdown::new(0), AggregatorEnd::Rejected(rejected), false), "r");
    assert_eq!(end_shutdown(Shutdown::new(0), AggregatorEnd::Finished, true), "");
    assert_eq!(
        end_shutdown(Shutdown::new(0), AggregatorEnd::Finished, false),
        "desktop publication worker did not drain"
    );
    let mut one = Shutdown::new(1);
    one.producer_ended(TaskEnd::Failed("x".into()));
    assert_eq!(
        end_shutdown(one, AggregatorEnd::Finished, true),
        "desktop producer task failed: x"
    );
    let mut reaped = Shutdown::new(1);
    assert!(reaped.producer_ended(TaskEnd::TimedOut));
    assert!(!reaped.producer_reaped(TaskEnd::Failed("x".into())));
    assert_eq!(reaped.phase(), ShutdownPhase::Aggregator);
}

#[test]
fn the_start_is_bounded() {
    assert_eq!(initial_deadlines(100, 2_100), (1_600, 1_850));
    assert_eq!(initial_deadlines(100, 1_700), (1_600, 1_700));
    assert_eq!(initial_deadlines(100, 500), (500, 500));
    assert!(ensure_initial_deadline(4, 5).is_ok());
    assert_eq!(
        ensure_initial_deadline(5, 5).unwrap_err().message,
        "desktop.initialization-timeout"
    );
    let control = |cancelled, time_left| Some(PublicationControl { cancelled, time_left });
    assert!(ensure_publication_active(None).is_ok());
    assert!(ensure_publication_active(control(false, true)).is_ok());
    assert_eq!(
        ensure_publication_active(control(true, true)).unwrap_err().kind,
        ErrorKind::Interrupted
    );
    assert_eq!(
        ensure_publication_active(control(false, false)).unwrap_err().kind,
        ErrorKind::TimedOut
    );
}

#[test]
fn a_registry_has_one_producer_for_every_domain() {
    let all = DesktopDomainId::all();
    assert_eq!(DesktopRegistry::new(all.clone()).ok().unwrap().domains().len(), all.len());
    let mut twice = all.clone();
    twice.push(DesktopDomainId::Audio);
    let error = DesktopRegistry::new(twice).err().unwrap();
    assert_eq!(error.kind, ErrorKind::InvalidInput);
    assert!(error.message.starts_with("duplicate desktop producer for "));
    let error = DesktopRegistry::new(all[1..].to_vec()).err().unwrap();
    assert!(error.message.starts_with("missing desktop producers: ["));
    assert_eq!(production_kind(DesktopDomainId::Lock), ProducerKind::Logind);
    assert_eq!(production_kind(DesktopDomainId::Tray), ProducerKind::Utility);
    assert_eq!(production_kind(DesktopDomainId::Weather), ProducerKind::Daily);
}

fn full_states() -> DomainStates {
    let mut states = DomainStates::new();
    fill_unreported(&mut states, false);
    states
}

#[test]
fn first_reports_are_recorded_and_completed() {
    let mut states = DomainStates::new();
    record_initial(&mut states, DesktopDomainId::Lock, locked());
    record_initial(&mut states, DesktopDomainId::Audio, locked());
    assert_eq!(
        states.get(DesktopDomainId::Audio).unwrap().diagnostic(),
        Some("producer.contract-invalid")
    );
    fill_unreported(&mut states, true);
    assert_eq!(
        states.get(DesktopDomainId::Lock).unwrap().status(),
        CapabilityAvailability::Available
    );
    assert_eq!(
        states.get(DesktopDomainId::Media).unwrap().status(),
        CapabilityAvailability::Timeout
    );
    assert_ne!(
        over_budget(DesktopDomainId::Audio).status(),
        CapabilityAvailability::Available
    );
    assert_ne!(
        probe_isolation(DesktopDomainId::Audio).status(),
        CapabilityAvailability::Available
    );
}

#[test]
fn a_snapshot_shows_every_domain() {
    let mut states = full_states();
    let fallbacks = Fallbacks::new("night".to_string());
    states.insert(DesktopDomainId::Lock, locked());
    let copy = states.copy();
    let snapshot = assemble(&copy, &fallbacks).ok().unwrap();
    assert_eq!(snapshot.system.lock.data, Some(&LockState { secure: true }));
    assert!(snapshot.system.audio.data.is_none());
    assert_eq!(snapshot.system.audio.diagnostic, Some("producer.failed"));
    match domain_update(DesktopDomainId::Lock, &snapshot) {
        DomainUpdate::Lock(capability) => {
            assert_eq!(capability.status, CapabilityAvailability::Available)
        }
        _ => panic!("the update is that of the domain"),
    }
    assert!(assemble(&DomainStates::new(), &fallbacks).is_err());
    let shown = producer_availability(states.get(DesktopDomainId::Audio).unwrap());
    assert_eq!(shown.diagnostic, Some("producer.failed"));
    assert_eq!(
        public_producer_diagnostic(CapabilityAvailability::Timeout),
        "producer.timeout"
    );
}

#[test]
fn observations_from_before_a_command_are_discarded() {
    assert!(DesktopStateAuthority::open(0).is_err());
    let mut authority = DesktopStateAuthority::open(4).ok().unwrap();
    let fits = |_: &DomainStates| Ok(10usize);
    let update = |state, revision| DesktopDomainUpdate { state, observation_revision: revision };
    assert_eq!(
        authority.stage_publication(update(locked(), None), fits).err().unwrap().kind,
        ErrorKind::NotConnected
    );
    assert!(DesktopSubscriber::subscribe(&authority).is_none());
    assert_eq!(authority.install(full_states(), 1, "first".into()), "first");
    assert_eq!(authority.install(full_states(), 5, "second".into()), "first");
    let observation = authority.begin_observation(DesktopDomainId::Lock);
    let late = observation.finish(locked()).ok().unwrap();
    let staged = authority.stage_publication(update(locked(), None), fits).ok().unwrap().unwrap();
    authority.commit_publication(staged, EventCauseKind::Request, 2, "two".into());
    assert_eq!(authority.current_generation(), 2);
    assert_eq!(authority.checked_generation(1), (false, 2));
    assert!(authority.stage_publication(late, fits).ok().unwrap().is_none());
    let mut subscriber = DesktopSubscriber::subscribe(&authority).unwrap();
    assert!(matches!(subscriber.next(), SubscriberStep::Replay(text) if text == "two"));
    assert!(matches!(subscriber.next(), SubscriberStep::Await));
    assert_eq!(subscriber.recv(Received::Event("e".into())).unwrap(), "e");
    assert!(subscriber.recv(Received::Lagged).is_err());
    assert!(subscriber.recv(Received::Closed).is_err());
}

/// What a client of a subscription gets, given what the stream has for it.
fn receive(
    subscriber: &mut DesktopSubscriber,
    stream: &mut Vec<Received>,
) -> Result<String, SessionError> {
    match subscriber.next() {
        SubscriberStep::Replay(text) => Ok(text),
        SubscriberStep::Await => subscriber.recv(stream.remove(0)),
    }
}

#[test]
fn no_event_comes_before_the_snapshot() {
    let mut authority = started();
    let mut subscriber = DesktopSubscriber::subscribe(&authority).unwrap();
    let update = DesktopDomainUpdate::unversioned(locked());
    let text = publish(&mut authority, update, None, Ok(2), Ok("second".into()));
    let mut stream = vec![
        Received::Event(text.unwrap().unwrap()),
        Received::Lagged,
        Received::Event("third".into()),
        Received::Closed,
    ];
    assert_eq!(receive(&mut subscriber, &mut stream).unwrap(), "first");
    assert_eq!(stream.len(), 4, "the stream is not looked at");
    assert_eq!(receive(&mut subscriber, &mut stream).unwrap(), "Lock@2");
    let lagged = receive(&mut subscriber, &mut stream).unwrap_err();
    assert_eq!(lagged.kind, ErrorKind::InvalidData);
    assert_eq!(receive(&mut subscriber, &mut stream).unwrap(), "third");
    let closed = receive(&mut subscriber, &mut stream).unwrap_err();
    assert_eq!(closed.kind, ErrorKind::UnexpectedEof);

    let mut late = DesktopSubscriber::subscribe(&authority).unwrap();
    assert_eq!(receive(&mut late, &mut vec![]).unwrap(), "second");
}

#[test]
fn a_report_that_does_not_fit_is_replaced() {
    let mut authority = DesktopStateAuthority::open(4).ok().unwrap();
    authority.install(full_states(), 1, "first".into());
    let strict = |states: &DomainStates| {
        match states.get(DesktopDomainId::Lock).unwrap().status() {
            CapabilityAvailability::Available => {
                Err(SessionError::new(ErrorKind::InvalidData, "too large"))
            }
            _ => Ok(10usize),
        }
    };
    let update = DesktopDomainUpdate { state: locked(), observation_revision: None };
    let staged = authority.stage_publication(update, strict).ok().unwrap().unwrap();
    assert_eq!(
        staged.states.get(DesktopDomainId::Lock).unwrap().diagnostic(),
        Some("producer.contract-invalid")
    );
    let mut states = full_states();
    states.insert(DesktopDomainId::Lock, locked());
    let kept = localize_contract_failures(states, strict).ok().unwrap();
    assert_ne!(
        kept.get(DesktopDomainId::Lock).unwrap().status(),
        CapabilityAvailability::Available
    );
    let mut states = full_states();
    states.insert(DesktopDomainId::Lock, locked());
    let kept = localize_contract_failures(states, |_: &DomainStates| Ok(1usize)).ok().unwrap();
    assert_eq!(
        kept.get(DesktopDomainId::Lock).unwrap().status(),
        CapabilityAvailability::Available
    );
}

#[test]
fn commands_need_the_outputs_that_they_name() {
    let shot = DesktopCommand::Utility(UtilityCommand::Screenshot {
        output_id: StableId("DP-1".into()),
    });
    let output = needed_output(&shot).unwrap();
    assert_eq!(output.0, "DP-1");
    assert!(needed_output(&DesktopCommand::Session(DesktopSessionCommand::Lock)).is_none());
    assert!(needed_output(&DesktopCommand::Utility(UtilityCommand::PickColor)).is_none());
    let monitors = vec!["DP-1".to_string()];
    assert!(validate_output(OutputAuthority::Monitors(&monitors), output).is_ok());
    assert_eq!(
        validate_output(OutputAuthority::Monitors(&vec![]), output).unwrap_err().message,
        "utility command referenced an unknown output"
    );
    assert_eq!(
        validate_output(OutputAuthority::Unavailable, output).unwrap_err().message,
        "Hyprland output authority is unavailable"
    );
    assert_eq!(
        validate_output(OutputAuthority::Failed("ipc"), output).unwrap_err().message,
        "ipc"
    );
    let accept = |monitors: &Vec<String>| {
        let command = DesktopCommand::Utility(UtilityCommand::Screenshot {
            output_id: StableId("DP-9".to_string()),
        });
        accept_command(command, Some(OutputAuthority::Monitors(monitors)))
    };
    let known = accept(&vec!["DP-9".to_string()]).ok().unwrap().into_command();
    assert!(needed_output(&known).is_some());
    assert_eq!(
        accept(&vec!["DP-1".to_string()]).err().unwrap().message,
        "utility command referenced an unknown output"
    );
    assert!(accept_command(DesktopCommand::Compositor, None).is_ok());
}

#[test]
fn outcomes_of_other_commands_become_states() {
    assert_eq!(
        execute_hyprland(None).unwrap_err().message,
        "Hyprland action service is unavailable"
    );
    assert_eq!(execute_hyprland(Some(Err("x".into()))).unwrap_err().message, "x");
    let exited = execute_hyprland(Some(Ok(CompositorExecution::Exited))).unwrap();
    assert_eq!(exited.status(), CapabilityAvailability::Unavailable);
    assert_eq!(
        exited.diagnostic(),
        Some("Hyprland exit was confirmed by both IPC sockets disappearing")
    );
    let dnd = DesktopNotificationCommand::SetDnd { enabled: true };
    match execute_notification(&dnd, false).ok().unwrap() {
        NotificationStep::Execute(command) => {
            assert_eq!(command, NotificationCommand::SetDnd { enabled: true })
        }
        _ => panic!("the service carries it out"),
    }
    let action = DesktopNotificationCommand::InvokeAction {
        notification_id: 3,
        action_id: StableId("open".into()),
    };
    assert_eq!(
        execute_notification(&action, false).err().unwrap().message,
        "notification action dispatcher is unavailable"
    );
    assert!(matches!(
        execute_notification(&action, true).ok().unwrap(),
        NotificationStep::Invoke { notification_id: 3, .. }
    ));
    assert_eq!(worker_failed(Worker::System, "x").message, "system mutation worker failed: x");
    assert_eq!(worker_failed(Worker::Session, "x").message, "logind action worker failed: x");
}

fn started() -> DesktopStateAuthority {
    let mut authority = DesktopStateAuthority::open(4).ok().unwrap();
    authority.install(full_states(), 1, "first".into());
    authority
}

/// Publishes with the given control, generation and outcome of the replay.
fn publish(
    authority: &mut DesktopStateAuthority,
    update: DesktopDomainUpdate,
    control: Option<PublicationControl>,
    generation: Result<u64, SessionError>,
    replay: Result<String, SessionError>,
) -> Result<Option<String>, SessionError> {
    authority.publish(
        update,
        EventCauseKind::External,
        || control,
        || None,
        |_: &DomainStates| Ok(10usize),
        || generation,
        |generation: u64, staged: &StagedPublication| {
            Ok(format!("{:?}@{generation}", staged.domain))
        },
        |_: u64, _: &DomainStates| replay,
    )
}

#[test]
fn a_publication_is_given_up_between_the_assembling_and_its_generation() {
    let mut authority = started();
    let spent = Cell::new(false);
    let given_up = authority.publish(
        DesktopDomainUpdate::unversioned(locked()),
        EventCauseKind::External,
        || Some(PublicationControl { cancelled: false, time_left: true }),
        || Some(PublicationControl { cancelled: false, time_left: false }),
        |_: &DomainStates| Ok(10usize),
        || {
            spent.set(true);
            Ok(2)
        },
        |_: u64, _: &StagedPublication| Ok("event".to_string()),
        |_: u64, _: &DomainStates| Ok("snapshot".to_string()),
    );
    assert_eq!(given_up.unwrap_err().kind, ErrorKind::TimedOut);
    assert!(!spent.get());
}

fn failed<T>() -> Result<T, SessionError> {
    Err(SessionError::new(ErrorKind::Other, "disk is full"))
}

#[test]
fn a_publication_that_fails_changes_nothing() {
    let update = || DesktopDomainUpdate::unversioned(locked());
    let mut empty = DesktopStateAuthority::open(4).ok().unwrap();
    let refused = publish(&mut empty, update(), None, Ok(2), Ok("two".into()));
    assert_eq!(refused.unwrap_err().kind, ErrorKind::NotConnected);

    let mut authority = started();
    let cancelled = PublicationControl { cancelled: true, time_left: true };
    let given_up = publish(&mut authority, update(), Some(cancelled), Ok(2), Ok("two".into()));
    assert_eq!(given_up.unwrap_err().kind, ErrorKind::Interrupted);
    let late = PublicationControl { cancelled: false, time_left: false };
    let given_up = publish(&mut authority, update(), Some(late), Ok(2), Ok("two".into()));
    assert_eq!(given_up.unwrap_err().kind, ErrorKind::TimedOut);
    assert!(publish(&mut authority, update(), None, failed(), Ok("two".into())).is_err());
    assert!(publish(&mut authority, update(), None, Ok(2), failed()).is_err());
    assert_eq!(authority.current_generation(), 1);
    assert_eq!(authority.latest_snapshot(), Some("first"));
    let states = authority.current_states().unwrap();
    assert_ne!(states.get(DesktopDomainId::Lock).unwrap(), &locked());
}

#[test]
fn a_publication_is_told_under_its_generation() {
    let mut authority = started();
    let update = DesktopDomainUpdate::unversioned(locked());
    let told = publish(&mut authority, update, None, Ok(9), Ok("nine".into())).unwrap();
    assert_eq!(told.as_deref(), Some("Lock@9"));
    assert_eq!(authority.current_generation(), 9);
    assert_eq!(authority.latest_snapshot(), Some("nine"));
    let states = authority.current_states().unwrap();
    assert_eq!(states.get(DesktopDomainId::Lock).unwrap(), &locked());

    let late = DesktopDomainUpdate { state: locked(), observation_revision: Some(7) };
    assert!(publish(&mut authority, late, None, Ok(10), Ok("ten".into())).unwrap().is_none());
    assert_eq!(authority.current_generation(), 9);
}

#[test]
fn the_outcome_of_a_command_leaves_the_states() {
    let mut authority = started();
    let fits = |_: &DomainStates| Ok(10usize);
    let replay = |_: u64, _: &DomainStates| Ok("after".to_string());
    let (event, result) = authority
        .publish_command_result(
            3,
            "id".into(),
            DesktopResultStatus::Failed,
            Some("request.failed".into()),
            fits,
            || Ok(5),
            |_: &DesktopResult| None,
            |generation: u64, result: &DesktopResult| Ok(format!("{}@{generation}", result.request_id)),
            replay,
        )
        .ok()
        .unwrap();
    assert_eq!(event, "id@5");
    assert_eq!((result.generation, result.schema_version), (5, 3));
    assert_eq!(result.diagnostic.as_deref(), Some("request.failed"));
    assert_eq!(authority.latest_snapshot(), Some("after"));

    let rejected = authority.publish_command_result(
        3,
        "id".into(),
        DesktopResultStatus::Succeeded,
        None,
        fits,
        || Ok(6),
        |_: &DesktopResult| Some("not a result".into()),
        |_: u64, _: &DesktopResult| Ok(String::new()),
        replay,
    );
    assert_eq!(rejected.err().unwrap().message, "not a result");
    assert_eq!(authority.current_generation(), 5);

    authority.commit_result(6, "six".into());
    assert_eq!(authority.current_generation(), 6);
    assert_eq!(authority.latest_snapshot(), Some("six"));
}

#[test]
fn the_first_snapshot_is_prepared_before_the_deadline() {
    let authority = DesktopStateAuthority::open(4).ok().unwrap();
    let fits = |_: &DomainStates| Ok(10usize);
    let replay = |generation: u64, _: &DomainStates| Ok(format!("snapshot {generation}"));
    let staged = authority.stage_initialization(full_states(), 10, &|_| 9, fits, || Ok(1), replay);
    match staged.ok().unwrap() {
        InitializationAssembly::Staged { generation, event, .. } => {
            assert_eq!((generation, event.as_str()), (1, "snapshot 1"));
        }
        InitializationAssembly::Existing(_) => panic!("there is no snapshot yet"),
    }
    let late = authority.stage_initialization(full_states(), 10, &|_| 10, fits, || Ok(1), replay);
    assert_eq!(late.err().unwrap().message, "desktop.initialization-timeout");
    for stage in [
        InitializationStage::Assembled,
        InitializationStage::Numbered,
        InitializationStage::Written,
    ] {
        let clock = |at| if at == stage { 10 } else { 9 };
        let late =
            authority.stage_initialization(full_states(), 10, &clock, fits, || Ok(1), replay);
        assert_eq!(late.err().unwrap().kind, ErrorKind::TimedOut);
    }
    let staged =
        started().stage_initialization(full_states(), 10, &|_| 9, fits, || Ok(1), replay);
    match staged.ok().unwrap() {
        InitializationAssembly::Existing(event) => assert_eq!(event, "first"),
        InitializationAssembly::Staged { .. } => panic!("the snapshot that stands was replaced"),
    }
}

#[test]
fn rejections_of_the_protocol_are_invalid_data() {
    assert_eq!(accept(7, None).ok(), Some(7));
    let error = accept(7, Some("unknown field".into())).err().unwrap();
    assert_eq!((error.kind, error.message.as_str()), (ErrorKind::InvalidData, "unknown field"));
}

#[test]
fn producers_are_reported_and_run_again() {
    let mut runs = ProducerLoop::new(DesktopDomainId::Audio);
    let ended = |cancelled| LoopEvent::Ended {
        end: RunEnd::Failed(ProducerError::new("socket closed")),
        cancelled,
    };
    assert!(!runs.awaits(&ended(false)));
    assert!(matches!(runs.advance(LoopEvent::Begun(Some(3))), LoopAction::Await(3)));
    match runs.advance(ended(false)) {
        LoopAction::Send(state) => {
            assert_eq!(state.domain(), DesktopDomainId::Audio);
            assert_eq!(state.diagnostic(), Some("socket closed"));
        }
        _ => panic!("the end of the run is not reported"),
    }
    let sent = |elapsed| LoopEvent::Sent { taken: true, elapsed };
    assert!(matches!(runs.advance(sent(5)), LoopAction::Pause(100)));
    assert!(matches!(runs.advance(LoopEvent::Paused { cancelled: false }), LoopAction::Begin));
    runs.advance(LoopEvent::Begun(Some(4)));
    runs.advance(LoopEvent::Ended { end: RunEnd::Panicked, cancelled: false });
    assert!(matches!(runs.advance(sent(5)), LoopAction::Pause(200)));
    assert!(matches!(runs.advance(LoopEvent::Paused { cancelled: false }), LoopAction::Begin));
    runs.advance(LoopEvent::Begun(Some(5)));
    runs.advance(LoopEvent::Ended { end: RunEnd::Returned, cancelled: false });
    assert!(matches!(runs.advance(sent(10_000)), LoopAction::Pause(100)));
    assert!(matches!(runs.advance(LoopEvent::Paused { cancelled: true }), LoopAction::Stop));
    assert!(!runs.awaits(&LoopEvent::Begun(None)));

    let mut runs = ProducerLoop::new(DesktopDomainId::Audio);
    assert!(matches!(runs.advance(LoopEvent::Begun(None)), LoopAction::Stop));
    let mut runs = ProducerLoop::new(DesktopDomainId::Audio);
    runs.advance(LoopEvent::Begun(Some(1)));
    assert!(matches!(runs.advance(ended(true)), LoopAction::Stop));
    let mut runs = ProducerLoop::new(DesktopDomainId::Audio);
    runs.advance(LoopEvent::Begun(Some(1)));
    runs.advance(ended(false));
    let lost = LoopEvent::Sent { taken: false, elapsed: 0 };
    assert!(matches!(runs.advance(lost), LoopAction::Stop));
}

#[test]
fn a_failed_publication_ends_the_aggregator() {
    assert!(check_queue_capacity(1).is_ok());
    assert_eq!(check_queue_capacity(0).unwrap_err().kind, ErrorKind::InvalidInput);
    assert!(after_publication(Ok(()), false).is_none());
    assert!(after_publication(failed(), true).unwrap().is_ok());
    assert_eq!(after_publication(failed(), false).unwrap().unwrap_err().message, "disk is full");
}

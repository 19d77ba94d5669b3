//! Captures, recordings, the clipboard and the other utilities.

use std::cell::RefCell;

use sleepy_session::command::{CommandOutput, CommandSpec, Run, RunState, RunnerErrorKind};
use sleepy_session::desktop::commands::UtilityCommand;
use sleepy_session::desktop::domain::{
    CapabilityAvailability, DesktopDomainId, DesktopDomainState, DesktopDomainValue,
    RecordingState, RecordingStatus, StableId,
};
use sleepy_session::desktop::utilities::{
    action_spec, bus_error, bus_name_budget, capture_name, check_acknowledgement_deadline,
    check_recording_file, check_recording_name, check_write_deadline, clear_clipboard,
    clipboard_entries, clipboard_written, delete_recording, domain_changed_by, ensure_executable,
    ensure_run_active, execute, execute_capture_with, execute_game_mode_with, fresh_capture_name,
    fresh_recording_name, idle_lock_for_poll, output_path, paste_clipboard, recorder_spec,
    recording_lock_for_poll, recording_name, require_bus_name, set_game_mode, set_idle_inhibited,
    state, state_for_poll, take_capture, wait_child, wait_for_recording_ack, wait_until,
    ClipboardWrite, HelperRead, HelperStatus, InhibitorStep, LockAttempt, ProgramFile,
    RecordingFile, RecordingRuntime, UtilityProducer,
};
use sleepy_session::error::{ErrorKind, SessionError};

fn id(text: &str) -> StableId {
    StableId(text.to_string())
}

fn output(bytes: &[u8]) -> Run {
    Ok(CommandOutput { status: 0, stdout: bytes.to_vec() })
}

fn line(text: &str) -> HelperRead {
    HelperRead::Line(text.to_string())
}

#[test]
fn injected_capture_helper_executes_only_the_fixed_authorized_contract() {
    let seen = RefCell::new(Vec::new());
    execute_capture_with(
        &|spec: &CommandSpec| {
            seen.borrow_mut().push((spec.program.clone(), spec.args.clone()));
            output(b"")
        },
        &UtilityCommand::Screenshot { output_id: id("output:DP-1") },
        "/run/user/1000/sleepy/captures/screenshot.png",
    )
    .unwrap();
    let seen = seen.into_inner();
    assert_eq!(seen.len(), 1);
    assert_eq!(seen[0].0, "sleepy-capture-helper");
    assert_eq!(
        seen[0].1,
        [
            "screenshot",
            "--interactive-consent",
            "--output-id",
            "DP-1",
            "--output-path",
            "/run/user/1000/sleepy/captures/screenshot.png"
        ]
    );
}

#[test]
fn injected_game_mode_transport_checks_method_and_backend_status() {
    let mut invoked = None;
    execute_game_mode_with(true, |method| {
        invoked = Some(method.to_owned());
        Ok(0)
    })
    .unwrap();
    assert_eq!(invoked.as_deref(), Some("RegisterGame"));

    let error = execute_game_mode_with(false, |method| {
        assert_eq!(method, "UnregisterGame");
        Ok(-1)
    })
    .unwrap_err();
    assert_eq!(error.kind, ErrorKind::Other);
}

#[test]
fn recording_confirmation_requires_bounded_helper_state_acknowledgements() {
    wait_for_recording_ack(RecordingStatus::Recording, line("STATE recording\n"))
        .unwrap()
        .unwrap();
    wait_for_recording_ack(RecordingStatus::Paused, line("STATE paused\n"))
        .unwrap()
        .unwrap();
    let long = format!("STATE paused{}\n", " ".repeat(60));
    let error = wait_for_recording_ack(RecordingStatus::Paused, line(&long))
        .unwrap()
        .unwrap_err();
    assert_eq!(error.kind, ErrorKind::InvalidData);
    let wrong = wait_for_recording_ack(RecordingStatus::Paused, line("STATE recording\n"))
        .unwrap()
        .unwrap_err();
    assert_eq!(wrong.message, "recording helper returned an invalid acknowledgement");
}

#[test]
fn polling_recording_state_never_waits_for_a_mutation_owned_lock() {
    assert_eq!(
        recording_lock_for_poll(LockAttempt::Busy).unwrap_err().kind,
        ErrorKind::WouldBlock
    );
    assert_eq!(
        recording_lock_for_poll(LockAttempt::Poisoned).unwrap_err().kind,
        ErrorKind::Other
    );
    assert!(recording_lock_for_poll(LockAttempt::Free).is_ok());
}

#[test]
fn polling_idle_state_never_waits_for_a_mutation_owned_lock() {
    assert_eq!(
        idle_lock_for_poll(LockAttempt::Busy).unwrap_err().kind,
        ErrorKind::WouldBlock
    );
    assert_eq!(
        idle_lock_for_poll(LockAttempt::Poisoned).unwrap_err().message,
        "idle inhibitor lock poisoned"
    );
    assert!(idle_lock_for_poll(LockAttempt::Free).is_ok());
}

#[test]
fn recording_poll_contention_emits_no_producer_update() {
    let producer = UtilityProducer::new(DesktopDomainId::Recording).unwrap();
    let busy = recording_lock_for_poll(LockAttempt::Busy).unwrap_err();
    let reading = state_for_poll(DesktopDomainId::Recording, Err(busy));
    assert!(producer.polled(Some(reading), false).is_none());
}

#[test]
fn live_helper_without_ready_ack_cannot_confirm_recording_start() {
    assert!(wait_for_recording_ack(RecordingStatus::Recording, HelperRead::Nothing).is_none());
    assert!(wait_for_recording_ack(
        RecordingStatus::Recording,
        HelperRead::End(HelperStatus::Alive)
    )
    .is_none());
    assert!(check_acknowledgement_deadline(49, 50).is_ok());
    assert_eq!(
        check_acknowledgement_deadline(50, 50).unwrap_err().kind,
        ErrorKind::TimedOut
    );
}

#[test]
fn helper_that_ignores_pause_cannot_acknowledge_a_fabricated_state() {
    wait_for_recording_ack(RecordingStatus::Recording, line("STATE recording\n"))
        .unwrap()
        .unwrap();
    assert!(wait_for_recording_ack(RecordingStatus::Paused, HelperRead::Nothing).is_none());
    let error = check_acknowledgement_deadline(50, 50).unwrap_err();
    assert_eq!(error.kind, ErrorKind::TimedOut);
    let mut runtime = RecordingRuntime {
        state: RecordingState {
            status: RecordingStatus::Recording,
            recording_id: Some("recording-under-test".into()),
            output_id: Some("output-under-test".into()),
        },
        running: true,
    };
    runtime.invalidate_recording_runtime();
    assert_eq!(runtime.state.status, RecordingStatus::Inactive);
    assert!(runtime.state.recording_id.is_none());
    assert!(!runtime.running);
}

#[test]
fn captures_of_every_sort_have_their_command_line() {
    let pick = action_spec(&UtilityCommand::PickColor, "unused").unwrap().unwrap();
    assert_eq!(pick.args, ["pick-color", "--interactive-consent", "--clipboard"]);
    let record = |audio| {
        action_spec(
            &UtilityCommand::StartRecording { output_id: id("eDP-1"), audio },
            "/c/r.mp4",
        )
        .unwrap()
        .unwrap()
        .args
    };
    assert_eq!(
        record(true),
        [
            "record",
            "--interactive-consent",
            "--output-id",
            "eDP-1",
            "--output-path",
            "/c/r.mp4",
            "--audio",
            "--status-fd",
            "1"
        ]
    );
    assert_eq!(record(false).len(), 8);
    assert!(action_spec(&UtilityCommand::PauseRecording, "x").unwrap().is_none());
    let error = execute_capture_with(
        &|_: &CommandSpec| panic!("nothing is run"),
        &UtilityCommand::ClearClipboard,
        "/x",
    )
    .unwrap_err();
    assert_eq!(error.kind, ErrorKind::Unsupported);
    assert_eq!(error.message, "capture command required");
}

#[test]
fn outputs_and_paths_of_captures_are_checked() {
    let shot = |output: &str, path: &str| {
        action_spec(&UtilityCommand::Screenshot { output_id: id(output) }, path)
    };
    for output in ["", "output:", "DP 1", "DP/1", "\u{e9}"] {
        let error = shot(output, "/a.png").unwrap_err();
        assert_eq!(error.kind, ErrorKind::InvalidInput);
        assert_eq!(error.message, "invalid output ID");
    }
    assert!(shot(&"x".repeat(128), "/a.png").is_ok());
    assert!(shot(&"x".repeat(129), "/a.png").is_err());
    for path in ["a.png", "", "/a\0b"] {
        assert_eq!(shot("DP-1", path).unwrap_err().message, "utility output path is invalid");
    }
}

#[test]
fn captures_go_to_fresh_files() {
    let seen = RefCell::new(Vec::new());
    let runner = |spec: &CommandSpec| {
        seen.borrow_mut().push(spec.args.clone());
        output(b"")
    };
    let command = UtilityCommand::Screenshot { output_id: id("DP-1") };
    take_capture(&runner, &command, b"/captures").unwrap();
    take_capture(&runner, &command, b"/captures/").unwrap();
    let seen = seen.into_inner();
    assert!(seen[0][5].starts_with("/captures/screenshot-"));
    assert!(seen[0][5].ends_with(".png"));
    assert_eq!(seen[0][5].len(), "/captures/screenshot-".len() + 36 + ".png".len());
    assert_ne!(seen[0][5], seen[1][5]);
    assert!(seen[1][5].starts_with("/captures/screenshot-"));
    let failed = take_capture(&|_: &CommandSpec| Err(RunnerErrorKind::Timeout), &command, b"/c");
    assert_eq!(failed.unwrap_err().kind, ErrorKind::TimedOut);
}

#[test]
fn captures_have_names_by_identifier_and_time() {
    assert_eq!(
        capture_name("screenshot", 0x0123_4567_89ab_4cde_8f01_2345_6789_abcd, "png"),
        "screenshot-01234567-89ab-4cde-8f01-23456789abcd.png"
    );
    // 2009-02-13 23:31:30 UTC.
    assert_eq!(
        recording_name(1_234_567_890, 0xab).unwrap(),
        "recording_20090213_23-31-30_000000000000000000000000000000ab.mp4"
    );
    assert!(recording_name(i64::MAX, 0).is_none());
    let name = fresh_recording_name(0).unwrap();
    assert!(name.starts_with("recording_19700101_00-00-00_"));
    assert!(check_recording_name(&id(&name)).is_ok());
    assert_ne!(fresh_capture_name("a", "b"), fresh_capture_name("a", "b"));
    assert_eq!(output_path(b"/c", "x").unwrap(), "/c/x");
    assert_eq!(
        output_path(&[0x2f, 0xff], "x").unwrap_err().message,
        "output path is not UTF-8"
    );
    let spec = recorder_spec(b"/c", "r.mp4", &id("output:DP-1"), false).unwrap();
    assert_eq!(spec.args[5], "/c/r.mp4");
    assert!(recorder_spec(b"c", "r.mp4", &id("output:DP-1"), false).is_err());
}

#[test]
fn only_recordings_of_the_user_are_deleted() {
    assert!(check_recording_name(&id("recording_x.mp4")).is_ok());
    for wrong in ["x.mp4", "recording_x", "recording_../x.mp4", "recording_\u{e9}.mp4"] {
        assert_eq!(
            check_recording_name(&id(wrong)).unwrap_err().message,
            "invalid recording basename"
        );
    }
    let long = format!("recording_{}.mp4", "x".repeat(83));
    assert_eq!(check_recording_name(&id(&long)).unwrap_err().kind, ErrorKind::InvalidInput);
    assert_eq!(check_recording_file(None, 1).unwrap_err().kind, ErrorKind::NotFound);
    assert!(check_recording_file(Some(RecordingFile { regular: true, uid: 1 }), 1).is_ok());
    for file in [
        RecordingFile { regular: false, uid: 1 },
        RecordingFile { regular: true, uid: 2 },
    ] {
        assert_eq!(
            check_recording_file(Some(file), 1).unwrap_err().kind,
            ErrorKind::PermissionDenied
        );
    }
}

#[test]
fn a_recording_runs_from_its_acknowledgement_to_its_end() {
    let fine = |_: RecordingStatus| Ok(());
    let mut runtime = RecordingRuntime::new();
    assert_eq!(
        runtime.pause_recording(HelperStatus::Alive, untold, untold).unwrap_err().message,
        "recording state mismatch"
    );
    let unended = || panic!("nothing is ended");
    assert_eq!(runtime.stop_recording(unended).unwrap_err().message, "no recording is active");
    let late = |_: &CommandSpec| Err(SessionError::new(ErrorKind::TimedOut, "late"));
    let refused = runtime.start_recording(b"/c", "r".into(), &id("output:DP-1"), false, late);
    assert_eq!(refused.unwrap_err().message, "late");
    assert!(!runtime.running);
    let unlaunched = |_: &CommandSpec| panic!("nothing is launched");
    let refused = runtime.start_recording(b"/c", "r".into(), &id("DP 1"), false, unlaunched);
    assert_eq!(refused.unwrap_err().kind, ErrorKind::InvalidInput);
    start(&mut runtime);
    let refused = runtime.start_recording(b"/c", "s".into(), &id("output:DP-1"), false, unlaunched);
    assert_eq!(refused.unwrap_err().message, "a recording is already active");
    let steps = RefCell::new(Vec::new());
    runtime
        .pause_recording(
            HelperStatus::Alive,
            |desired| {
                steps.borrow_mut().push(("signal", desired));
                Ok(())
            },
            |desired| {
                steps.borrow_mut().push(("acknowledge", desired));
                Ok(())
            },
        )
        .unwrap();
    let paused = RecordingStatus::Paused;
    assert_eq!(steps.into_inner(), [("signal", paused), ("acknowledge", paused)]);
    let snapshot = runtime.recording_snapshot(HelperStatus::Alive);
    assert_eq!(snapshot.status, RecordingStatus::Paused);
    assert_eq!(snapshot.recording_id.as_deref(), Some("r"));
    runtime.pause_recording(HelperStatus::Alive, fine, fine).unwrap();
    assert_eq!(runtime.state.status, RecordingStatus::Recording);
    let unsent = |_| Err(SessionError::new(ErrorKind::Other, "kill"));
    let refused = runtime.pause_recording(HelperStatus::Alive, unsent, untold);
    assert_eq!(refused.unwrap_err().message, "kill");
    assert_eq!(runtime.state.status, RecordingStatus::Recording);
    runtime.stop_recording(|| Ok(())).unwrap();
    assert_eq!(runtime.state.status, RecordingStatus::Inactive);

    start(&mut runtime);
    assert_eq!(
        runtime.pause_recording(HelperStatus::Exited, untold, untold).unwrap_err().kind,
        ErrorKind::BrokenPipe
    );
    assert!(!runtime.running);
    start(&mut runtime);
    let gone = runtime.recording_snapshot(HelperStatus::Exited);
    assert_eq!(gone.status, RecordingStatus::Inactive);
    start(&mut runtime);
    let failed = |_| Err(SessionError::new(ErrorKind::InvalidData, "bad"));
    assert!(runtime.pause_recording(HelperStatus::Alive, fine, failed).is_err());
    assert!(!runtime.running);
    start(&mut runtime);
    let failed = || Err(SessionError::new(ErrorKind::TimedOut, "slow"));
    assert_eq!(runtime.stop_recording(failed).unwrap_err().message, "slow");
    assert!(!runtime.running);
}

fn untold(_: RecordingStatus) -> Result<(), SessionError> {
    panic!("the helper is not told")
}

fn start(runtime: &mut RecordingRuntime) {
    let launch = |spec: &CommandSpec| {
        assert_eq!(spec.program, "sleepy-capture-helper");
        assert!(spec.args.contains(&"/c/r".to_string()));
        Ok(())
    };
    runtime.start_recording(b"/c", "r".into(), &id("output:DP-1"), false, launch).unwrap();
}

#[test]
fn nothing_is_removed_but_recordings_of_the_user() {
    let removed = RefCell::new(Vec::new());
    let delete = |name: &str, found: Option<RecordingFile>| {
        delete_recording(
            &id(name),
            7,
            |_| Ok(found),
            |name| {
                removed.borrow_mut().push(name.as_str().to_string());
                Ok(())
            },
        )
    };
    let mine = RecordingFile { regular: true, uid: 7 };
    delete("recording_x.mp4", Some(mine)).unwrap();
    let unlooked = |_: &StableId| panic!("nothing is looked for");
    let unremoved = |_: &StableId| panic!("nothing is removed");
    let wrong = delete_recording(&id("../x.mp4"), 7, unlooked, unremoved);
    assert_eq!(wrong.unwrap_err().message, "invalid recording basename");
    assert_eq!(delete("recording_y.mp4", None).unwrap_err().kind, ErrorKind::NotFound);
    for file in [RecordingFile { uid: 8, ..mine }, RecordingFile { regular: false, ..mine }] {
        let refused = delete("recording_y.mp4", Some(file)).unwrap_err();
        assert_eq!(refused.kind, ErrorKind::PermissionDenied);
    }
    assert_eq!(removed.into_inner(), ["recording_x.mp4"]);
}

#[test]
fn the_game_mode_is_what_its_backend_accepted() {
    let mut mode = false;
    set_game_mode(&mut mode, true, |_| Ok(0)).unwrap();
    assert!(mode);
    assert!(set_game_mode(&mut mode, false, |_| Ok(-1)).is_err());
    assert!(mode);
}

#[test]
fn a_helper_that_exits_or_fails_acknowledges_nothing() {
    let exited = wait_for_recording_ack(
        RecordingStatus::Recording,
        HelperRead::End(HelperStatus::Exited),
    );
    assert_eq!(exited.unwrap().unwrap_err().kind, ErrorKind::BrokenPipe);
    let failed = wait_for_recording_ack(
        RecordingStatus::Recording,
        HelperRead::Failed(SessionError::new(ErrorKind::Other, "io")),
    );
    assert_eq!(failed.unwrap().unwrap_err().message, "io");
}

#[test]
fn the_clipboard_shows_its_history() {
    let entries = clipboard_entries(b"12\thello\n3\t[[ binary data 4 KiB png ]]\n").unwrap();
    assert_eq!(entries[0].id, "clipboard:12");
    assert_eq!(entries[0].preview, "hello");
    assert_eq!(entries[0].mime_type, "text/plain;charset=utf-8");
    assert_eq!(entries[0].byte_length, 5);
    assert_eq!(entries[1].mime_type, "application/octet-stream");
    assert_eq!(clipboard_entries(b"x\ty").unwrap_err().kind, ErrorKind::InvalidInput);
    assert_eq!(clipboard_entries(b"12").unwrap_err().kind, ErrorKind::InvalidData);
}

#[test]
fn only_a_listed_entry_is_pasted() {
    let runner = |spec: &CommandSpec| match spec.args[0].as_str() {
        "list" => output(b"7\thello\n"),
        "decode" => output(b"hello world"),
        _ => panic!("unexpected command"),
    };
    let written = RefCell::new(Vec::new());
    paste_clipboard(&runner, &id("clipboard:7"), |bytes| {
        written.borrow_mut().extend_from_slice(bytes);
        Ok(())
    })
    .unwrap();
    assert_eq!(written.into_inner(), b"hello world");
    let error = paste_clipboard(&runner, &id("clipboard:8"), |_| panic!("nothing is written"))
        .unwrap_err();
    assert_eq!(error.kind, ErrorKind::InvalidInput);
    assert_eq!(error.message, "unknown clipboard entry ID");
    let failed = paste_clipboard(&runner, &id("clipboard:7"), |_| {
        Err(SessionError::new(ErrorKind::BrokenPipe, "gone"))
    });
    assert_eq!(failed.unwrap_err().message, "gone");
    assert!(clear_clipboard(&|_: &CommandSpec| output(b"")).is_ok());
    assert!(clear_clipboard(&|_: &CommandSpec| Err(RunnerErrorKind::Spawn)).is_err());
}

#[test]
fn writing_to_the_clipboard_is_bounded() {
    assert!(check_write_deadline(4, 5).is_ok());
    assert_eq!(
        check_write_deadline(5, 5).unwrap_err().message,
        "clipboard write exceeded its total deadline"
    );
    assert_eq!(clipboard_written(2, 10, ClipboardWrite::Taken(3)).unwrap(), 5);
    assert_eq!(
        clipboard_written(2, 10, ClipboardWrite::Taken(0)).unwrap_err().kind,
        ErrorKind::WriteZero
    );
    assert_eq!(clipboard_written(2, 10, ClipboardWrite::Full(HelperStatus::Alive)).unwrap(), 2);
    assert_eq!(
        clipboard_written(2, 10, ClipboardWrite::Full(HelperStatus::Exited)).unwrap_err().kind,
        ErrorKind::BrokenPipe
    );
    let failed = ClipboardWrite::Failed(SessionError::new(ErrorKind::Other, "io"));
    assert_eq!(clipboard_written(2, 10, failed).unwrap_err().message, "io");
    assert!(wait_until(None, 4, 5).is_none());
    assert!(wait_until(Some(true), 9, 5).unwrap().is_ok());
    assert_eq!(
        wait_until(Some(false), 0, 5).unwrap().unwrap_err().message,
        "utility process failed"
    );
    assert_eq!(
        wait_until(None, 5, 5).unwrap().unwrap_err().message,
        "utility process exceeded its total deadline"
    );
    assert_eq!(
        wait_child(None, 5, 5).unwrap().unwrap_err().message,
        "utility process exceeded its deadline"
    );
}

#[test]
fn programs_and_services_must_be_there() {
    assert_eq!(
        ensure_executable(None).unwrap_err().message,
        "PATH is unavailable"
    );
    let plain = ProgramFile { regular: true, mode: 0o644 };
    let program = ProgramFile { regular: true, mode: 0o010 };
    let directory = ProgramFile { regular: false, mode: 0o755 };
    assert!(ensure_executable(Some(&vec![plain, directory, program])).is_ok());
    assert_eq!(
        ensure_executable(Some(&vec![plain, directory])).unwrap_err().message,
        "utility executable is unavailable"
    );
    assert!(require_bus_name(true).is_ok());
    assert_eq!(require_bus_name(false).unwrap_err().kind, ErrorKind::NotFound);
    let state = |cancelled, remaining| RunState { cancelled, remaining };
    assert_eq!(bus_name_budget(state(false, 9_000)).unwrap(), 2_000);
    assert_eq!(bus_name_budget(state(false, 5)).unwrap(), 5);
    assert_eq!(
        bus_name_budget(state(false, 0)).unwrap_err().message,
        "D-Bus availability probe exceeded its deadline"
    );
    assert_eq!(
        ensure_run_active(state(true, 5), "game-mode polling").unwrap_err().message,
        "game-mode polling was cancelled"
    );
    assert_eq!(
        bus_error(Some("org.freedesktop.DBus.Error.NoReply"), "x").kind,
        ErrorKind::TimedOut
    );
}

#[test]
fn the_idle_inhibitor_is_taken_and_released_once() {
    assert_eq!(set_idle_inhibited(true, false), InhibitorStep::Acquire);
    assert_eq!(set_idle_inhibited(false, true), InhibitorStep::Release);
    assert_eq!(set_idle_inhibited(true, true), InhibitorStep::Keep);
    assert_eq!(set_idle_inhibited(false, false), InhibitorStep::Keep);
}

#[test]
fn readings_become_states() {
    let good = state(DesktopDomainId::GameMode, Ok(DesktopDomainValue::GameMode(true)));
    assert_eq!(good.status(), CapabilityAvailability::Available);
    assert_eq!(good.value(), Some(&DesktopDomainValue::GameMode(true)));
    let foreign = state(DesktopDomainId::GameMode, Ok(DesktopDomainValue::Screenshot));
    assert_eq!(foreign.status(), CapabilityAvailability::Parse);
    let failed = state(
        DesktopDomainId::Tray,
        Err(SessionError::new(ErrorKind::NotFound, " ")),
    );
    assert_eq!(failed.status(), CapabilityAvailability::Unavailable);
    assert_eq!(failed.diagnostic(), Some("utility provider failed"));
    let other = state(DesktopDomainId::Network, Ok(DesktopDomainValue::Screenshot));
    assert_eq!(
        other.diagnostic(),
        Some("utility service was assigned a non-utility domain")
    );
    for (kind, status) in [
        (ErrorKind::NotConnected, CapabilityAvailability::Unavailable),
        (ErrorKind::PermissionDenied, CapabilityAvailability::PermissionDenied),
        (ErrorKind::TimedOut, CapabilityAvailability::Timeout),
        (ErrorKind::InvalidInput, CapabilityAvailability::Parse),
        (ErrorKind::Unsupported, CapabilityAvailability::Unsupported),
        (ErrorKind::Other, CapabilityAvailability::Error),
    ] {
        let read = state_for_poll(DesktopDomainId::Clipboard, Err(SessionError::new(kind, "x")));
        assert_eq!(read.unwrap().status(), status);
    }
    assert!(state_for_poll(DesktopDomainId::Audio, Ok(DesktopDomainValue::Screenshot)).is_err());
}

#[test]
fn a_command_is_followed_by_a_reading_of_its_domain() {
    let command = UtilityCommand::SetGameMode { enabled: true };
    assert_eq!(domain_changed_by(&command), DesktopDomainId::GameMode);
    let done = execute(
        &command,
        |_| Ok(()),
        |domain| {
            assert_eq!(domain, DesktopDomainId::GameMode);
            DesktopDomainState::available(domain, DesktopDomainValue::GameMode(true)).unwrap()
        },
    )
    .unwrap();
    assert_eq!(done.value(), Some(&DesktopDomainValue::GameMode(true)));
    let failed = execute(
        &command,
        |_| Err(SessionError::new(ErrorKind::Other, "no")),
        |_| panic!("nothing is read"),
    );
    assert_eq!(failed.unwrap_err().message, "no");
}

#[test]
fn a_utility_producer_reports_its_own_domain() {
    assert_eq!(
        UtilityProducer::new(DesktopDomainId::Audio).err().unwrap().message,
        "utility producer was assigned a non-utility domain"
    );
    let producer = UtilityProducer::new(DesktopDomainId::Tray).unwrap();
    assert_eq!(producer.domain(), DesktopDomainId::Tray);
    assert_eq!(producer.initial(None).diagnostic(), Some("utility probe worker failed"));
    assert!(producer.polled(None, true).is_none());
    assert_eq!(
        producer.polled(None, false).unwrap().status(),
        CapabilityAvailability::Error
    );
    let error = || SessionError::new(ErrorKind::TimedOut, "late");
    assert!(producer.polled(Some(Err(error())), true).is_none());
    assert_eq!(
        producer.polled(Some(Err(error())), false).unwrap().status(),
        CapabilityAvailability::Timeout
    );
}

//! The lock of the session and its suspension.

use std::cell::RefCell;
use std::rc::Rc;

use sleepy_session::command::RunState;
use sleepy_session::desktop::commands::DesktopSessionCommand;
use sleepy_session::desktop::domain::{
    CapabilityAvailability, DesktopDomainId, DesktopDomainValue, LockState,
};
use sleepy_session::desktop::locker::{
    check_lock_reply, check_locker_peer, check_suspend_reply, execute_session_with,
    execute_suspend_lifecycle, invoke_logind_action, locker_paths, locker_status, locker_timeout,
    remaining, validate_locker_path, wait_for_sleep_transition, FileFacts, FileKind, Found,
    LockerRequest, LockerStatus, LogindProducer, ProductionLogind, SuspendTransitionWait,
    TransitionEvent, TRANSITION_SLICE,
};
use sleepy_session::error::{ErrorKind, SessionError};

const UID: u32 = 1000;

fn facts(kind: FileKind, mode: u32) -> Found {
    Ok(FileFacts { kind, mode, uid: UID })
}

fn usual_files(path: &[u8]) -> Found {
    match path {
        b"/run/user/1000" => facts(FileKind::Directory, 0o700),
        b"/run/user/1000/sleepy" => facts(FileKind::Directory, 0o700),
        b"/run/user/1000/sleepy/locker.sock" => facts(FileKind::Socket, 0o600),
        b"/run/user/1000/sleepy/open.sock" => facts(FileKind::Socket, 0o666),
        b"/run/user/1000/sleepy/regular" => facts(FileKind::Other, 0o600),
        b"/run/user/1000/sleepy/linked.sock" => facts(FileKind::Link, 0o777),
        b"/runtime-link" => facts(FileKind::Link, 0o777),
        _ => Err(SessionError::new(ErrorKind::NotFound, "no such file")),
    }
}

fn validate(socket: &str, runtime: &str) -> Result<(), SessionError> {
    validate_locker_path(socket.as_bytes(), runtime.as_bytes(), UID, &usual_files)
}

#[test]
fn locker_client_sends_only_lock_and_requires_exact_secure_acknowledgement() {
    check_lock_reply(b"locked\n").unwrap();
    assert_eq!(LockerRequest::Lock.bytes(), b"lock\n");
}

#[test]
fn locker_client_rejects_any_reply_other_than_exact_locked_line() {
    for reply in [&b"error\n"[..], &b"locked\nextra"[..], &b"locked"[..]] {
        let read = &reply[..reply.len().min(LockerRequest::Lock.reply_limit() as usize)];
        let error = check_lock_reply(read).unwrap_err();
        assert_eq!(error.kind, ErrorKind::InvalidData);
    }
}

#[test]
fn locker_client_rejects_unprotected_or_out_of_runtime_socket_paths() {
    assert_eq!(
        validate("/run/user/1000/sleepy/open.sock", "/run/user/1000").unwrap_err().kind,
        ErrorKind::PermissionDenied
    );
    assert_eq!(
        validate("/elsewhere/locker.sock", "/run/user/1000").unwrap_err().kind,
        ErrorKind::PermissionDenied
    );
    assert!(validate("/run/user/1000/sleepy/locker.sock", "/run/user/1000").is_ok());
}

#[test]
fn locker_client_bounds_unconfirmed_lock_wait() {
    let error = locker_timeout(LockerRequest::Lock);
    assert_eq!(error.kind, ErrorKind::TimedOut);
    assert_eq!(error.message, "locker did not reply within its deadline");
    assert_eq!(
        locker_timeout(LockerRequest::Suspend).message,
        "locker did not establish a suspend hold within its deadline"
    );
}

#[test]
fn locker_status_uses_authoritative_exact_protocol_values() {
    for (reply, expected) in [
        (&b"locked\n"[..], LockerStatus::Locked),
        (&b"unlocked\n"[..], LockerStatus::Unlocked),
    ] {
        assert_eq!(locker_status(reply).unwrap(), expected);
    }
    assert_eq!(LockerRequest::Status.bytes(), b"status\n");
    assert_eq!(
        locker_status(b"unknown\n").unwrap_err().kind,
        ErrorKind::InvalidData
    );
}

#[test]
fn suspend_locker_transaction_keeps_connection_held_after_secure_ack() {
    assert!(check_suspend_reply(b"locked\n", false).is_ok());
    assert_eq!(LockerRequest::Suspend.bytes(), b"suspend\n");
}

#[test]
fn suspend_locker_transaction_rejects_bad_ack() {
    let error = check_suspend_reply(b"error!\n", false).unwrap_err();
    assert_eq!(error.kind, ErrorKind::InvalidData);
}

#[test]
fn suspend_locker_transaction_rejects_delayed_extra_byte_and_post_ack_close() {
    let extra = check_suspend_reply(b"locked\nx", false).unwrap_err();
    assert_eq!(extra.kind, ErrorKind::InvalidData);
    let closed = check_suspend_reply(b"locked\n", true).unwrap_err();
    assert_eq!(closed.kind, ErrorKind::UnexpectedEof);
}

#[test]
fn locker_path_rejects_symlink_non_socket_and_dirty_components() {
    for (socket, runtime) in [
        ("/run/user/1000/sleepy/regular", "/run/user/1000"),
        ("/run/user/1000/sleepy/linked.sock", "/run/user/1000"),
        ("/run/user/1000/sleepy/../sleepy/locker.sock", "/run/user/1000"),
        ("/runtime-link/sleepy/locker.sock", "/runtime-link"),
        ("run/user/1000/sleepy/locker.sock", "/run/user/1000"),
        ("/run/user/1000/sleepy/a/locker.sock", "/run/user/1000"),
        ("/run/user/1000/sleepy", "/run/user/1000"),
    ] {
        assert_eq!(
            validate(socket, runtime).unwrap_err().kind,
            ErrorKind::PermissionDenied,
            "{socket}"
        );
    }
    // Doubled separators and single dots name nothing.
    assert_eq!(
        validate_locker_path(
            b"/run//user/1000/./sleepy/locker.sock",
            b"/run/user/1000",
            UID,
            &|path: &[u8]| if path.ends_with(b"sock") {
                facts(FileKind::Socket, 0o600)
            } else {
                usual_files(path)
            },
        )
        .is_ok(),
        true
    );
    let missing = validate("/run/user/1000/sleepy/none.sock", "/run/user/1000").unwrap_err();
    assert_eq!(missing.kind, ErrorKind::NotFound);
    let other_user = |path: &[u8]| usual_files(path).map(|facts| FileFacts { uid: 1, ..facts });
    assert_eq!(
        validate_locker_path(
            b"/run/user/1000/sleepy/locker.sock",
            b"/run/user/1000",
            UID,
            &other_user
        )
        .unwrap_err()
        .message,
        "locker runtime path is not a protected owned directory"
    );
}

#[test]
fn suspend_lifecycle_releases_delay_only_for_prepare_and_hold_only_for_resume() {
    let steps = Rc::new(RefCell::new(Vec::new()));
    let record = |step: &'static str| {
        let steps = Rc::clone(&steps);
        move || steps.borrow_mut().push(step)
    };
    let resume_timeout = 40;
    let (inhibit, hold, suspend) = (record("inhibit"), record("hold"), record("suspend"));
    let (prepare, resume) = (record("prepare"), record("resume"));
    let (release, free, keep) =
        (record("release-inhibitor"), record("release-hold"), record("fail-closed-hold"));
    execute_suspend_lifecycle(
        || {
            inhibit();
            Ok("inhibitor")
        },
        || {
            hold();
            Ok("hold")
        },
        || {
            suspend();
            Ok(())
        },
        SuspendTransitionWait::new(resume_timeout, |expected, deadline: Option<u64>| {
            if expected {
                assert!(deadline.is_none());
                prepare();
            } else {
                assert_eq!(deadline, Some(1_000 + resume_timeout));
                resume();
            }
            Ok(())
        }),
        || 1_000,
        |inhibitor| {
            assert_eq!(inhibitor, "inhibitor");
            release()
        },
        |held| {
            assert_eq!(held, "hold");
            free()
        },
        |_| keep(),
    )
    .unwrap();
    assert_eq!(
        steps.borrow().as_slice(),
        [
            "inhibit",
            "hold",
            "suspend",
            "prepare",
            "release-inhibitor",
            "resume",
            "release-hold"
        ]
    );
}

#[test]
fn suspend_lifecycle_keeps_locker_hold_on_transition_error() {
    let steps = RefCell::new(Vec::new());
    let error = execute_suspend_lifecycle(
        || Ok("inhibitor"),
        || Ok("hold"),
        || Ok(()),
        SuspendTransitionWait::new(20, |expected, deadline: Option<u64>| {
            if expected {
                steps.borrow_mut().push("prepare");
                return Ok(());
            }
            assert!(deadline.is_some(), "resume must be bounded");
            steps.borrow_mut().push("resume-timeout");
            Err(SessionError::new(ErrorKind::TimedOut, "fixture"))
        }),
        || 0,
        |_| steps.borrow_mut().push("release-inhibitor"),
        |_| steps.borrow_mut().push("unexpected-release-hold"),
        |_| steps.borrow_mut().push("fail-closed-hold"),
    )
    .unwrap_err();
    assert_eq!(error.kind, ErrorKind::TimedOut);
    assert_eq!(
        steps.borrow().as_slice(),
        ["prepare", "release-inhibitor", "resume-timeout", "fail-closed-hold"]
    );
}

#[test]
fn suspend_lifecycle_ends_at_the_first_failure() {
    let fail = || SessionError::new(ErrorKind::Other, "no");
    let run = |failing: usize| {
        let steps = RefCell::new(Vec::new());
        let _ = execute_suspend_lifecycle(
            || if failing == 0 { Err(fail()) } else { Ok(()) },
            || if failing == 1 { Err(fail()) } else { Ok(()) },
            || if failing == 2 { Err(fail()) } else { Ok(()) },
            SuspendTransitionWait::new(1, |expected, _| {
                if failing == 3 && expected {
                    Err(fail())
                } else {
                    Ok(())
                }
            }),
            || 0,
            |_| steps.borrow_mut().push("inhibitor"),
            |_| steps.borrow_mut().push("release"),
            |_| steps.borrow_mut().push("keep"),
        );
        steps.into_inner()
    };
    assert!(run(0).is_empty());
    assert_eq!(run(1), ["inhibitor"]);
    assert_eq!(run(2), ["keep", "inhibitor"]);
    assert_eq!(run(3), ["keep", "inhibitor"]);
    assert_eq!(run(4), ["inhibitor", "release"]);
}

#[test]
fn injected_session_policy_uses_private_locker_and_gates_suspend_before_action() {
    let steps = RefCell::new(Vec::new());
    let locked = execute_session_with(
        DesktopSessionCommand::Lock,
        || {
            steps.borrow_mut().push("locker-lock");
            Ok(())
        },
        || panic!("lock does not enter suspend lifecycle"),
        |command| {
            steps.borrow_mut().push(match command {
                DesktopSessionCommand::Lock => "unexpected-logind-lock",
                _ => "unexpected",
            });
            Ok(())
        },
    )
    .unwrap()
    .unwrap();
    assert_eq!(steps.into_inner(), ["locker-lock"]);
    assert_eq!(locked.status(), CapabilityAvailability::Available);
    assert_eq!(
        locked.value(),
        Some(&DesktopDomainValue::Lock(LockState { secure: true }))
    );

    let steps = RefCell::new(Vec::new());
    let error = execute_session_with(
        DesktopSessionCommand::Suspend,
        || panic!("suspend does not use the one-shot lock request"),
        || {
            steps.borrow_mut().push("suspend-lifecycle");
            Err(SessionError::new(ErrorKind::TimedOut, "fixture timeout"))
        },
        |command| {
            steps.borrow_mut().push(match command {
                DesktopSessionCommand::Suspend => "suspend",
                _ => "unexpected",
            });
            Ok(())
        },
    )
    .unwrap_err();
    assert_eq!(error.kind, ErrorKind::TimedOut);
    assert_eq!(steps.into_inner(), ["suspend-lifecycle"]);

    let steps = RefCell::new(Vec::new());
    assert!(execute_session_with(
        DesktopSessionCommand::Suspend,
        || panic!("suspend does not use the one-shot lock request"),
        || {
            steps.borrow_mut().push("suspend-lifecycle");
            Ok(())
        },
        |command| {
            steps.borrow_mut().push(match command {
                DesktopSessionCommand::Suspend => "suspend",
                _ => "unexpected",
            });
            Ok(())
        },
    )
    .unwrap()
    .is_none());
    assert_eq!(steps.into_inner(), ["suspend-lifecycle"]);

    let actions = RefCell::new(Vec::new());
    assert!(execute_session_with(
        DesktopSessionCommand::Reboot,
        || panic!("reboot does not request the locker"),
        || panic!("reboot does not enter suspend lifecycle"),
        |command| {
            actions.borrow_mut().push(command);
            Ok(())
        },
    )
    .unwrap()
    .is_none());
    assert_eq!(actions.into_inner(), [DesktopSessionCommand::Reboot]);
}

#[test]
fn calls_to_the_login_manager_are_fixed() {
    let call = |command, session| invoke_logind_action(command, session);
    let logout = call(DesktopSessionCommand::Logout, Some("c2")).unwrap();
    assert_eq!(logout.method, "TerminateSession");
    assert_eq!(logout.session_id.as_deref(), Some("c2"));
    for session in [None, Some(""), Some("a\0")] {
        let error = call(DesktopSessionCommand::Logout, session).err().unwrap();
        assert_eq!(error.kind, ErrorKind::NotFound);
        assert_eq!(error.message, "XDG session ID is unavailable");
    }
    assert_eq!(call(DesktopSessionCommand::Suspend, None).unwrap().method, "Suspend");
    assert_eq!(call(DesktopSessionCommand::Reboot, None).unwrap().method, "Reboot");
    assert_eq!(call(DesktopSessionCommand::PowerOff, None).unwrap().method, "PowerOff");
    assert_eq!(
        call(DesktopSessionCommand::Lock, None).err().unwrap().message,
        "session lock is owned exclusively by the private locker endpoint"
    );
}

#[test]
fn sleep_transitions_are_waited_for_in_order() {
    let step = wait_for_sleep_transition;
    assert_eq!(step(TransitionEvent::Observed(true), true, 0, None).unwrap(), None);
    assert_eq!(
        step(TransitionEvent::Observed(false), true, 0, None).unwrap_err().message,
        "logind reported an invalid sleep transition order"
    );
    assert_eq!(
        step(TransitionEvent::Disconnected, true, 0, None).unwrap_err().kind,
        ErrorKind::BrokenPipe
    );
    assert_eq!(
        step(TransitionEvent::Nothing, true, 0, None).unwrap(),
        Some(TRANSITION_SLICE)
    );
    assert_eq!(step(TransitionEvent::Nothing, true, 7, Some(10)).unwrap(), Some(3));
    assert_eq!(
        step(TransitionEvent::Nothing, true, 10, Some(10)).unwrap_err().kind,
        ErrorKind::TimedOut
    );
    assert_eq!(remaining(10, 3).unwrap(), 7);
    assert_eq!(
        remaining(3, 3).unwrap_err().message,
        "logind operation exceeded its total deadline"
    );
}

#[test]
fn the_locker_is_found_below_the_runtime_directory() {
    let (runtime, socket) = locker_paths(Some(b"/run/user/1".to_vec()), None).unwrap();
    assert_eq!(runtime, b"/run/user/1");
    assert_eq!(socket, b"/run/user/1/sleepy/locker.sock");
    let (_, given) =
        locker_paths(Some(b"/run/".to_vec()), Some(b"/x.sock".to_vec())).unwrap();
    assert_eq!(given, b"/x.sock");
    let (_, empty) = locker_paths(Some(b"/run/".to_vec()), Some(Vec::new())).unwrap();
    assert_eq!(empty, b"/run/sleepy/locker.sock");
    for runtime in [None, Some(Vec::new())] {
        assert_eq!(
            locker_paths(runtime, None).unwrap_err().message,
            "XDG runtime directory is unavailable"
        );
    }
    assert!(check_locker_peer(5, 5).is_ok());
    assert_eq!(
        check_locker_peer(5, 6).unwrap_err().message,
        "locker socket peer UID mismatch"
    );
}

#[test]
fn the_state_of_the_lock_is_what_the_locker_says() {
    let locked = ProductionLogind.state(Ok(LockerStatus::Locked), None).unwrap();
    assert_eq!(
        locked.value(),
        Some(&DesktopDomainValue::Lock(LockState { secure: true }))
    );
    let open = ProductionLogind.state(Ok(LockerStatus::Unlocked), None).unwrap();
    assert_eq!(
        open.value(),
        Some(&DesktopDomainValue::Lock(LockState { secure: false }))
    );
    let ended = RunState { cancelled: true, remaining: 1 };
    assert_eq!(
        ProductionLogind
            .state(Ok(LockerStatus::Locked), Some(ended))
            .unwrap_err()
            .message,
        "locker status polling was cancelled"
    );
    let budget = |remaining| {
        ProductionLogind.state_budget(RunState { cancelled: false, remaining })
    };
    assert_eq!(budget(5_000).unwrap(), 1_750);
    assert_eq!(budget(5).unwrap(), 5);
    assert_eq!(budget(0).unwrap_err().kind, ErrorKind::TimedOut);
    assert_eq!(LogindProducer.domain(), DesktopDomainId::Lock);
    assert_eq!(
        LogindProducer.probe(None).diagnostic(),
        Some("locker status worker failed")
    );
    let failed = LogindProducer.probe(Some(Err(SessionError::new(ErrorKind::NotFound, "x"))));
    assert_eq!(failed.status(), CapabilityAvailability::Unavailable);
    assert_eq!(LogindProducer.probe(Some(Ok(locked))).domain(), DesktopDomainId::Lock);
}

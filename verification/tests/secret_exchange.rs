//! Challenges, requests and leases of network secrets.

use std::sync::atomic::{AtomicBool, AtomicUsize, Ordering};
use std::sync::Arc;

use sleepy_session::desktop::secret_agent::{
    authorize_secret_peer, begin_get_secrets, bus_error, check_network_manager_owner,
    check_unique_owner, close_conversation, constant_time_equal, frame_length, hand_in,
    handle_network_manager_method, open_conversation, read_cancel_args, read_connection_and_path,
    secret_error_text, validate_secret_socket_path, write_binary_frame, ArgumentFault,
    BusArgument, ConversationEnd, LockedSecret, NetworkManagerPeerAuthority,
    NetworkManagerSecretExchange, NetworkSecretExchange, SecretBroker, SecretRequestKey,
    SecretRequestLease, SecretWait, SecretZeroizeObserver, UnavailableNetworkManagerExchange,
    MAX_SECRET_FRAME, SECRET_DEADLINE,
};
use sleepy_session::error::{ErrorKind, SessionError};

#[derive(Default)]
struct ZeroizeAudit {
    calls: AtomicUsize,
    nonzero_bytes: AtomicUsize,
}

impl SecretZeroizeObserver for ZeroizeAudit {
    fn after_zeroize(&self, bytes: &[u8]) {
        self.calls.fetch_add(1, Ordering::SeqCst);
        self.nonzero_bytes.fetch_add(
            bytes.iter().filter(|byte| **byte != 0).count(),
            Ordering::SeqCst,
        );
    }
}

fn key(path: &str) -> SecretRequestKey {
    SecretRequestKey {
        connection_path: path.to_string(),
        setting_name: "802-11-wireless-security".to_string(),
    }
}

fn secret(bytes: &[u8]) -> LockedSecret {
    LockedSecret::from_frame(bytes.to_vec(), 0, None)
}

fn argument(signature: &str, text: &str) -> BusArgument {
    BusArgument { signature: signature.to_string(), text: text.to_string() }
}

fn wanted(setting: &str) -> Vec<BusArgument> {
    vec![
        argument("a{sa{sv}}", ""),
        argument("o", "/org/freedesktop/NetworkManager/Settings/7"),
        argument("s", setting),
        argument("as", ""),
        argument("u", ""),
    ]
}

#[test]
fn network_manager_peer_authority_pins_unique_sender_across_restart() {
    let mut authority = NetworkManagerPeerAuthority::new(":1.42".into());
    assert!(authority.authorize(Some(":1.42")).is_ok());
    assert_eq!(
        authority.authorize(Some(":1.43")).unwrap_err().kind,
        ErrorKind::PermissionDenied
    );

    authority.replace(None);
    assert!(authority.authorize(Some(":1.42")).is_err());
    authority.replace(Some(":1.43".into()));
    assert!(authority.authorize(Some(":1.43")).is_ok());
}

#[test]
fn cancellation_token_survives_submit_until_dbus_reply_completion() {
    let mut exchange = NetworkManagerSecretExchange::new();
    let key = key("/org/freedesktop/NetworkManager/Settings/1");
    let mut pending = exchange.begin(key.clone(), 0).unwrap();
    let lease = exchange.acquire_lease(0).unwrap();
    exchange.submit(&lease, &mut secret(b"super-secret"), 0).unwrap();

    assert!(exchange.is_pending());
    exchange.cancel_matching(&key);
    assert!(exchange.is_cancelled(&pending));
    assert!(!exchange.is_pending());
    match exchange.finish_get_secrets(&mut pending, 0) {
        SecretWait::Failed(error) => assert_eq!(error.kind, ErrorKind::Interrupted),
        _ => panic!("a cancelled request yields no secret"),
    }
}

#[test]
fn stale_dbus_reply_completion_cannot_remove_restarted_request() {
    let mut exchange = NetworkManagerSecretExchange::new();
    let key = key("/org/freedesktop/NetworkManager/Settings/1");
    let old = exchange.begin(key.clone(), 0).unwrap();
    exchange.cancel_matching(&key);
    let restarted = exchange.begin(key, 0).unwrap();

    exchange.complete(&old.id);
    assert!(exchange.is_pending());
    assert_eq!(exchange.pending_id(), Some(restarted.id));
}

#[test]
fn completing_a_request_that_is_not_open_changes_nothing() {
    let mut exchange = NetworkManagerSecretExchange::new();
    let key = key("/org/freedesktop/NetworkManager/Settings/1");
    let old = exchange.begin(key.clone(), 0).unwrap();
    exchange.cancel_matching(&key);
    exchange.complete(&old.id);
    assert!(exchange.is_cancelled(&old));

    exchange.release(old);
    let next = exchange.begin(key, 0).unwrap();
    assert!(!exchange.is_cancelled(&next));
}

#[test]
fn a_request_that_ends_wipes_the_secret_that_it_holds() {
    let audit = Arc::new(ZeroizeAudit::default());
    let mut exchange = NetworkManagerSecretExchange::new();
    let request = exchange
        .begin(key("/org/freedesktop/NetworkManager/Settings/1"), 0)
        .unwrap();
    let lease = exchange.acquire_lease(0).unwrap();
    let mut held = LockedSecret::from_frame(b"unread".to_vec(), 0, Some(audit.clone()));
    exchange.submit(&lease, &mut held, 0).unwrap();
    held.erase();
    assert_eq!(audit.calls.load(Ordering::SeqCst), 0);

    exchange.complete(&request.id);
    assert!(!exchange.is_pending());
    assert_eq!(audit.calls.load(Ordering::SeqCst), 1);
    assert_eq!(audit.nonzero_bytes.load(Ordering::SeqCst), 0);
}

#[test]
fn a_request_without_a_receiver_takes_no_answer() {
    let mut exchange = NetworkManagerSecretExchange::new();
    let request = exchange
        .begin(key("/org/freedesktop/NetworkManager/Settings/1"), 0)
        .unwrap();
    let lease = exchange.acquire_lease(0).unwrap();
    exchange.release(request);
    let refused = exchange.submit(&lease, &mut secret(b"late"), 0).unwrap_err();
    assert_eq!(refused.kind, ErrorKind::BrokenPipe);
}

#[test]
fn stale_socket_lease_cannot_submit_request_a_secret_into_request_b() {
    let audit = Arc::new(ZeroizeAudit::default());
    let mut exchange = NetworkManagerSecretExchange::new();
    let key_a = key("/org/freedesktop/NetworkManager/Settings/1");
    let key_b = key("/org/freedesktop/NetworkManager/Settings/2");
    let request_a = exchange.begin(key_a.clone(), 0).unwrap();
    let lease_a = exchange.acquire_lease(0).unwrap();
    exchange.cancel_matching(&key_a);
    let mut request_b = exchange.begin(key_b, 0).unwrap();
    let mut secret =
        LockedSecret::from_frame(b"request-a-sentinel".to_vec(), 0, Some(audit.clone()));

    assert_eq!(
        exchange.submit(&lease_a, &mut secret, 0).unwrap_err().kind,
        ErrorKind::NotConnected
    );
    assert!(matches!(
        exchange.finish_get_secrets(&mut request_b, 0),
        SecretWait::Pending(_)
    ));
    assert!(exchange.is_cancelled(&request_a));
    assert_eq!(audit.calls.load(Ordering::SeqCst), 1);
    assert_eq!(audit.nonzero_bytes.load(Ordering::SeqCst), 0);
    assert!(secret.expose().is_empty());
}

#[test]
fn owner_revocation_that_wins_prevents_secret_bearing_send() {
    let mut exchange = NetworkManagerSecretExchange::new();
    let request = exchange
        .begin(key("/org/freedesktop/NetworkManager/Settings/3"), 0)
        .unwrap();
    exchange.cancel();
    let sent = AtomicBool::new(false);

    assert!(!exchange.send_reply_if_live(&request.id, || {
        sent.store(true, Ordering::Release);
        true
    }));
    assert!(!sent.load(Ordering::Acquire));
}

#[test]
fn correlated_secret_is_retained_through_typed_dbus_reply() {
    let mut exchange = NetworkManagerSecretExchange::new();
    let mut pending = exchange
        .begin(key("/org/freedesktop/NetworkManager/Settings/7"), 0)
        .unwrap();
    let lease = exchange.acquire_lease(0).unwrap();
    exchange
        .submit(&lease, &mut secret(b"correct-horse-battery-staple"), 0)
        .unwrap();

    let request_id = pending.id;
    let retained = match exchange.finish_get_secrets(&mut pending, 0) {
        SecretWait::Ready(secret) => secret,
        _ => panic!("the secret that was handed in is found"),
    };
    assert!(exchange.send_reply_if_live(&request_id, || true));
    assert_eq!(retained.expose(), b"correct-horse-battery-staple");
    exchange.complete(&request_id);
    assert!(!exchange.is_pending());
}

#[test]
fn a_challenge_is_answered_once_and_exposes_what_follows_it() {
    let mut broker = SecretBroker::new();
    let id = [7u8; 16];
    broker.pose(id, 100).unwrap();
    let mut response = id.to_vec();
    response.extend_from_slice(b"psk");
    let secret = broker.accept_response(response.clone(), 99).unwrap();
    assert_eq!(secret.expose(), b"psk");
    let error = broker.accept_response(response, 99).err().unwrap();
    assert_eq!(error.kind, ErrorKind::PermissionDenied);
    assert_eq!(
        error.message,
        "network secret challenge is absent or was already consumed"
    );
}

#[test]
fn wrong_late_and_misfit_answers_are_refused_and_wiped() {
    let audit = Arc::new(ZeroizeAudit::default());
    let id = [7u8; 16];
    let mut right = id.to_vec();
    right.push(1);

    let mut broker = SecretBroker::with_observer(audit.clone());
    broker.pose(id, 100).unwrap();
    let late = broker.accept_response(right.clone(), 100).err().unwrap();
    assert_eq!(late.kind, ErrorKind::TimedOut);
    assert_eq!(late.message, "network secret challenge exceeded its total deadline");

    broker.pose(id, 100).unwrap();
    let wrong = broker.accept_response(vec![8u8; 17], 0).err().unwrap();
    assert_eq!(wrong.kind, ErrorKind::PermissionDenied);
    assert_eq!(wrong.message, "network secret challenge did not match");

    broker.pose(id, 100).unwrap();
    let short = broker.accept_response(vec![7u8; 16], 0).err().unwrap();
    assert_eq!(short.kind, ErrorKind::InvalidData);
    let long = broker.accept_response(vec![7u8; MAX_SECRET_FRAME + 1], 0).err().unwrap();
    assert_eq!(long.message, "network secret frame violates its bounded size");
    assert_eq!(audit.calls.load(Ordering::SeqCst), 4);
    assert_eq!(audit.nonzero_bytes.load(Ordering::SeqCst), 0);
    // An answer of an impossible size leaves the challenge open.
    assert!(broker.accept_response(right, 0).is_ok());
}

#[test]
fn one_challenge_is_open_at_a_time_and_is_drawn_anew() {
    let mut broker = SecretBroker::new();
    let first = broker.issue(5).unwrap();
    assert_eq!(broker.issue(5).unwrap_err().kind, ErrorKind::WouldBlock);
    broker.cancel_pending();
    let second = broker.issue(5).unwrap();
    assert_ne!(first, second);
    // The version and the variant of an identifier drawn at random.
    assert_eq!(first[6] >> 4, 4);
    assert_eq!(first[8] >> 6, 2);
    let mut answer = second.to_vec();
    answer.push(9);
    let late = broker.accept_response(answer, 5 + SECRET_DEADLINE).err().unwrap();
    assert_eq!(late.kind, ErrorKind::TimedOut);
}

#[test]
fn a_secret_is_exposed_behind_its_offset_and_wiped() {
    let audit = Arc::new(ZeroizeAudit::default());
    let mut secret = LockedSecret::from_frame(vec![1, 2, 3, 4], 2, Some(audit.clone()));
    assert_eq!(secret.expose(), &[3, 4]);
    secret.erase();
    assert!(secret.expose().is_empty());
    assert_eq!(audit.calls.load(Ordering::SeqCst), 1);
    assert!(LockedSecret::from_frame(vec![1], 3, None).expose().is_empty());
}

#[test]
fn leases_end_with_their_request() {
    let mut exchange = NetworkManagerSecretExchange::new();
    assert_eq!(
        exchange.acquire_lease(0).err().unwrap().message,
        "NetworkManager did not request a secret"
    );
    let mut pending = exchange.begin_as([1; 16], key("/a"), 0).unwrap();
    assert_eq!(
        exchange.begin(key("/b"), 0).err().unwrap().message,
        "NetworkManager already has a pending secret request"
    );
    assert_eq!(
        exchange.acquire_lease(SECRET_DEADLINE).err().unwrap().message,
        "NetworkManager secret request is no longer live"
    );
    let lease = exchange.acquire_lease(0).unwrap();
    assert_eq!(lease.deadline(), SECRET_DEADLINE);
    // The same words do not make a lease of the request.
    let forged = SecretRequestLease::new(
        [1; 16],
        "/a".to_string(),
        "802-11-wireless-security".to_string(),
        SECRET_DEADLINE,
    );
    assert_eq!(
        exchange.submit(&forged, &mut secret(b"x"), 0).unwrap_err().message,
        "NetworkManager secret request lease is stale"
    );
    exchange.submit(&lease, &mut secret(b"x"), 0).unwrap();
    assert_eq!(
        exchange.submit(&lease, &mut secret(b"y"), 0).unwrap_err().kind,
        ErrorKind::BrokenPipe
    );
    match exchange.finish_get_secrets(&mut pending, 1) {
        SecretWait::Ready(found) => assert_eq!(found.expose(), b"x"),
        _ => panic!("the first secret counts"),
    }
    assert_eq!(
        exchange.submit(&lease, &mut secret(b"z"), 1).unwrap_err().kind,
        ErrorKind::BrokenPipe
    );
}

#[test]
fn waiting_for_a_secret_ends_with_its_deadline() {
    let mut exchange = NetworkManagerSecretExchange::new();
    let mut pending = exchange.begin(key("/a"), 10).unwrap();
    assert!(matches!(
        exchange.finish_get_secrets(&mut pending, 10),
        SecretWait::Pending(SECRET_DEADLINE)
    ));
    assert!(matches!(
        exchange.finish_get_secrets(&mut pending, 11),
        SecretWait::Pending(left) if left == SECRET_DEADLINE - 1
    ));
    match exchange.finish_get_secrets(&mut pending, 10 + SECRET_DEADLINE) {
        SecretWait::Failed(error) => {
            assert_eq!(error.kind, ErrorKind::TimedOut);
            assert_eq!(error.message, "network secret response exceeded its total deadline");
        }
        _ => panic!("the deadline has passed"),
    }
    assert!(!exchange.is_pending());
    match exchange.finish_get_secrets(&mut pending, 11) {
        SecretWait::Failed(error) => {
            assert_eq!(error.message, "network secret response channel closed")
        }
        _ => panic!("nothing can come any more"),
    }
}

#[test]
fn a_wait_that_begins_too_late_finds_nothing() {
    let audit = Arc::new(ZeroizeAudit::default());
    let mut exchange = NetworkManagerSecretExchange::new();
    let mut pending = exchange.begin(key("/a"), 0).unwrap();
    let lease = exchange.acquire_lease(0).unwrap();
    let mut held = LockedSecret::from_frame(b"late".to_vec(), 0, Some(audit.clone()));
    exchange.submit(&lease, &mut held, 0).unwrap();
    match exchange.finish_get_secrets(&mut pending, SECRET_DEADLINE) {
        SecretWait::Failed(error) => assert_eq!(error.kind, ErrorKind::TimedOut),
        _ => panic!("the deadline has passed"),
    }
    assert!(!exchange.is_pending());
    exchange.release(pending);
    assert_eq!(audit.calls.load(Ordering::SeqCst), 1);
}

#[test]
fn only_the_answer_to_the_challenge_is_handed_on() {
    let audit = Arc::new(ZeroizeAudit::default());
    let mut exchange = NetworkManagerSecretExchange::new();
    let mut pending = exchange.begin(key("/a"), 0).unwrap();
    let lease = exchange.acquire_lease(0).unwrap();
    let mut broker = SecretBroker::with_observer(audit.clone());
    let answer = |challenge: u8| [&[challenge; 16][..], b"psk"].concat();

    broker.pose([7; 16], 100).unwrap();
    let mut wrong = broker.hold(answer(8));
    let refused = hand_in(&mut broker, &mut exchange, &lease, &mut wrong, 1).unwrap_err();
    assert_eq!(refused.message, "network secret challenge did not match");
    assert_eq!(audit.calls.load(Ordering::SeqCst), 1);
    assert!(matches!(exchange.finish_get_secrets(&mut pending, 1), SecretWait::Pending(_)));

    broker.pose([7; 16], 100).unwrap();
    let mut right = broker.hold(answer(7));
    hand_in(&mut broker, &mut exchange, &lease, &mut right, 1).unwrap();
    assert!(right.expose().is_empty());
    match exchange.finish_get_secrets(&mut pending, 1) {
        SecretWait::Ready(secret) => assert_eq!(secret.expose(), b"psk"),
        _ => panic!("the secret is found"),
    }
    broker.pose([7; 16], 100).unwrap();
    let mut late = broker.hold(answer(7));
    let refused = hand_in(&mut broker, &mut exchange, &lease, &mut late, 1).unwrap_err();
    assert_eq!(refused.kind, ErrorKind::BrokenPipe);
    assert_eq!(audit.calls.load(Ordering::SeqCst), 2);

    assert!(authorize_secret_peer(5, 5).is_ok());
    assert_eq!(authorize_secret_peer(5, 6).unwrap_err().kind, ErrorKind::PermissionDenied);
}

#[test]
fn a_secret_that_is_no_text_is_refused() {
    let mut exchange = NetworkManagerSecretExchange::new();
    let mut pending = exchange.begin(key("/a"), 0).unwrap();
    let lease = exchange.acquire_lease(0).unwrap();
    exchange.submit(&lease, &mut secret(&[0xff, 0xfe]), 0).unwrap();
    match exchange.finish_get_secrets(&mut pending, 0) {
        SecretWait::Failed(error) => {
            assert_eq!(error.kind, ErrorKind::InvalidData);
            assert_eq!(error.message, "NetworkManager Wi-Fi secret must be UTF-8");
        }
        _ => panic!("bytes that are no text are refused"),
    }
}

#[test]
fn a_reply_that_was_begun_is_not_cancelled_by_its_key() {
    let mut exchange = NetworkManagerSecretExchange::new();
    let pending = exchange.begin(key("/a"), 0).unwrap();
    assert!(exchange.send_reply_if_live(&pending.id, || true));
    exchange.cancel_matching(&key("/a"));
    assert!(exchange.is_pending());
    exchange.cancel();
    assert!(!exchange.is_pending());
}

#[test]
fn without_network_manager_nothing_is_exchanged() {
    let mut exchange = UnavailableNetworkManagerExchange;
    assert_eq!(
        exchange.acquire_lease(0).err().unwrap().kind,
        ErrorKind::NotConnected
    );
    let lease = SecretRequestLease::new([0; 16], "/a".into(), "s".into(), 1);
    let mut held = secret(b"psk");
    assert_eq!(
        exchange.submit(&lease, &mut held, 0).unwrap_err().message,
        "NetworkManager secret-agent exchange is unavailable"
    );
    assert!(held.expose().is_empty());
}

#[test]
fn an_owner_change_revokes_until_the_new_owner_is_resolved() {
    let mut exchange = NetworkManagerSecretExchange::new();
    let pending = exchange.begin(key("/a"), 0).unwrap();
    let mut authority = NetworkManagerPeerAuthority::new(":1.1".into());
    assert!(!authority.owner_changed(&mut exchange, "org.example.Other", ":1.9"));
    assert!(exchange.is_pending());
    assert!(authority.authorize(Some(":1.1")).is_ok());

    assert!(authority.owner_changed(&mut exchange, "org.freedesktop.NetworkManager", ":1.2"));
    assert!(exchange.is_cancelled(&pending));
    assert!(authority.authorize(Some(":1.1")).is_err());
    assert!(!authority.owner_resolved(Ok(":1.3".to_string()), ":1.2"));
    assert!(authority.authorize(Some(":1.3")).is_err());
    assert!(authority.owner_resolved(Ok(":1.2".to_string()), ":1.2"));
    assert!(authority.authorize(Some(":1.2")).is_ok());
    authority.registered(Err(SessionError::new(ErrorKind::Other, "refused")));
    assert!(authority.authorize(Some(":1.2")).is_err());
    assert!(!authority.owner_changed(&mut exchange, "org.freedesktop.NetworkManager", ""));
    assert_eq!(
        authority.authorize(None).unwrap_err().message,
        "NetworkManager request has no authenticated D-Bus sender"
    );
}

#[test]
fn only_a_privileged_unique_owner_is_trusted() {
    assert!(check_unique_owner(":1.5").is_ok());
    assert_eq!(
        check_unique_owner("org.freedesktop.NetworkManager").unwrap_err().message,
        "NetworkManager did not resolve to a unique D-Bus owner"
    );
    assert!(check_network_manager_owner(":1.5", Some(0)).is_ok());
    assert!(check_network_manager_owner(":1.5", None).is_ok());
    assert_eq!(
        check_network_manager_owner(":1.5", Some(1000)).unwrap_err().message,
        "NetworkManager D-Bus owner is not privileged"
    );
}

#[test]
fn requests_for_secrets_are_read_by_their_signatures() {
    let key = begin_get_secrets(&wanted("802-11-wireless-security")).ok().unwrap();
    assert_eq!(key.connection_path, "/org/freedesktop/NetworkManager/Settings/7");
    assert_eq!(key.setting_name, "802-11-wireless-security");

    match begin_get_secrets(&wanted("vpn")) {
        Err(ArgumentFault::Failed(error)) => {
            assert_eq!(error.kind, ErrorKind::Unsupported);
            assert_eq!(error.message, "only Wi-Fi security secrets are supported");
        }
        _ => panic!("other settings are not supported"),
    }
    let mut mismatched = wanted("802-11-wireless-security");
    mismatched[1].signature = "s".to_string();
    assert!(matches!(
        begin_get_secrets(&mismatched),
        Err(ArgumentFault::Unreadable(1))
    ));
    let mut trailing = wanted("802-11-wireless-security");
    trailing.push(argument("s", ""));
    match begin_get_secrets(&trailing) {
        Err(ArgumentFault::Failed(error)) => {
            assert_eq!(error.message, "NetworkManager secret request has trailing arguments")
        }
        _ => panic!("trailing arguments are refused"),
    }
    match begin_get_secrets(&[argument("a{sa{sv}}", "")]) {
        Err(ArgumentFault::Failed(error)) => assert_eq!(
            error.message,
            "NetworkManager connection settings has an invalid D-Bus type"
        ),
        _ => panic!("the settings must be followed by others"),
    }
    let mut hints = wanted("802-11-wireless-security");
    hints[3].signature = "u".to_string();
    match begin_get_secrets(&hints) {
        Err(ArgumentFault::Failed(error)) => {
            assert_eq!(error.message, "NetworkManager secret hints has an invalid D-Bus type")
        }
        _ => panic!("the hints are a list of texts"),
    }
    let cancelled = read_cancel_args(&[argument("o", "/a"), argument("s", "b")]).ok().unwrap();
    assert_eq!(cancelled.connection_path, "/a");
    assert!(read_connection_and_path(&[argument("a{sa{sv}}", ""), argument("o", "/a")]).is_ok());
}

#[test]
fn methods_of_the_agent_are_dispatched_by_name() {
    let mut exchange = NetworkManagerSecretExchange::new();
    exchange
        .begin(
            SecretRequestKey { connection_path: "/a".into(), setting_name: "b".into() },
            0,
        )
        .unwrap();
    let arguments = [argument("o", "/a"), argument("s", "b")];
    assert!(handle_network_manager_method(Some("CancelGetSecrets"), &arguments, &mut exchange)
        .is_ok());
    assert!(!exchange.is_pending());
    let saved = [argument("a{sa{sv}}", ""), argument("o", "/a")];
    assert!(handle_network_manager_method(Some("SaveSecrets"), &saved, &mut exchange).is_ok());
    assert!(handle_network_manager_method(Some("DeleteSecrets"), &saved, &mut exchange).is_ok());
    for (member, kind) in [
        (Some("GetSecrets"), ErrorKind::WouldBlock),
        (Some("Other"), ErrorKind::Unsupported),
        (None, ErrorKind::Unsupported),
    ] {
        match handle_network_manager_method(member, &[], &mut exchange) {
            Err(ArgumentFault::Failed(error)) => assert_eq!(error.kind, kind),
            _ => panic!("the method is refused"),
        }
    }
}

#[test]
fn frames_carry_their_length() {
    let frame = write_binary_frame(&[1, 2, 3]).unwrap();
    assert_eq!(frame, [0, 0, 0, 3, 1, 2, 3]);
    assert_eq!(frame_length([0, 0, 0, 3]).unwrap(), 3);
    assert_eq!(frame_length([0, 1, 0, 0]).unwrap(), MAX_SECRET_FRAME);
    assert_eq!(frame_length([0, 0, 0, 0]).unwrap_err().kind, ErrorKind::InvalidData);
    assert_eq!(frame_length([0, 1, 0, 1]).unwrap_err().kind, ErrorKind::InvalidData);
    assert!(constant_time_equal(b"abc", b"abc"));
    assert!(!constant_time_equal(b"abc", b"abd"));
    assert!(!constant_time_equal(b"abc", b"ab"));
}

#[test]
fn a_conversation_leaves_no_challenge_behind() {
    let mut broker = SecretBroker::new();
    let lease = SecretRequestLease::new([0; 16], "/a".into(), "s".into(), 50);
    let frame = open_conversation(&mut broker, &lease, 49).unwrap();
    assert_eq!(frame.len(), 20);
    assert_eq!(&frame[..4], &[0, 0, 0, 16]);
    assert_eq!(
        open_conversation(&mut broker, &lease, 50).unwrap_err().message,
        "network secret exchange exceeded its total deadline"
    );
    assert_eq!(
        open_conversation(&mut broker, &lease, 49).unwrap_err().kind,
        ErrorKind::WouldBlock
    );
    assert!(open_conversation(&mut broker, &lease, 49).is_ok());
    assert_eq!(
        close_conversation(&mut broker, ConversationEnd::Cancelled).unwrap_err().message,
        "secret connection cancelled"
    );
    assert!(open_conversation(&mut broker, &lease, 49).is_ok());
    assert_eq!(
        close_conversation(&mut broker, ConversationEnd::TimedOut).unwrap_err().kind,
        ErrorKind::TimedOut
    );
    assert!(close_conversation(&mut broker, ConversationEnd::Ended(Ok(()))).is_ok());
}

#[test]
fn secret_socket_paths_are_absolute_and_clean() {
    assert!(validate_secret_socket_path(b"/run/user/1000/sleepy/secret.sock").is_ok());
    for path in [&b"run/secret.sock"[..], &b""[..], &b"/run/\0"[..]] {
        let error = validate_secret_socket_path(path).unwrap_err();
        assert_eq!(error.kind, ErrorKind::InvalidInput);
        assert_eq!(error.message, "secret socket path must be an absolute non-NUL path");
    }
}

#[test]
fn secret_errors_reach_the_bus_without_zero_characters() {
    let error = SessionError::new(ErrorKind::Other, "a\0b");
    assert_eq!(secret_error_text(&error), "a b");
    let denied = bus_error(Some("org.freedesktop.DBus.Error.AccessDenied"), "no");
    assert_eq!(denied.kind, ErrorKind::PermissionDenied);
    assert_eq!(denied.message, "no");
    assert_eq!(bus_error(None, "x").kind, ErrorKind::Other);
    assert_eq!(
        bus_error(Some("org.freedesktop.DBus.Error.NameHasNoOwner"), "x").kind,
        ErrorKind::NotFound
    );
}

//! The status area.

use std::cell::RefCell;

use sleepy_session::command::RunState;
use sleepy_session::desktop::tray::{
    bus_error, check_menu_path, check_title, ensure_active, remaining, split_registration,
    stable_hash, BusValue, MenuAction, MenuLayout, Target, TrayInvocation, TrayProbe, TrayService,
    MAX_REGISTRATIONS, OPERATION_TIMEOUT,
};
use sleepy_session::error::{ErrorKind, SessionError};
use sleepy_session::text_map::TextMap;

fn number(value: i64) -> BusValue {
    BusValue { number: Some(value), text: None, items: None }
}

fn text(value: &str) -> BusValue {
    BusValue { number: None, text: Some(value.to_string()), items: None }
}

fn list(items: Vec<BusValue>) -> BusValue {
    BusValue { number: None, text: None, items: Some(items) }
}

fn variant(content: BusValue) -> BusValue {
    list(vec![content])
}

fn property(name: &str, value: BusValue) -> BusValue {
    list(vec![text(name), variant(value)])
}

fn node(id: i64, properties: Vec<BusValue>, children: Vec<BusValue>) -> BusValue {
    variant(list(vec![number(id), list(properties), list(children)]))
}

fn not_found() -> SessionError {
    SessionError::new(ErrorKind::NotFound, "none")
}

#[test]
fn injected_tray_transport_receives_only_the_cached_typed_target() {
    let item_id = "tray:fixture";
    let menu_id = "tray-menu:fixture:7";
    let mut actions = TextMap::new();
    actions.insert(
        menu_id.to_string(),
        MenuAction::Menu { path: "/Menu".into(), node_id: 7 },
    );
    let mut targets = TextMap::new();
    targets.insert(
        item_id.to_string(),
        Target {
            service: "org.example.Tray".into(),
            path: "/StatusNotifierItem".into(),
            actions,
        },
    );
    let service = TrayService { targets };
    let invocations = RefCell::new(Vec::new());
    let refreshed = service
        .invoke_with(
            item_id,
            menu_id,
            |invocation| {
                invocations.borrow_mut().push(invocation);
                Ok(())
            },
            || Ok(Vec::new()),
        )
        .unwrap();
    assert!(refreshed.is_empty());
    assert_eq!(
        invocations.into_inner(),
        [TrayInvocation::Menu {
            service: "org.example.Tray".into(),
            path: "/Menu".into(),
            node_id: 7,
        }]
    );
}

#[test]
fn nothing_is_sent_for_an_entry_that_is_not_known() {
    let service = TrayService::new();
    let error = service
        .invoke_with(
            "tray:x",
            "tray-menu:x:1",
            |_| panic!("nothing is sent"),
            || panic!("nothing is read"),
        )
        .unwrap_err();
    assert_eq!(error.kind, ErrorKind::InvalidInput);
    assert_eq!(error.message, "unknown tray menu target");
}

#[test]
fn nothing_is_read_where_sending_failed() {
    let mut probe = TrayProbe::begin(vec!["org.example.A".to_string()]).unwrap();
    let (service_name, path) = probe.next().unwrap().unwrap();
    probe.record(&service_name, &path, "A", Err(not_found())).unwrap();
    let mut service = TrayService::new();
    let items = service.conclude(probe, None).unwrap();
    let error = service
        .invoke_with(
            &items[0].id,
            &items[0].menu.id,
            |_| Err(SessionError::new(ErrorKind::TimedOut, "late")),
            || panic!("nothing is read"),
        )
        .unwrap_err();
    assert_eq!(error.message, "late");
}

#[test]
fn registrations_are_split_at_the_first_slash() {
    let (service, path) = split_registration(":1.5/org/ayatana/Item").unwrap();
    assert_eq!((service.as_str(), path.as_str()), (":1.5", "/org/ayatana/Item"));
    let (service, path) = split_registration("org.example.Tray-1").unwrap();
    assert_eq!(
        (service.as_str(), path.as_str()),
        ("org.example.Tray-1", "/StatusNotifierItem")
    );
    for wrong in ["", "nodots", "org..example", "org.-x", ":1.5/a//b", ":1.5/a b", "/only", "a.b\u{e9}"] {
        let error = split_registration(wrong).unwrap_err();
        assert_eq!(error.kind, ErrorKind::InvalidData);
        assert_eq!(error.message, "invalid StatusNotifierItem registration");
    }
    assert!(split_registration(&format!("a.{}", "b".repeat(253))).is_ok());
    assert!(split_registration(&format!("a.{}", "b".repeat(254))).is_err());
}

#[test]
fn the_hash_of_an_item_is_that_of_its_bytes() {
    // FNV-1a of the single zero byte that separates two empty texts.
    assert_eq!(stable_hash("", ""), 0xaf63bd4c8601b7df);
    assert_ne!(stable_hash("a", "b"), stable_hash("ab", ""));
}

#[test]
fn a_menu_is_read_with_its_actions() {
    let mut probe = TrayProbe::begin(vec![":1.5/Item".to_string()]).unwrap();
    let (service_name, path) = probe.next().unwrap().unwrap();
    let layout = MenuLayout {
        path: "/MenuBar".to_string(),
        children: vec![
            node(
                1,
                vec![property("label", text("Open"))],
                vec![node(-2, vec![property("label", text("Inner"))], vec![])],
            ),
            node(3, vec![property("label", text("Off")), property("enabled", number(0))], vec![]),
            node(4, vec![property("type", text("separator"))], vec![]),
            list(vec![]),
        ],
    };
    probe.record(&service_name, &path, "Player", Ok(layout)).unwrap();
    assert!(probe.next().unwrap().is_none());
    let mut service = TrayService::new();
    let items = service.conclude(probe, None).unwrap();
    assert_eq!(items.len(), 1);
    let hash = stable_hash(":1.5", "/Item");
    assert_eq!(items[0].id, format!("tray:{hash:016x}"));
    assert_eq!(items[0].title, "Player");
    let menu = &items[0].menu;
    assert_eq!(menu.id, format!("tray-menu:{hash:016x}:root"));
    assert_eq!(menu.children.len(), 2);
    assert_eq!(menu.children[0].label, "Open");
    assert_eq!(menu.children[0].children[0].id, format!("tray-menu:{hash:016x}:-2"));
    assert!(!menu.children[1].enabled);
    assert_eq!(
        service.invocation(&items[0].id, &menu.children[0].children[0].id).unwrap(),
        TrayInvocation::Menu { service: ":1.5".into(), path: "/MenuBar".into(), node_id: -2 }
    );
    assert_eq!(
        service.invocation(&items[0].id, &menu.id).unwrap(),
        TrayInvocation::Activate { service: ":1.5".into(), path: "/Item".into() }
    );
    assert!(service.invocation(&items[0].id, &menu.children[1].id).is_err());
}

#[test]
fn an_item_without_a_menu_has_one_entry() {
    let mut probe = TrayProbe::begin(vec!["org.example.A".to_string()]).unwrap();
    let (service_name, path) = probe.next().unwrap().unwrap();
    probe.record(&service_name, &path, "A", Err(not_found())).unwrap();
    let mut service = TrayService::new();
    let items = service.conclude(probe, None).unwrap();
    let hash = stable_hash("org.example.A", "/StatusNotifierItem");
    assert_eq!(items[0].menu.id, format!("tray-menu:{hash:016x}:activate"));
    assert_eq!(items[0].menu.label, "A");
    assert!(items[0].menu.children.is_empty());
    assert_eq!(
        check_menu_path("/NO_DBUSMENU").unwrap_err().kind,
        ErrorKind::NotFound
    );
    assert!(check_menu_path("/MenuBar").is_ok());
}

#[test]
fn faults_of_a_menu_are_told_apart() {
    let cases = [
        (variant(number(1)), "tray menu node malformed"),
        (variant(list(vec![text("x")])), "tray menu node ID invalid"),
        (variant(list(vec![number(1 << 40)])), "tray menu node ID invalid"),
        (variant(list(vec![number(1)])), "tray menu properties omitted"),
        (variant(list(vec![number(1), list(vec![])])), "tray menu children omitted"),
    ];
    for (child, message) in cases {
        let mut probe = TrayProbe::begin(vec![]).unwrap();
        let layout = MenuLayout { path: "/M".to_string(), children: vec![child] };
        let error = probe.record("a.b", "/c", "T", Ok(layout)).unwrap_err();
        assert_eq!(error.kind, ErrorKind::InvalidData);
        assert_eq!(error.message, message);
    }
}

#[test]
fn menus_are_bounded_in_depth() {
    let mut child = node(0, vec![property("label", text("x"))], vec![]);
    for id in 1..33 {
        child = node(id, vec![property("label", text("x"))], vec![child]);
    }
    let mut probe = TrayProbe::begin(vec![]).unwrap();
    let layout = MenuLayout { path: "/M".to_string(), children: vec![child] };
    let error = probe.record("a.b", "/c", "T", Ok(layout)).unwrap_err();
    assert_eq!(error.message, "tray menu nesting exceeds 32 levels");
}

#[test]
fn an_item_is_recorded_once_and_needs_a_title() {
    let mut probe = TrayProbe::begin(vec![]).unwrap();
    assert_eq!(
        probe.record("a.b", "/c", "  ", Err(not_found())).unwrap_err().message,
        "StatusNotifierItem title is empty"
    );
    assert!(check_title("x").is_ok());
    probe.record("a.b", "/c", "T", Err(not_found())).unwrap();
    assert_eq!(
        probe.record("a.b", "/c", "T", Err(not_found())).unwrap_err().message,
        "StatusNotifierItem stable ID collision"
    );
    assert_eq!(
        probe
            .record("a.c", "/c", "T", Err(SessionError::new(ErrorKind::TimedOut, "late")))
            .unwrap_err()
            .message,
        "late"
    );
    assert!(TrayProbe::begin(vec![String::new(); MAX_REGISTRATIONS]).is_ok());
    assert_eq!(
        TrayProbe::begin(vec![String::new(); MAX_REGISTRATIONS + 1]).err().unwrap().message,
        "too many StatusNotifierItem registrations"
    );
}

#[test]
fn a_reading_that_was_cancelled_changes_nothing() {
    let mut service = TrayService::new();
    let mut probe = TrayProbe::begin(vec![]).unwrap();
    probe.record("a.b", "/c", "T", Err(not_found())).unwrap();
    let cancelled = RunState { cancelled: true, remaining: 5 };
    assert_eq!(
        service.conclude(probe, Some(cancelled)).unwrap_err().kind,
        ErrorKind::Interrupted
    );
    let hash = stable_hash("a.b", "/c");
    let item = format!("tray:{hash:016x}");
    assert!(service.invocation(&item, &format!("tray-menu:{hash:016x}:activate")).is_err());
    assert_eq!(
        ensure_active(Some(RunState { cancelled: false, remaining: 0 })).unwrap_err().message,
        "tray probe exceeded its deadline"
    );
    assert!(ensure_active(None).is_ok());
}

#[test]
fn tray_times_are_bounded() {
    let state = |remaining| RunState { cancelled: false, remaining };
    assert_eq!(TrayService::probe_controlled(state(10)).unwrap(), 10);
    assert_eq!(TrayService::probe_controlled(state(9_999)).unwrap(), OPERATION_TIMEOUT);
    assert!(TrayService::probe_controlled(state(0)).is_err());
    assert_eq!(remaining(10, 4).unwrap(), 6);
    assert_eq!(
        remaining(10, 10).unwrap_err().message,
        "tray operation exceeded its total deadline"
    );
}

#[test]
fn tray_failures_of_the_bus_are_classified() {
    for (name, kind) in [
        ("org.freedesktop.DBus.Error.ServiceUnknown", ErrorKind::NotFound),
        ("org.freedesktop.DBus.Error.NameHasNoOwner", ErrorKind::NotFound),
        ("org.freedesktop.DBus.Error.UnknownProperty", ErrorKind::NotFound),
        ("org.freedesktop.DBus.Error.UnknownMethod", ErrorKind::NotFound),
        ("org.freedesktop.DBus.Error.AccessDenied", ErrorKind::PermissionDenied),
        ("org.freedesktop.DBus.Error.NoReply", ErrorKind::TimedOut),
        ("org.example.Other", ErrorKind::Other),
    ] {
        let error = bus_error(Some(name));
        assert_eq!(error.kind, kind);
        assert_eq!(error.message, "StatusNotifierItem D-Bus request failed");
    }
    assert_eq!(bus_error(None).kind, ErrorKind::Other);
}

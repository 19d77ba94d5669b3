//! The on-screen display, the overview, the doctor and the smaller producers.

use sleepy_session::desktop::adapters::{
    availability_for_io, compositor_availability, format_utc, hyprland_terminal, launcher_value,
    osd_state, AppearanceProducer, CompositorErrorKind, DailyOperation, DailyProducer,
    FirstPublication, HyprlandProducer, OsdProducer, TerminalProducer, UtcTime,
};
use sleepy_session::desktop::appearance::{
    apply, default_wallpaper, read_wallpaper, stored_wallpaper, validate_text, AppearanceAction,
    AppearanceCommand, PersistentAppearance,
};
use sleepy_session::desktop::budget::Json;
use sleepy_session::desktop::domain::{
    AppearanceValue, CapabilityAvailability, DesktopDomainId, DesktopDomainState,
    DesktopDomainValue, DesktopObservation, OsdEvent, OsdKind, StableId,
};
use sleepy_session::doctor::{check_peer, FrameReader, Report, SnapshotStatuses};
use sleepy_session::error::{ErrorKind, SessionError};
use sleepy_session::ids::canonical_uuid;
use sleepy_session::osd::{FocusedOsdRequest, NiriEvent, OsdRouteError, OsdRouter};
use sleepy_session::overview::{
    overview_event_channel, DaemonCommand, NiriOverview, ObservedOverviewEvent, OverviewEvent,
    OverviewEventSource,
};

fn event(output: &str, label: &str) -> OsdEvent {
    OsdEvent {
        schema_version: 1,
        kind: OsdKind::Volume,
        output_id: output.into(),
        level: None,
        muted: None,
        label: label.into(),
    }
}

#[test]
fn displays_queue_their_events() {
    let timeout = 2_000_000;
    let mut router = OsdRouter::with_timing(1, timeout, 1_000);
    let of_kind = |kind, label: &str| OsdEvent { kind, ..event("DP-1", label) };
    assert!(router.push_at(of_kind(OsdKind::Volume, "first"), 0));
    // An event of the same kind takes the place of the one that is shown.
    assert!(router.push_at(of_kind(OsdKind::Volume, "second"), 5));
    assert_eq!(router.current("DP-1").unwrap().label, "second");
    assert!(router.push_at(of_kind(OsdKind::Brightness, "third"), 5));
    assert!(!router.push_at(of_kind(OsdKind::Brightness, "fourth"), 5));
    assert_eq!(router.pending_len("DP-1"), 1);
    assert_eq!(router.overflow_count("DP-1"), 1);
    router.advance_time(timeout + 4);
    assert_eq!(router.current("DP-1").unwrap().label, "second");
    router.advance_time(timeout + 5);
    assert_eq!(router.current("DP-1").unwrap().label, "third");
    router.advance_time(2 * timeout + 5);
    assert!(router.current("DP-1").is_none());
    assert!(router.current("DP-2").is_none());
    router.push_at(of_kind(OsdKind::Volume, "fifth"), 0);
    router.push_at(of_kind(OsdKind::Brightness, "sixth"), 0);
    assert!(router.complete("DP-1", 9));
    assert_eq!(router.current("DP-1").unwrap().label, "sixth");
}

#[test]
fn focused_events_need_a_fresh_focus() {
    let mut router = OsdRouter::with_timing(1, 100, 1_000);
    let request = || FocusedOsdRequest {
        kind: OsdKind::Volume,
        level: None,
        muted: None,
        label: "x".into(),
    };
    assert_eq!(
        router.push_focused(request(), 0, true).unwrap_err(),
        OsdRouteError::MissingFocus
    );
    router.observe_niri_focus(NiriEvent { focused_output_id: Some("DP-1".into()) }, 10);
    assert!(router.push_focused(request(), 11, true).is_ok());
    assert_eq!(router.current("DP-1").unwrap().label, "x");
    assert_eq!(
        router.push_focused(request(), 11, false).unwrap_err(),
        OsdRouteError::InvalidEvent
    );
    assert_eq!(
        router.push_focused(request(), 1_000_000, true).unwrap_err(),
        OsdRouteError::StaleFocus
    );
}

fn focus(sequence: u64, workspace: u64) -> OverviewEvent {
    OverviewEvent::FocusChanged {
        output_id: "DP-1".into(),
        window_id: Some(7),
        workspace_id: workspace,
        sequence,
    }
}

#[test]
fn overview_events_are_read_in_order() {
    let (mut sender, mut events) = overview_event_channel(4);
    sender.publish(focus(1, 2), 10);
    sender.publish(OverviewEvent::WindowClosed { window_id: 7, sequence: 2 }, 11);
    assert_eq!(events.try_event(&sender).unwrap().unwrap().event.sequence(), 1);
    assert_eq!(events.try_event(&sender).unwrap().unwrap().event.sequence(), 2);
    assert!(events.try_event(&sender).unwrap().is_none());
    assert!(!events.is_behind(&sender));
    let observed = ObservedOverviewEvent::now(focus(3, 1), 5);
    assert_eq!(observed.observed_at, 5);
}

#[test]
fn overview_commands_wait_for_their_confirmation() {
    let mut overview = NiriOverview::new(500);
    overview.observe(focus(1, 2));
    let pending = overview
        .begin(DaemonCommand::FocusWorkspace { workspace_id: 5 }, Ok((1, vec![])))
        .ok()
        .unwrap();
    assert!(pending.args.iter().any(|argument| argument.contains("focus-workspace")));
    assert!(overview.check_time(false, true).is_ok());
    assert!(overview.check_time(true, true).is_err());
    assert!(overview.check_time(false, false).is_err());
    let late = ObservedOverviewEvent::now(focus(2, 5), 20);
    let confirmation = overview.judge(&pending, 10, Some(late)).unwrap();
    assert_eq!(confirmation.map(|event| event.sequence()), Some(2));
    assert!(overview.begin(DaemonCommand::Unrelated, Ok((2, vec![]))).is_err());
}

#[test]
fn the_doctor_reads_one_frame() {
    let mut reader = FrameReader::new();
    assert!(!reader.push(b"abc").unwrap());
    assert!(reader.push(b"def\nrest").unwrap());
    assert_eq!(reader.bytes(), b"abcdef");
    assert!(FrameReader::new().push(b"").is_err());
    assert!(check_peer(1, 1).is_ok());
    assert_eq!(check_peer(1, 2).unwrap_err(), "peer-mismatch");
    let failed = Report::failure("session-unavailable");
    assert!(!failed.ok);
    assert_eq!(failed.error, Some("session-unavailable"));
    assert_eq!(
        failed.human(),
        "Sleepy desktop: needs attention\nSession is unavailable. Check sleepy-session.service in your user session.\n"
    );
    assert!(Report::failure("frame-too-large").human().contains("exceeded the 1 MiB limit"));
    let all = CapabilityAvailability::Available;
    let statuses = SnapshotStatuses {
        hyprland: all,
        lock: all,
        network: all,
        audio: all,
        bluetooth: CapabilityAvailability::Unavailable,
        battery: all,
        brightness: all,
        power: all,
        media: all,
        night_light: all,
        recording: all,
        resources: all,
        screenshot: all,
    };
    let report = Report::of_snapshot(4, statuses);
    assert!(report.ok);
    assert_eq!(report.generation, Some(4));
    assert!(report.human().starts_with("Sleepy desktop: ready\n"));
    assert!(report.human().contains("bluetooth: unavailable (optional)\n"));
    let broken = Report::of_snapshot(
        4,
        SnapshotStatuses { hyprland: CapabilityAvailability::Error, ..statuses },
    );
    assert!(!broken.ok);
}

#[test]
fn producers_without_a_value_say_why() {
    let producer = TerminalProducer::new(
        DesktopDomainId::Weather,
        CapabilityAvailability::Unsupported,
        "no".into(),
    )
    .ok()
    .unwrap();
    assert_eq!(producer.state.diagnostic(), Some("no"));
    assert!(TerminalProducer::new(
        DesktopDomainId::Weather,
        CapabilityAvailability::Available,
        "no".into()
    )
    .is_err());
    assert!(hyprland_terminal(CompositorErrorKind::Timeout, " ".into()).is_err());
    assert_eq!(
        compositor_availability(CompositorErrorKind::UnsafeInstance),
        CapabilityAvailability::PermissionDenied
    );
    assert_eq!(
        availability_for_io(ErrorKind::InvalidInput),
        CapabilityAvailability::Error
    );
    let hyprland = HyprlandProducer::new();
    assert_eq!(hyprland.domain(), DesktopDomainId::Hyprland);
    let failed = hyprland.state(Err((CompositorErrorKind::Parse, "x".into())));
    assert_eq!(failed.status(), CapabilityAvailability::Parse);
}

#[test]
fn the_first_publication_of_the_display_counts() {
    let producer = OsdProducer::new();
    let shown = producer.initial(FirstPublication::Published(vec![event("DP-1", "x")]));
    assert_eq!(shown.status(), CapabilityAvailability::Available);
    assert_eq!(
        producer.initial(FirstPublication::Silent).status(),
        CapabilityAvailability::Available
    );
    let failed = SessionError::new(ErrorKind::TimedOut, "late");
    assert_eq!(
        producer.initial(FirstPublication::Failed(failed)).status(),
        CapabilityAvailability::Timeout
    );
    assert_ne!(
        producer.initial(FirstPublication::Refused("no".into())).status(),
        CapabilityAvailability::Available
    );
    assert_eq!(osd_state(vec![]).domain(), DesktopDomainId::Osd);
}

#[test]
fn daily_operations_are_those_of_their_domain() {
    assert!(DailyProducer::new(DesktopDomainId::Audio, None).is_err());
    let launcher = DailyProducer::new(DesktopDomainId::Launcher, None).ok().unwrap();
    assert!(matches!(
        launcher.operation(0).ok().unwrap(),
        DailyOperation::LauncherSearch { query } if query.is_empty()
    ));
    let calendar = DailyProducer::new(DesktopDomainId::Calendar, None).ok().unwrap();
    assert!(matches!(
        calendar.operation(10).ok().unwrap(),
        DailyOperation::Calendar { window_start: 10, window_end: 2_592_010 }
    ));
    let weather = DailyProducer::new(DesktopDomainId::Weather, None).ok().unwrap();
    assert_eq!(
        weather.operation(0).err().unwrap().message,
        "weather location is not configured"
    );
    let busy = || Err(SessionError::new(ErrorKind::WouldBlock, "busy"));
    assert!(weather.polling_state(busy()).is_none());
    assert_eq!(weather.state(busy()).status(), CapabilityAvailability::Error);
    let shown = launcher.polling_state(Ok(DesktopDomainValue::Launcher(vec![]))).unwrap();
    assert_eq!(shown.status(), CapabilityAvailability::Available);
    let mismatched = launcher.polling_state(Ok(DesktopDomainValue::Screenshot)).unwrap();
    assert_eq!(mismatched.status(), CapabilityAvailability::Parse);
    let failed = SessionError::new(ErrorKind::NotFound, "gone");
    assert_eq!(launcher.polling_state(Err(failed)).unwrap().diagnostic(), Some("gone"));
    let busy = SessionError::new(ErrorKind::WouldBlock, "theme manager is busy");
    assert!(AppearanceProducer::new().polling_state(Err(busy)).is_none());
    assert_eq!(
        format_utc(&UtcTime { year: 2024, month: 2, day: 3, hour: 4, minute: 5, second: 6 }),
        "2024-02-03T04:05:06Z"
    );
}

#[test]
fn launcher_results_are_converted() {
    let text = |value: &str| Json::Text(value.to_string());
    let entry = |icon: Json| {
        Json::Object(vec![
            ("desktop_id".to_string(), text("a.desktop")),
            ("name".to_string(), text("A")),
            ("icon".to_string(), icon),
        ])
    };
    let entries = launcher_value(&Json::Array(vec![entry(text("x")), entry(Json::Null)])).unwrap();
    assert_eq!(entries[0].icon, "x");
    assert_eq!(entries[1].icon, "application-x-executable");
    assert_eq!(
        launcher_value(&Json::Null).unwrap_err().message,
        "launcher result is not an array"
    );
    assert!(launcher_value(&Json::Array(vec![Json::Null])).is_err());
}

#[test]
fn appearances_are_checked_and_stored() {
    assert!(validate_text("night", "theme").is_ok());
    for odd in ["", " x", "a\nb", &"x".repeat(257)] {
        let error = validate_text(odd, "theme").unwrap_err();
        assert_eq!(error.message, "invalid theme ID");
    }
    match apply(&AppearanceCommand::ApplyTheme { theme_id: StableId("night".into()) }).ok().unwrap() {
        AppearanceAction::ActivateTheme(theme) => assert_eq!(theme, "night"),
        _ => panic!("a theme is activated"),
    }
    match apply(&AppearanceCommand::SetOpaque { enabled: true }).ok().unwrap() {
        AppearanceAction::SetEffects { reduced_motion: None, opaque: Some(true) } => {}
        _ => panic!("the effects are set"),
    }
    assert_eq!(stored_wallpaper("hills").ok().unwrap().schema_version, 1);
    assert!(stored_wallpaper("").is_err());
    let usual = default_wallpaper();
    assert_eq!(usual.schema_version, 1);
    assert_eq!(
        read_wallpaper(Ok(PersistentAppearance {
            schema_version: 1,
            wallpaper_id: "hills".into()
        }))
        .unwrap(),
        "hills"
    );
    assert!(read_wallpaper(Ok(PersistentAppearance {
        schema_version: 2,
        wallpaper_id: "hills".into()
    }))
    .is_err());
    assert!(read_wallpaper(Err("bad".into())).is_err());
    let producer = AppearanceProducer::new();
    let value = AppearanceValue { theme: "night".into(), wallpaper_id: "hills".into() };
    assert_eq!(producer.state(Ok(value)).status(), CapabilityAvailability::Available);
    let error = SessionError::new(ErrorKind::Other, "x");
    assert_eq!(producer.state(Err(error)).status(), CapabilityAvailability::Error);
}

#[test]
fn states_are_consistent() {
    assert_eq!(
        DesktopDomainState::available(DesktopDomainId::Lock, DesktopDomainValue::Screenshot)
            .unwrap_err()
            .message,
        "desktop domain value belongs to a different producer"
    );
    assert_eq!(
        DesktopDomainState::terminal(
            DesktopDomainId::Lock,
            CapabilityAvailability::Error,
            " ".into()
        )
        .unwrap_err()
        .message,
        "terminal desktop domain state requires a diagnostic"
    );
    let observation = DesktopObservation { domain: DesktopDomainId::Lock, revision: 3 };
    let state = DesktopDomainState::available(
        DesktopDomainId::Screenshot,
        DesktopDomainValue::Screenshot,
    )
    .unwrap();
    assert_eq!(
        observation.finish(state).err().unwrap().message,
        "desktop observation belongs to a different producer"
    );
    for (place, domain) in DesktopDomainId::all().into_iter().enumerate() {
        assert_eq!(domain.index(), place);
        assert_eq!(DesktopDomainId::from_index(place), domain);
        let value = DesktopDomainValue::empty(domain, "night".into());
        assert_eq!(value.domain(), domain);
    }
}

#[test]
fn identifiers_are_written_as_they_are_read() {
    assert!(canonical_uuid("01234567-89ab-4cde-8f01-23456789abcd"));
    assert!(!canonical_uuid("01234567-89AB-4CDE-8F01-23456789ABCD"));
    assert!(!canonical_uuid("x"));
}

/// A source whose next events are written down.
struct Script(Vec<Result<Option<ObservedOverviewEvent>, SessionError>>);

impl OverviewEventSource for Script {
    fn next_event(&mut self, _: u64) -> Result<Option<ObservedOverviewEvent>, SessionError> {
        self.0.remove(0)
    }
}

#[test]
fn overview_commands_follow_their_source() {
    let mut overview = NiriOverview::new(500);
    overview.observe(focus(1, 2));
    let mut events = Script(vec![
        Ok(Some(ObservedOverviewEvent::now(focus(1, 5), 20))),
        Ok(Some(ObservedOverviewEvent::now(focus(2, 5), 9))),
        Ok(Some(ObservedOverviewEvent::now(focus(3, 5), 10))),
        Ok(None),
        Err(SessionError::new(ErrorKind::InvalidData, "lagged")),
        Ok(Some(ObservedOverviewEvent::now(OverviewEvent::Offline { sequence: 9 }, 30))),
    ]);
    assert!(events.try_event().unwrap().is_none());
    let command = || DaemonCommand::FocusWorkspace { workspace_id: 5 };
    let pending = overview.prepare(&mut events, command()).ok().unwrap();
    assert_eq!(pending.args, ["msg", "action", "focus-workspace", "5"]);
    let mut step = |cancelled, left| {
        overview.await_confirmation(&mut events, &pending, 10, cancelled, left)
    };
    assert_eq!(step(true, 5).unwrap_err().kind, ErrorKind::Interrupted);
    assert_eq!(step(false, 0).unwrap_err().kind, ErrorKind::TimedOut);
    assert!(step(false, 5).unwrap().is_none());
    assert!(step(false, 5).unwrap().is_none());
    assert_eq!(step(false, 5).unwrap(), Some(focus(3, 5)));
    assert_eq!(step(false, 5).unwrap_err().kind, ErrorKind::TimedOut);
    assert_eq!(step(false, 5).unwrap_err().message, "lagged");
    assert_eq!(step(false, 5).unwrap_err().kind, ErrorKind::NotConnected);
    assert_eq!(
        overview.prepare(&mut events, command()).err().unwrap().message,
        "Niri event stream is offline"
    );
}

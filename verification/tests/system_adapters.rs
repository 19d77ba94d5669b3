//! The adapters of the system domains: what programs print, and what commands
//! change.

use std::cell::RefCell;

use sleepy_session::command::{CommandOutput, CommandSpec, Run, RunnerErrorKind};
use sleepy_session::desktop::audio::{self, AudioCommand, RowKind};
use sleepy_session::desktop::bluetooth::{self, BluetoothCommand};
use sleepy_session::desktop::clipboard::{clear_spec, decode_spec, list_spec, parse_entries, preview};
use sleepy_session::desktop::commands::{MediaTransport, SystemMutation};
use sleepy_session::desktop::display::{self, DisplayCommand};
use sleepy_session::desktop::domain::{
    AudioNodeKind, CapabilityAvailability, DesktopDomainId, DesktopDomainValue, Level,
    NetworkConnectionKind, PowerProfile, StableId,
};
use sleepy_session::desktop::fraction::{Number, RequestedLevel};
use sleepy_session::desktop::media::{self, MediaCommand, Progress};
use sleepy_session::desktop::mutation::{
    execute_system_command, DesktopSystemCommand, DesktopSystemMutation,
};
use sleepy_session::desktop::network::{self, NetworkCommand};
use sleepy_session::desktop::power;
use sleepy_session::desktop::resources::{self, CpuCounters, ResourceProducer};
use sleepy_session::desktop::system::{
    probe_domain, state_from_record, CapabilityRecord, CapabilityValue, CoreSystemProducer,
};
use sleepy_session::error::{ErrorKind, SessionError};
use sleepy_session::rows::Readings;

fn id(text: &str) -> StableId {
    StableId(text.to_string())
}

fn out(text: &str) -> Run {
    Ok(CommandOutput { status: 0, stdout: text.as_bytes().to_vec() })
}

fn level(value: f64) -> Level {
    Level { bits: value.to_bits() }
}

fn requested(value: f64) -> RequestedLevel {
    RequestedLevel {
        level: level(value),
        text: format!("{value:.6}"),
        normalized: (0.0..=1.0).contains(&value),
    }
}

fn read_volume(text: &str) -> Number {
    match text.parse::<f64>() {
        Err(_) => Number::NotNumeric,
        Ok(value) if (0.0..=1.0).contains(&value) => Number::Level(level(value)),
        Ok(_) => Number::OutOfRange,
    }
}

fn read_percentage(text: &str) -> Number {
    match text.parse::<f64>() {
        Err(_) => Number::NotNumeric,
        Ok(value) if (0.0..=100.0).contains(&value) => Number::Level(level(value / 100.0)),
        Ok(_) => Number::OutOfRange,
    }
}

fn read_progress(position: &str, length: &str) -> Progress {
    let Ok(position) = position.parse::<f64>() else {
        return Progress::BadPosition;
    };
    let Ok(length) = length.parse::<f64>() else {
        return Progress::BadLength;
    };
    let progress = if length > 0.0 { position / length } else { 0.0 };
    if (0.0..=1.0).contains(&progress) {
        Progress::Level(level(progress))
    } else {
        Progress::OutOfRange
    }
}

const RADIO: &str = "enabled\n";
const POINTS: &str = "*:AA\\:BB\\:CC\\:DD\\:EE\\:FF:Home\\:5G:80:WPA2\n:aa\\:bb\\:cc\\:dd\\:ee\\:00:Open:7:--\n::x:5:\n";
const CONNECTIONS: &str = "00000000-0000-4000-8000-000000000001:Home:802-11-wireless:wlan0\n00000000-0000-4000-8000-000000000002:Office:vpn:\n00000000-0000-4000-8000-000000000003:lo:loopback:lo\n";

#[test]
fn network_rows_are_read_with_their_escapes() {
    let points = "*:AA\\:BB\\:CC\\:DD\\:EE\\:FF:Home\\:5G:80:WPA2\n:aa\\:bb\\:cc\\:dd\\:ee\\:00:Open:7:--\n:00\\:11\\:22\\:33\\:44\\:55::5:\n";
    let snapshot =
        network::parse_snapshot(RADIO.as_bytes(), points.as_bytes(), CONNECTIONS.as_bytes())
            .unwrap();
    assert!(snapshot.wifi_enabled);
    assert_eq!(snapshot.access_points.len(), 2);
    assert_eq!(snapshot.access_points[0].ssid, "Home:5G");
    assert_eq!(snapshot.access_points[0].signal, 80);
    assert!(snapshot.access_points[0].secured);
    assert!(snapshot.access_points[0].id.ends_with("AA-BB-CC-DD-EE-FF"));
    assert!(!snapshot.access_points[1].secured);
    assert!(snapshot.access_points[1].id.ends_with("AA-BB-CC-DD-EE-00"));
    assert_eq!(snapshot.connections.len(), 2);
    assert_eq!(snapshot.connections[0].kind, NetworkConnectionKind::Wifi);
    assert!(snapshot.connections[0].connected);
    assert_eq!(snapshot.connections[1].kind, NetworkConnectionKind::Vpn);
    assert!(!snapshot.connections[1].connected);
}

#[test]
fn network_faults_are_told_apart() {
    let parse = |radio: &str, points: &str, connections: &str| {
        network::parse_snapshot(radio.as_bytes(), points.as_bytes(), connections.as_bytes())
            .unwrap_err()
            .message
    };
    assert_eq!(parse("odd", "", ""), "NetworkManager returned an unknown Wi-Fi state");
    assert_eq!(parse(RADIO, "a:b", ""), "NetworkManager access-point row is malformed");
    assert_eq!(
        parse(RADIO, "*:AA\\:BB\\:CC\\:DD\\:EE\\:FF:x:101:", ""),
        "Wi-Fi signal is outside 0..100"
    );
    assert_eq!(
        parse(RADIO, "*:AA\\:BB\\:CC\\:DD\\:EE\\:FF:x:y:", ""),
        "invalid Wi-Fi signal"
    );
    assert_eq!(parse(RADIO, POINTS, ""), "invalid hardware address");
    assert_eq!(parse(RADIO, "a\\", ""), "adapter row ends with an incomplete escape");
    assert_eq!(parse("disabled", POINTS, "a:b"), "NetworkManager connection row is malformed");
    let twice = "00000000-0000-4000-8000-000000000001:A:wifi:x\n00000000-0000-4000-8000-000000000001:B:wifi:x\n";
    assert_eq!(parse("disabled", "", twice), "duplicate NetworkManager connection UUID");
    assert_eq!(parse("disabled", "", "not-a-uuid:A:wifi:x"), "invalid connection UUID");
    assert_eq!(
        parse("disabled", "", "00000000-0000-4000-8000-00000000000A:A:wifi:x"),
        "connection UUID is not canonical"
    );
    assert_eq!(
        network::parse_snapshot(&[0xff], b"", b"").unwrap_err().message,
        "adapter output is not UTF-8"
    );
}

#[test]
fn network_identifiers_lead_back_to_their_commands() {
    let point = network::access_point_id(&"aa:bb:cc:dd:ee:ff".chars().collect::<Vec<_>>()).unwrap();
    let connect = network::mutation_spec(&NetworkCommand::ConnectWifi {
        access_point_id: id(&point),
    })
    .unwrap();
    assert!(connect.args.contains(&"AA:BB:CC:DD:EE:FF".to_string()));
    let uuid = "00000000-0000-4000-8000-000000000001";
    let connection = network::connection_id(&uuid.chars().collect::<Vec<_>>()).unwrap();
    let disconnect = network::mutation_spec(&NetworkCommand::Disconnect {
        connection_id: id(&connection),
    })
    .unwrap();
    assert!(disconnect.args.contains(&uuid.to_string()));
    assert_eq!(
        network::mutation_spec(&NetworkCommand::Disconnect { connection_id: id("x") })
            .unwrap_err()
            .kind,
        ErrorKind::InvalidInput
    );
    assert!(network::mutation_spec(&NetworkCommand::ScanWifi).is_ok());
}

fn network_host(radio: &'static str) -> impl Fn(&CommandSpec) -> Run {
    move |spec: &CommandSpec| {
        let joined = spec.args.join(" ");
        if joined.contains("BSSID") {
            out("*:AA\\:BB\\:CC\\:DD\\:EE\\:FF:Home:80:WPA2\n")
        } else if joined.contains("UUID,NAME") {
            out(CONNECTIONS)
        } else if joined.contains("general") {
            out(radio)
        } else {
            out("")
        }
    }
}

#[test]
fn rows_are_split_at_colons_that_are_not_escaped() {
    let split = |line: &str| {
        let line: Vec<char> = line.chars().collect();
        network::split_escaped(&line).map(|fields| {
            fields.iter().map(|field| field.iter().collect::<String>()).collect::<Vec<_>>()
        })
    };
    assert_eq!(split("a\\:b:c\\\\:").unwrap(), ["a:b", "c\\", ""]);
    assert_eq!(split("").unwrap(), [""]);
    assert_eq!(split("a\\\\").unwrap(), ["a\\"]);
    let error = split("a\\\\\\").unwrap_err();
    assert_eq!(error.kind, ErrorKind::InvalidData);
    assert_eq!(error.message, "adapter row ends with an incomplete escape");
}

#[test]
fn network_changes_are_confirmed_by_a_reading() {
    let on = NetworkCommand::SetWifiEnabled { enabled: true };
    assert!(network::mutate(network_host("enabled"), &network_host("enabled"), &on).unwrap().wifi_enabled);
    let error = network::mutate(network_host("disabled"), &network_host("disabled"), &on).unwrap_err();
    assert_eq!(
        error.message,
        "NetworkManager readback did not confirm the requested state"
    );
    let failing = |_: &CommandSpec| Ok(CommandOutput { status: 1, stdout: vec![] });
    assert_eq!(
        network::probe(&failing).unwrap_err().message,
        "desktop adapter command failed"
    );
    let missing = |_: &CommandSpec| Err(RunnerErrorKind::Spawn);
    assert_eq!(network::probe(&missing).unwrap_err().kind, ErrorKind::NotFound);
}

fn bluetooth_host(powered: &'static str) -> impl Fn(&CommandSpec) -> Run {
    move |spec: &CommandSpec| match (spec.program.as_str(), spec.args[0].as_str()) {
        ("busctl", _) => out("b true\n"),
        (_, "show") => out(&format!("Controller\n\tPowered: {powered}\n\tDiscovering: no\n")),
        (_, "devices") => out("Device AA:BB:CC:DD:EE:FF Head set\n"),
        (_, "info") => out("\tName: Headset\n\tPaired: yes\n\tConnected: no\n"),
        _ => out(""),
    }
}

#[test]
fn bluetooth_is_read_and_changed() {
    let snapshot = bluetooth::probe(&bluetooth_host("yes")).unwrap();
    assert!(snapshot.powered && !snapshot.scanning);
    assert_eq!(snapshot.devices[0].name, "Headset");
    assert!(snapshot.devices[0].paired && !snapshot.devices[0].connected);
    let device = snapshot.devices[0].id.clone();
    let disconnect = BluetoothCommand::Disconnect { device_id: id(&device) };
    assert!(bluetooth::mutate(bluetooth_host("yes"), &bluetooth_host("yes"), &disconnect).is_ok());
    let connect = BluetoothCommand::Connect { device_id: id(&device) };
    assert_eq!(
        bluetooth::mutate(bluetooth_host("yes"), &bluetooth_host("yes"), &connect).unwrap_err().message,
        "Bluetooth readback did not confirm the requested state"
    );
    let spec = bluetooth::mutation_spec(&connect).unwrap();
    assert_eq!(spec.args, ["connect", "AA:BB:CC:DD:EE:FF"]);
    assert_eq!(spec.timeout, Some(10_000));
    let power = BluetoothCommand::SetPowered { powered: false };
    assert!(bluetooth::mutate(bluetooth_host("no"), &bluetooth_host("no"), &power).is_ok());
}

#[test]
fn bluetooth_that_is_not_there_is_told_from_one_that_fails() {
    let absent = |_: &CommandSpec| out("b false\n");
    assert_eq!(
        bluetooth::probe(&absent).unwrap_err().message,
        "Bluetooth service is unavailable"
    );
    let odd = |_: &CommandSpec| out("x");
    assert_eq!(
        bluetooth::probe(&odd).unwrap_err().message,
        "D-Bus owner reply is malformed"
    );
    let bare = |spec: &CommandSpec| {
        if spec.program == "busctl" {
            out("b true\n")
        } else {
            Ok(CommandOutput {
                status: 1,
                stdout: b"No default controller available\n".to_vec(),
            })
        }
    };
    assert_eq!(
        bluetooth::probe(&bare).unwrap_err().message,
        "no Bluetooth controller is available"
    );
    let rows = |text: &str| {
        bluetooth::parse_device_rows(text.as_bytes()).err().map(|error| error.message)
    };
    assert_eq!(rows("Other x").as_deref(), Some("Bluetooth device row is malformed"));
    assert_eq!(rows("Device").as_deref(), Some("Bluetooth MAC omitted"));
    assert_eq!(
        rows("Device AA:BB:CC:DD:EE:FF a\nDevice aa:bb:cc:dd:ee:ff b").as_deref(),
        Some("duplicate Bluetooth device identifier")
    );
    assert_eq!(
        bluetooth::controller_state(b"Powered: maybe\nDiscovering: no").unwrap_err().message,
        "Bluetooth boolean property is malformed"
    );
    assert_eq!(
        bluetooth::controller_state(b"Powered: yes").unwrap_err().message,
        "Bluetooth property omitted"
    );
}

const STATUS: &str = "Audio\n ├─ Devices:\n │      40. Card [alsa]\n ├─ Sinks:\n │  *   50. Speaker [vol: 0.40]\n │      51. HDMI [vol: 1.00]\n ├─ Sources:\n │  *   60. Microphone [vol: 1.00]\n └─ Streams:\n        70. Player\n";

fn audio_host(volume: &'static str) -> impl Fn(&CommandSpec) -> Run {
    move |spec: &CommandSpec| match spec.args[0].as_str() {
        "status" => out(STATUS),
        "get-volume" => out(volume),
        _ => out(""),
    }
}

#[test]
fn audio_is_read_from_its_sections() {
    let rows = audio::parse_rows(STATUS.as_bytes()).ok().unwrap();
    assert_eq!(rows.len(), 4);
    assert_eq!(rows[0].name, "Speaker");
    assert!(rows[0].is_default && !rows[1].is_default);
    assert_eq!(rows[3].kind, RowKind::Stream);
    let snapshot = audio::probe(&audio_host("Volume: 0.40 [MUTED]\n"), &read_volume).unwrap();
    assert_eq!(snapshot.nodes.len(), 3);
    assert_eq!(snapshot.nodes[2].kind, AudioNodeKind::Input);
    assert_eq!(snapshot.nodes[0].volume, level(0.4));
    assert!(snapshot.nodes[0].muted);
    assert_eq!(snapshot.streams[0].node_id, snapshot.nodes[0].id);
    assert_eq!(
        audio::parse_rows(b"Sources:\n 1. x").err().unwrap().message,
        "wpctl omitted audio outputs"
    );
    assert_eq!(
        audio::parse_rows(b"Sinks:\n 01. x").err().unwrap().message,
        "audio ID is not canonical"
    );
    assert_eq!(
        audio::parse_snapshot(b"Sinks:\n 1. x", &Readings::new(), &read_volume)
            .unwrap_err()
            .message,
        "audio output default omitted"
    );
    let volume = |text: &str| audio::parse_volume(text.as_bytes(), &read_volume);
    assert_eq!(volume("Volume: 0.50").unwrap(), (level(0.5), false));
    assert_eq!(volume("Level: 1").unwrap_err().message, "volume output is malformed");
    assert_eq!(volume("Volume:").unwrap_err().message, "volume value omitted");
    assert_eq!(volume("Volume: x").unwrap_err().message, "volume is not numeric");
    assert_eq!(volume("Volume: 1.5").unwrap_err().message, "volume is not normalized");
}

#[test]
fn audio_changes_are_confirmed_by_a_reading() {
    let near = |found: Level| (f64::from_bits(found.bits) - 0.4).abs() <= 0.005;
    let set = AudioCommand::SetNodeVolume {
        node_id: id("pipewire-node:50"),
        level: requested(0.4),
    };
    let node = audio::node_id(&['5', '0']).unwrap();
    let set_node = AudioCommand::SetNodeVolume { node_id: id(&node), level: requested(0.4) };
    let host = audio_host("Volume: 0.40");
    let done = audio::mutate(&host, &host, &read_volume, &near, &set_node);
    assert!(done.is_ok());
    if node != "pipewire-node:50" {
        assert!(audio::mutate(&host, &host, &read_volume, &near, &set).is_err());
    }
    let muted = AudioCommand::SetNodeMuted { node_id: id(&node), muted: true };
    assert_eq!(
        audio::mutate(&host, &host, &read_volume, &near, &muted).unwrap_err().message,
        "WirePlumber readback did not confirm the requested state"
    );
    assert_eq!(audio::mutation_spec(&muted).unwrap().args, ["set-mute", "50", "1"]);
    let loud = AudioCommand::SetNodeVolume { node_id: id(&node), level: requested(1.5) };
    assert_eq!(
        audio::mutation_spec(&loud).unwrap_err().message,
        "audio level is not normalized"
    );
}

#[test]
fn older_audio_commands_act_on_the_defaults() {
    let near = |found: Level| (f64::from_bits(found.bits) - 0.4).abs() <= 0.005;
    let seen = RefCell::new(Vec::new());
    let host = |spec: &CommandSpec| {
        seen.borrow_mut().push(spec.args.join(" "));
        audio_host("Volume: 0.40")(spec)
    };
    audio::mutate_legacy(&host, &host, &read_volume, &near, &SystemMutation::AudioVolume(requested(0.4)))
        .unwrap();
    audio::mutate_legacy(
        &host,
        &host,
        &read_volume,
        &near,
        &SystemMutation::AudioMicrophoneMuted(false),
    )
    .unwrap();
    audio::mutate_legacy(
        &host,
        &host,
        &read_volume,
        &near,
        &SystemMutation::AudioOutputDevice("50".into()),
    )
    .unwrap();
    let seen = seen.into_inner();
    assert_eq!(seen[0], "set-volume @DEFAULT_AUDIO_SINK@ 0.400000");
    assert!(seen.contains(&"set-mute @DEFAULT_AUDIO_SOURCE@ 0".to_string()));
    assert!(seen.contains(&"set-default 50".to_string()));
    let host = audio_host("Volume: 0.40");
    assert_eq!(
        audio::mutate_legacy(
            &host,
            &host,
            &read_volume,
            &near,
            &SystemMutation::AudioOutputDevice("51".into())
        )
        .unwrap_err()
        .message,
        "legacy audio readback did not confirm the requested state"
    );
    assert_eq!(
        audio::mutate_legacy(&host, &host, &read_volume, &near, &SystemMutation::NetworkEnabled(true))
            .unwrap_err()
            .message,
        "legacy mutation is not an audio action"
    );
}

fn media_host(track: &'static str, status: &'static str) -> impl Fn(&CommandSpec) -> Run {
    move |spec: &CommandSpec| {
        if spec.args[0] == "--list-all" {
            out("org.player\n")
        } else if spec.args[2] == "metadata" {
            out(&format!("Player\tSong\tArtist\t{status}\t30\t60\t{track}\n"))
        } else {
            out("")
        }
    }
}

#[test]
fn media_is_read_and_its_faults_are_told_apart() {
    let snapshot = media::probe(&media_host("/t/1", "Playing"), &read_progress).unwrap();
    assert_eq!(snapshot.players[0].id, "mpris:org.player");
    assert_eq!(snapshot.players[0].title, "Song");
    assert!(snapshot.players[0].playing);
    assert_eq!(snapshot.players[0].progress, level(0.5));
    let parse = |row: &str| {
        let mut metadata = Readings::new();
        metadata.insert("a.b".to_string(), row.as_bytes().to_vec());
        media::parse_snapshot(b"a.b\n", &metadata, &read_progress).unwrap_err().message
    };
    assert_eq!(parse("x"), "MPRIS metadata row is malformed");
    assert_eq!(parse("P\tT\tA\tOdd\t1\t2"), "MPRIS playback state is unknown");
    assert_eq!(parse("P\tT\tA\tPaused\tx\t2"), "MPRIS position is invalid");
    assert_eq!(parse("P\tT\tA\tPaused\t1\tx"), "MPRIS length is invalid");
    assert_eq!(parse("P\tT\tA\tPaused\t3\t2"), "MPRIS normalized progress is invalid");
    assert_eq!(
        parse("P\tT\tA\tPaused\t1\t2\tnot-a-path"),
        "MPRIS track identity is malformed or exceeds its bound"
    );
    let names = |text: &str| media::player_names(text.as_bytes()).unwrap_err().message;
    assert_eq!(names("nodots"), "invalid MPRIS player name");
    assert_eq!(names("a.b\na.b\n"), "duplicate MPRIS player name");
}

#[test]
fn media_transports_are_confirmed_by_a_change() {
    let played = RefCell::new(false);
    let host = |spec: &CommandSpec| {
        if spec.args.len() == 3 && spec.args[2] == "play-pause" {
            *played.borrow_mut() = true;
        }
        let status = if *played.borrow() { "Paused" } else { "Playing" };
        media_host("/t/1", status)(spec)
    };
    let toggle = MediaCommand::Transport {
        player_id: id("mpris:org.player"),
        transport: MediaTransport::PlayPause,
    };
    let still = media_host("/t/1", "Playing");
    assert!(!media::mutate(&host, &host, &host, &read_progress, &toggle).unwrap().players[0].playing);
    assert_eq!(
        media::mutate_legacy(&still, &still, &still, &read_progress, MediaTransport::Next)
            .unwrap_err()
            .message,
        "MPRIS readback did not confirm the requested transport"
    );
    let other = MediaCommand::Transport {
        player_id: id("mpris:org.other"),
        transport: MediaTransport::Next,
    };
    assert_eq!(
        media::mutate(&still, &still, &still, &read_progress, &other)
            .unwrap_err()
            .message,
        "MPRIS pre-state omitted the targeted player"
    );
    let none = |_: &CommandSpec| out("");
    assert_eq!(
        media::mutate_legacy(&none, &none, &none, &read_progress, MediaTransport::Next).unwrap_err().message,
        "legacy media action requires exactly one MPRIS player"
    );
    assert_eq!(
        media::mutation_spec(&toggle).unwrap().args,
        ["--player", "org.player", "play-pause"]
    );
}

#[test]
fn a_change_is_made_once_and_read_back_after_it() {
    let steps = RefCell::new(Vec::new());
    let change = |spec: &CommandSpec| {
        steps.borrow_mut().push(format!("change {}", spec.args.join(" ")));
        out("")
    };
    let runner = |spec: &CommandSpec| {
        steps.borrow_mut().push(format!("read {}", spec.args[0]));
        power_host(spec)
    };
    power::mutate(change, &runner, PowerProfile::Balanced).unwrap();
    assert_eq!(steps.borrow().as_slice(), ["change set balanced", "read get", "read list"]);
    steps.borrow_mut().clear();
    let refused = |_: &CommandSpec| Err(RunnerErrorKind::Timeout);
    assert!(power::mutate(refused, &runner, PowerProfile::Balanced).is_err());
    assert!(steps.borrow().is_empty());
}

fn power_host(spec: &CommandSpec) -> Run {
    match spec.args[0].as_str() {
        "get" => out("balanced\n"),
        "list" => out("* balanced:\n  performance:\n"),
        _ => out(""),
    }
}

#[test]
fn displays_are_read_and_changed() {
    let parse = |text: &str| display::parse_brightness(text.as_bytes(), &read_percentage);
    assert_eq!(parse("intel,backlight,120,50%,240\n").unwrap(), level(0.5));
    assert_eq!(parse("").unwrap_err().message, "brightness output is empty");
    assert_eq!(parse("a,b").unwrap_err().message, "brightness row malformed");
    assert_eq!(parse("a,b,c,x%").unwrap_err().message, "brightness is not numeric");
    assert_eq!(parse("a,b,c,101%").unwrap_err().message, "brightness is outside 0..100");
    for (state, on) in [("active", true), ("reloading", true), ("failed", false)] {
        assert_eq!(display::night_light_state(state).unwrap(), on);
    }
    assert!(display::night_light_state("odd").is_err());
    assert_eq!(display::night_light_method(true), "StartUnit");
    assert_eq!(display::night_light_method(false), "StopUnit");
    assert!(display::night_light_followed(true, true, 9, 5).unwrap());
    assert!(!display::night_light_followed(false, true, 4, 5).unwrap());
    assert_eq!(
        display::night_light_followed(false, true, 5, 5).unwrap_err().message,
        "night-light state did not converge"
    );
    assert_eq!(
        display::dbus_error(Some("org.freedesktop.systemd1.NoSuchUnit")).kind,
        ErrorKind::NotFound
    );
    let host = |_: &CommandSpec| out("intel,backlight,120,50%,240\n");
    let unit = || Ok("inactive".to_string());
    let switch = |_: bool| Ok::<(), SessionError>(());
    let near = |found: Level| found == level(0.5);
    let bright = DisplayCommand::SetBrightness { output_id: id("x"), level: requested(0.5) };
    let snapshot =
        display::mutate(&host, &host, &read_percentage, &unit, &switch, &near, &bright).unwrap();
    assert_eq!(snapshot.brightness, Some(level(0.5)));
    let night = DisplayCommand::SetNightLightEnabled { enabled: true };
    assert_eq!(
        display::mutate(&host, &host, &read_percentage, &unit, &switch, &near, &night)
            .unwrap_err()
            .message,
        "display readback did not confirm the requested state"
    );
}

#[test]
fn power_profiles_are_consistent() {
    let list = "* balanced:\n    CpuDriver: x\n  power-saver:\n";
    let snapshot = power::parse_snapshot(b"balanced\n", list.as_bytes()).unwrap();
    assert_eq!(snapshot.active_profile, PowerProfile::Balanced);
    assert_eq!(
        snapshot.available_profiles,
        [PowerProfile::Balanced, PowerProfile::PowerSaver]
    );
    assert_eq!(
        power::parse_snapshot(b"performance", list.as_bytes()).unwrap_err().message,
        "power profile readback is inconsistent"
    );
    assert_eq!(
        power::parse_snapshot(b"odd", list.as_bytes()).unwrap_err().message,
        "power profile is unknown"
    );
    assert!(power::mutate(power_host, &power_host, PowerProfile::Balanced).is_ok());
    assert_eq!(
        power::mutate(power_host, &power_host, PowerProfile::Performance).unwrap_err().message,
        "power profile readback did not confirm the requested state"
    );
    assert_eq!(power::mutation_spec(PowerProfile::PowerSaver).args, ["set", "power-saver"]);
}

#[test]
fn resources_are_read_from_the_kernel() {
    let stat = "cpu  10 20 30 40 5 0\ncpu0 1 2 3 4\n";
    let meminfo = "MemTotal:  1000 kB\nMemFree: 1 kB\nMemAvailable: 250 kB\n";
    let read_load = |text: &str| match text.parse::<f64>() {
        Err(_) => Number::NotNumeric,
        Ok(value) if value >= 0.0 => Number::Level(level(value)),
        Ok(_) => Number::OutOfRange,
    };
    let parse = |stat: &str, meminfo: &str, load: &str| {
        resources::parse_host_resources(stat, meminfo, load, &read_load)
    };
    let read = parse(stat, meminfo, "0.50 1 1\n").unwrap();
    assert_eq!(read.cpu, CpuCounters { idle: 45, total: 105 });
    assert_eq!((read.memory_total, read.memory_available), (1000, 250));
    assert_eq!(read.load_one, level(0.5));
    let fault = |stat: &str, meminfo: &str, load: &str| {
        parse(stat, meminfo, load).unwrap_err().message
    };
    assert_eq!(fault("x", meminfo, "0"), "missing aggregate CPU line");
    assert_eq!(fault("cpu 1 x 3 4", meminfo, "0"), "invalid aggregate CPU counter");
    assert_eq!(fault("cpu 1 2 3", meminfo, "0"), "aggregate CPU line has too few counters");
    let huge = "cpu 18446744073709551615 1 0 0";
    assert_eq!(fault(huge, meminfo, "0"), "CPU counters overflow");
    assert_eq!(fault(stat, "MemTotal: 1", "0"), "memory counter is missing");
    assert_eq!(fault(stat, "MemTotal: x\nMemAvailable: 1", "0"), "memory counter is invalid");
    assert_eq!(
        fault(stat, "MemTotal: 1\nMemAvailable: 2", "0"),
        "memory counters are inconsistent"
    );
    assert_eq!(fault(stat, meminfo, ""), "load average is empty");
    assert_eq!(fault(stat, meminfo, "x"), "load average is invalid");
    assert_eq!(fault(stat, meminfo, "-1"), "load average is outside its valid range");
    let mut producer = ResourceProducer::new();
    let counters = |idle, total| CpuCounters { idle, total };
    assert_eq!(producer.observe(counters(10, 100)), None);
    assert_eq!(producer.observe(counters(30, 150)), Some((20, 50)));
    assert_eq!(producer.observe(counters(30, 150)), None);
    let state = resources::failed_state(&SessionError::new(ErrorKind::NotFound, "x"));
    assert_eq!(state.status(), CapabilityAvailability::Unavailable);
    assert_eq!(state.diagnostic(), Some("resource probe failed: x"));
    assert_eq!(
        resources::worker_failed_state().diagnostic(),
        Some("resource probe worker failed")
    );
    assert_eq!(
        resources::sampled_state(level(0.1), level(0.2), level(0.3)).status(),
        CapabilityAvailability::Available
    );
}

#[test]
fn clipboard_commands_and_rows() {
    assert_eq!(list_spec().args, ["list"]);
    assert_eq!(clear_spec().args, ["wipe"]);
    assert_eq!(decode_spec(&id("clipboard:12")).unwrap().args, ["decode", "12"]);
    assert_eq!(decode_spec(&id("12")).unwrap_err().kind, ErrorKind::InvalidInput);
    assert!(decode_spec(&id("clipboard:012")).is_err());
    let entries = parse_entries(b"1\ttext/plain\thi\t2\n").unwrap();
    assert_eq!(entries[0].id, "clipboard:1");
    assert_eq!(entries[0].byte_length, 2);
    assert!(parse_entries(b"1\ttext/plain\thi\n").is_err());
    assert_eq!(preview(&['a', 'b']), "ab");
}

#[test]
fn system_commands_are_carried_out_and_read_back() {
    let run = |command| {
        execute_system_command(
            &|_: &CommandSpec| panic!("the network is read after the change alone"),
            network_host("enabled"),
            &network_host("enabled"),
            &read_volume,
            &read_progress,
            &read_percentage,
            &|| Ok("active".to_string()),
            |_| Ok(()),
            &|_| true,
            command,
        )
    };
    let state = run(DesktopSystemCommand::Legacy(SystemMutation::NetworkEnabled(true))).unwrap();
    assert_eq!(state.domain(), DesktopDomainId::Network);
    match state.value() {
        Some(DesktopDomainValue::Network(snapshot)) => assert!(snapshot.wifi_enabled),
        _ => panic!("the network is read back"),
    }
    let off = DesktopSystemCommand::Domain(DesktopSystemMutation::Network(
        NetworkCommand::SetWifiEnabled { enabled: false },
    ));
    assert!(run(off).is_err());
}

#[test]
fn system_domains_are_probed() {
    assert!(CoreSystemProducer::production(DesktopDomainId::Audio).is_ok());
    assert!(CoreSystemProducer::new(DesktopDomainId::Tray).is_err());
    let probe = |domain| {
        probe_domain(
            &network_host("enabled"),
            &read_volume,
            &read_progress,
            &read_percentage,
            &|| Ok("active".to_string()),
            domain,
        )
    };
    assert_eq!(
        probe(DesktopDomainId::Network).status(),
        CapabilityAvailability::Available
    );
    assert_eq!(
        probe(DesktopDomainId::Bluetooth).status(),
        CapabilityAvailability::Parse
    );
}

#[test]
fn records_of_the_older_interface_become_states() {
    let battery = CapabilityRecord {
        status: CapabilityAvailability::Available,
        value: Some(CapabilityValue::Battery {
            percentage: 40,
            charging: true,
            seconds_remaining: None,
        }),
        diagnostic: None,
    };
    let state = state_from_record(DesktopDomainId::Battery, battery);
    assert_eq!(state.status(), CapabilityAvailability::Available);
    match state.value() {
        Some(DesktopDomainValue::Battery(battery)) => assert_eq!(battery.percentage, 40),
        _ => panic!("the battery is shown"),
    }
    let failed = CapabilityRecord {
        status: CapabilityAvailability::Timeout,
        value: None,
        diagnostic: Some("late".to_string()),
    };
    let state = state_from_record(DesktopDomainId::Network, failed);
    assert_eq!(state.status(), CapabilityAvailability::Timeout);
    assert_eq!(state.diagnostic(), Some("late"));
    let odd = CapabilityRecord {
        status: CapabilityAvailability::Available,
        value: Some(CapabilityValue::Unrelated),
        diagnostic: None,
    };
    assert_eq!(
        state_from_record(DesktopDomainId::Network, odd).status(),
        CapabilityAvailability::Parse
    );
}

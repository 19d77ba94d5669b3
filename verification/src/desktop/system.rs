//! The domains of the system: network, Bluetooth, audio, media, battery, display
//! and power.

use vstd::prelude::*;

use crate::command::{grants_all, runs_of, CommandSpec, CommandView, Run, Runs};
use crate::error::{fails_with, ErrorKind, Fault, SessionError};
use crate::rows::{views, views_of_push};
use crate::text::{chars_of, is_blank, texts};

use super::audio::{AudioView, NodeView, StreamView};
use super::bluetooth::{BluetoothView, DeviceView};
use super::display::{states_of, DisplaySnapshot, UnitStates};
use super::domain::{
    terminal_or, AudioNode, AudioNodeKind, AudioSnapshot, BatterySnapshot, BluetoothDevice,
    BluetoothSnapshot, BrightnessSnapshot, CapabilityAvailability, DesktopDomainId,
    DesktopDomainState, DesktopDomainValue, DesktopPowerSnapshot, Level, MediaPlayer,
    MediaSnapshot, NetworkConnection, NetworkConnectionKind, NetworkSnapshot, NightLightSnapshot,
    PowerProfile,
};
use super::fraction::{can_read, reads_by, Number, Reader};
use super::media::{can_meter, meters_by, MediaView, Meter, PlayerView, Progress};
use super::network::{ConnectionView, NetworkView};
use super::power::{profile_named, PowerView};
use super::registry::{failed_as, terminal_state};

verus! {

/// How often a domain is read, in milliseconds.
pub const REFRESH_INTERVAL: u64 = 2_000;

/// The longest that reading a domain may take in all, in milliseconds.
pub const PROBE_DEADLINE: u64 = 1_750;

// ---------------------------------------------------------------------------
// Values
// ---------------------------------------------------------------------------

/// What the value of a system domain says.
pub enum CoreView {
    Network(NetworkView),
    Bluetooth(BluetoothView),
    Audio(AudioView),
    Media(MediaView),
    Battery(BatterySnapshot),
    Brightness(BrightnessSnapshot),
    NightLight(NightLightSnapshot),
    Power(PowerView),
}

pub open spec fn core_view(value: DesktopDomainValue) -> Option<CoreView> {
    match value {
        DesktopDomainValue::Network(value) => Some(CoreView::Network(value@)),
        DesktopDomainValue::Bluetooth(value) => Some(CoreView::Bluetooth(value@)),
        DesktopDomainValue::Audio(value) => Some(CoreView::Audio(value@)),
        DesktopDomainValue::Media(value) => Some(CoreView::Media(value@)),
        DesktopDomainValue::Battery(value) => Some(CoreView::Battery(value)),
        DesktopDomainValue::Brightness(value) => Some(CoreView::Brightness(value)),
        DesktopDomainValue::NightLight(value) => Some(CoreView::NightLight(value)),
        DesktopDomainValue::Power(value) => Some(CoreView::Power(value@)),
        _ => None,
    }
}

/// Whether a state has a value that says this.
pub open spec fn available_with(
    state: DesktopDomainState,
    domain: DesktopDomainId,
    view: CoreView,
) -> bool {
    &&& state.of() == domain
    &&& state.state() == CapabilityAvailability::Available
    &&& state.data() is Some
    &&& core_view(state.data()->Some_0) == Some(view)
    &&& state.reason() is None
}

// ---------------------------------------------------------------------------
// The producer
// ---------------------------------------------------------------------------

/// The producer of a system domain.
pub struct CoreSystemProducer {
    domain: DesktopDomainId,
}

pub open spec fn is_system_domain(domain: DesktopDomainId) -> bool {
    match domain {
        DesktopDomainId::Network | DesktopDomainId::Bluetooth | DesktopDomainId::Audio
        | DesktopDomainId::Media | DesktopDomainId::Battery | DesktopDomainId::Brightness
        | DesktopDomainId::NightLight | DesktopDomainId::Power => true,
        _ => false,
    }
}

impl CoreSystemProducer {
    pub closed spec fn serves(&self) -> DesktopDomainId {
        self.domain
    }

    pub fn production(domain: DesktopDomainId) -> (producer: Result<
        CoreSystemProducer,
        SessionError,
    >)
        ensures
            if is_system_domain(domain) {
                producer is Ok && producer->Ok_0.serves() == domain
            } else {
                fails_with(
                    producer,
                    ErrorKind::InvalidInput,
                    "core system producer was assigned a non-system domain"@,
                )
            },
    {
        CoreSystemProducer::new(domain)
    }

    pub fn new(domain: DesktopDomainId) -> (producer: Result<CoreSystemProducer, SessionError>)
        ensures
            if is_system_domain(domain) {
                producer is Ok && producer->Ok_0.serves() == domain
            } else {
                fails_with(
                    producer,
                    ErrorKind::InvalidInput,
                    "core system producer was assigned a non-system domain"@,
                )
            },
    {
        match domain {
            DesktopDomainId::Network | DesktopDomainId::Bluetooth | DesktopDomainId::Audio
            | DesktopDomainId::Media | DesktopDomainId::Battery | DesktopDomainId::Brightness
            | DesktopDomainId::NightLight | DesktopDomainId::Power => Ok(
                CoreSystemProducer { domain },
            ),
            _ => Err(
                SessionError::new(
                    ErrorKind::InvalidInput,
                    "core system producer was assigned a non-system domain",
                ),
            ),
        }
    }

    pub fn domain(&self) -> (domain: DesktopDomainId)
        ensures
            domain == self.serves(),
    {
        self.domain
    }
}

pub open spec fn availability_of(kind: ErrorKind) -> CapabilityAvailability {
    match kind {
        ErrorKind::NotFound | ErrorKind::NotConnected => CapabilityAvailability::Unavailable,
        ErrorKind::PermissionDenied => CapabilityAvailability::PermissionDenied,
        ErrorKind::TimedOut => CapabilityAvailability::Timeout,
        ErrorKind::InvalidData | ErrorKind::InvalidInput => CapabilityAvailability::Parse,
        ErrorKind::Unsupported => CapabilityAvailability::Unsupported,
        _ => CapabilityAvailability::Error,
    }
}

pub fn availability_for(kind: ErrorKind) -> (status: CapabilityAvailability)
    ensures
        status == availability_of(kind),
        status != CapabilityAvailability::Available,
{
    match kind {
        ErrorKind::NotFound | ErrorKind::NotConnected => CapabilityAvailability::Unavailable,
        ErrorKind::PermissionDenied => CapabilityAvailability::PermissionDenied,
        ErrorKind::TimedOut => CapabilityAvailability::Timeout,
        ErrorKind::InvalidData | ErrorKind::InvalidInput => CapabilityAvailability::Parse,
        ErrorKind::Unsupported => CapabilityAvailability::Unsupported,
        _ => CapabilityAvailability::Error,
    }
}

/// What is read of a domain, as a value or a failure.
pub type Probed = Result<CoreView, Fault>;

pub open spec fn probed(result: Result<DesktopDomainValue, SessionError>) -> Probed {
    match result {
        Ok(value) => Ok(core_view(value)->Some_0),
        Err(error) => Err((error.kind, error.message@)),
    }
}

pub open spec fn mapped<T>(result: Result<T, Fault>, wrap: spec_fn(T) -> CoreView) -> Probed {
    match result {
        Ok(view) => Ok(wrap(view)),
        Err(fault) => Err(fault),
    }
}

/// The two domains of the displays show their own part.
pub open spec fn display_part(domain: DesktopDomainId, snapshot: DisplaySnapshot) -> CoreView {
    if domain == DesktopDomainId::Brightness {
        CoreView::Brightness(BrightnessSnapshot { level: snapshot.brightness->Some_0 })
    } else {
        CoreView::NightLight(NightLightSnapshot { enabled: snapshot.night_light_enabled })
    }
}

/// The part of the displays that belongs to a domain.
pub fn display_value(domain: DesktopDomainId, snapshot: DisplaySnapshot) -> (value:
    DesktopDomainValue)
    requires
        domain == DesktopDomainId::Brightness || domain == DesktopDomainId::NightLight,
        domain == DesktopDomainId::Brightness ==> snapshot.brightness is Some,
    ensures
        super::domain::domain_of(value) == domain,
        core_view(value) == Some(display_part(domain, snapshot)),
{
    if domain == DesktopDomainId::Brightness {
        match snapshot.brightness {
            Some(level) => DesktopDomainValue::Brightness(BrightnessSnapshot { level }),
            None => vstd::pervasive::unreached(),
        }
    } else {
        DesktopDomainValue::NightLight(
            NightLightSnapshot { enabled: snapshot.night_light_enabled },
        )
    }
}

/// Whether a system domain is read: the programs lead to it.
pub open spec fn domain_by(
    domain: DesktopDomainId,
    runs: Runs,
    volumes: Reader,
    meter: Meter,
    percentages: Reader,
    units: UnitStates,
    read: Probed,
) -> bool {
    match domain {
        DesktopDomainId::Network => exists|result: Result<NetworkView, Fault>| #[trigger]
            super::network::snapshot_by(runs, result) && read == mapped(
                result,
                |view: NetworkView| CoreView::Network(view),
            ),
        DesktopDomainId::Bluetooth => exists|result: Result<BluetoothView, Fault>| #[trigger]
            super::bluetooth::snapshot_by(runs, result) && read == mapped(
                result,
                |view: BluetoothView| CoreView::Bluetooth(view),
            ),
        DesktopDomainId::Audio => exists|result: Result<AudioView, Fault>| #[trigger]
            super::audio::snapshot_by(runs, volumes, result) && read == mapped(
                result,
                |view: AudioView| CoreView::Audio(view),
            ),
        DesktopDomainId::Media => exists|result: Result<MediaView, Fault>| #[trigger]
            super::media::snapshot_by(runs, meter, result) && read == mapped(
                result,
                |view: MediaView| CoreView::Media(view),
            ),
        DesktopDomainId::Power => exists|result: Result<PowerView, Fault>| #[trigger]
            super::power::snapshot_by(runs, result) && read == mapped(
                result,
                |view: PowerView| CoreView::Power(view),
            ),
        _ => exists|result: Result<DisplaySnapshot, Fault>| #[trigger]
            super::display::snapshot_by(runs, percentages, units, result) && read == mapped(
                result,
                |view: DisplaySnapshot| display_part(domain, view),
            ),
    }
}

/// Whether a state tells what was read of a domain. The reason of a failure is
/// its text, or a fixed one in place of a blank text.
pub open spec fn reports(state: DesktopDomainState, domain: DesktopDomainId, probed: Probed) -> bool {
    match probed {
        Ok(view) => available_with(state, domain, view),
        Err(fault) => failed_as(
            state,
            domain,
            availability_of(fault.0),
            if is_blank(fault.1) {
                "desktop provider failed"@
            } else {
                fault.1
            },
        ),
    }
}

/// The state of a domain after it was read.
pub fn probed_state(
    domain: DesktopDomainId,
    result: Result<DesktopDomainValue, SessionError>,
) -> (state: DesktopDomainState)
    requires
        result is Ok ==> super::domain::domain_of(result->Ok_0) == domain && core_view(
            result->Ok_0,
        ) is Some,
    ensures
        reports(state, domain, probed(result)),
{
    match result {
        Ok(value) => match DesktopDomainState::available(domain, value) {
            Ok(state) => state,
            Err(_) => vstd::pervasive::unreached(),
        },
        Err(error) => failed_probe(domain, error),
    }
}

/// The state of a domain that could not be read.
pub fn failed_probe(domain: DesktopDomainId, error: SessionError) -> (state: DesktopDomainState)
    ensures
        failed_as(
            state,
            domain,
            availability_of(error.kind),
            if is_blank(error.message@) {
                "desktop provider failed"@
            } else {
                error.message@
            },
        ),
{
    proof {
        reveal_strlit("desktop provider failed");
        assert("desktop provider failed"@[0] == 'd');
    }
    terminal_or(
        domain,
        availability_for(error.kind),
        error.message,
        "desktop provider failed",
    )
}

/// The programs that read a system domain.
pub open spec fn reading_lines(domain: DesktopDomainId) -> spec_fn(CommandView) -> bool {
    match domain {
        DesktopDomainId::Network => super::network::reading_lines(),
        DesktopDomainId::Bluetooth => super::bluetooth::reading_lines(),
        DesktopDomainId::Audio => super::audio::reading_lines(),
        DesktopDomainId::Media => super::media::reading_lines(),
        DesktopDomainId::Power => super::power::reading_lines(),
        _ => super::display::reading_lines(),
    }
}

/// Reads a system domain other than the battery.
pub fn probe_domain<
    R: Fn(&CommandSpec) -> Run,
    V: Fn(&str) -> Number,
    M: Fn(&str, &str) -> Progress,
    P: Fn(&str) -> Number,
    U: Fn() -> Result<String, SessionError>,
>(
    runner: &R,
    read_volume: &V,
    read_progress: &M,
    read_percentage: &P,
    unit: &U,
    domain: DesktopDomainId,
) -> (state: DesktopDomainState)
    requires
        grants_all(*runner, reading_lines(domain)),
        can_read(*read_volume),
        can_meter(*read_progress),
        can_read(*read_percentage),
        domain == DesktopDomainId::Brightness || domain == DesktopDomainId::NightLight
            ==> call_requires(*unit, ()),
        is_system_domain(domain) && domain != DesktopDomainId::Battery,
    ensures
        state.of() == domain,
        forall|volumes: Reader, meter: Meter, percentages: Reader|
            #![trigger reads_by(*read_volume, volumes), meters_by(*read_progress, meter), reads_by(*read_percentage, percentages)]
            reads_by(*read_volume, volumes) && meters_by(*read_progress, meter) && reads_by(
                *read_percentage,
                percentages,
            ) ==> exists|read: Probed| #[trigger]
                domain_by(
                    domain,
                    runs_of(*runner),
                    volumes,
                    meter,
                    percentages,
                    states_of(*unit),
                    read,
                ) && reports(state, domain, read),
{
    let result = match domain {
        DesktopDomainId::Network => match super::network::probe(runner) {
            Ok(value) => Ok(DesktopDomainValue::Network(value)),
            Err(error) => Err(error),
        },
        DesktopDomainId::Bluetooth => match super::bluetooth::probe(runner) {
            Ok(value) => Ok(DesktopDomainValue::Bluetooth(value)),
            Err(error) => Err(error),
        },
        DesktopDomainId::Audio => match super::audio::probe(runner, read_volume) {
            Ok(value) => Ok(DesktopDomainValue::Audio(value)),
            Err(error) => Err(error),
        },
        DesktopDomainId::Media => match super::media::probe(runner, read_progress) {
            Ok(value) => Ok(DesktopDomainValue::Media(value)),
            Err(error) => Err(error),
        },
        DesktopDomainId::Power => match super::power::probe(runner) {
            Ok(value) => Ok(DesktopDomainValue::Power(value)),
            Err(error) => Err(error),
        },
        _ => match super::display::probe(runner, read_percentage, unit) {
            Ok(snapshot) => Ok(display_value(domain, snapshot)),
            Err(error) => Err(error),
        },
    };
    let ghost read = probed(result);
    let state = probed_state(domain, result);
    proof {
        assert forall|volumes: Reader, meter: Meter, percentages: Reader|
            #![trigger reads_by(*read_volume, volumes), meters_by(*read_progress, meter), reads_by(*read_percentage, percentages)]
            reads_by(*read_volume, volumes) && meters_by(*read_progress, meter) && reads_by(
                *read_percentage,
                percentages,
            ) implies domain_by(
            domain,
            runs_of(*runner),
            volumes,
            meter,
            percentages,
            states_of(*unit),
            read,
        ) by {}
    }
    state
}

// ---------------------------------------------------------------------------
// Records of the older system interface
// ---------------------------------------------------------------------------

/// A value of the older system interface.
pub enum CapabilityValue {
    Network { wifi_enabled: bool, active_connection_id: Option<String> },
    Bluetooth { powered: bool, connected_device_ids: Vec<String> },
    Audio {
        default_output_id: Option<String>,
        output_level: Level,
        output_muted: bool,
        input_level: Level,
        input_muted: bool,
    },
    Media { player_id: String, title: String, artist: String, playing: bool },
    Battery { percentage: u8, charging: bool, seconds_remaining: Option<u64> },
    PowerProfile { active: String, available: Vec<String> },
    /// A value that no domain of the desktop is made from.
    Unrelated,
}

/// A record of the older system interface.
pub struct CapabilityRecord {
    pub status: CapabilityAvailability,
    pub value: Option<CapabilityValue>,
    pub diagnostic: Option<String>,
}

pub open spec fn connected_as(id: Seq<char>) -> ConnectionView {
    ConnectionView { id, name: id, kind: NetworkConnectionKind::Wifi, connected: true }
}

pub open spec fn device_as(id: Seq<char>) -> DeviceView {
    DeviceView { id, name: id, paired: true, connected: true }
}

/// The profiles that names stand for, without the unknown names.
pub open spec fn known_profiles(names: Seq<Seq<char>>) -> Seq<PowerProfile>
    decreases names.len(),
{
    if names.len() == 0 {
        Seq::empty()
    } else {
        let earlier = known_profiles(names.drop_last());
        match profile_named(names.last()) {
            Some(profile) => earlier.push(profile),
            None => earlier,
        }
    }
}

/// What a value of the older interface says of a domain, if it belongs to it.
pub open spec fn converted(domain: DesktopDomainId, value: CapabilityValue) -> Option<CoreView> {
    match (domain, value) {
        (
            DesktopDomainId::Network,
            CapabilityValue::Network { wifi_enabled, active_connection_id },
        ) => Some(
            CoreView::Network(
                NetworkView {
                    wifi_enabled,
                    scanning: false,
                    access_points: Seq::empty(),
                    connections: match active_connection_id {
                        Some(id) => seq![connected_as(id@)],
                        None => Seq::empty(),
                    },
                },
            ),
        ),
        (
            DesktopDomainId::Bluetooth,
            CapabilityValue::Bluetooth { powered, connected_device_ids },
        ) => Some(
            CoreView::Bluetooth(
                BluetoothView {
                    powered,
                    scanning: false,
                    devices: texts(connected_device_ids@).map_values(
                        |id: Seq<char>| device_as(id),
                    ),
                },
            ),
        ),
        (
            DesktopDomainId::Audio,
            CapabilityValue::Audio {
                default_output_id,
                output_level,
                output_muted,
                input_level,
                input_muted,
            },
        ) => Some(
            CoreView::Audio(
                AudioView {
                    nodes: seq![
                        NodeView {
                            id: match default_output_id {
                                Some(id) => id@,
                                None => "default-output"@,
                            },
                            name: "Default output"@,
                            kind: AudioNodeKind::Output,
                            volume: output_level,
                            muted: output_muted,
                            is_default: true,
                        },
                        NodeView {
                            id: "default-input"@,
                            name: "Default input"@,
                            kind: AudioNodeKind::Input,
                            volume: input_level,
                            muted: input_muted,
                            is_default: true,
                        },
                    ],
                    streams: Seq::empty(),
                },
            ),
        ),
        (
            DesktopDomainId::Media,
            CapabilityValue::Media { player_id, title, artist, playing },
        ) => Some(
            CoreView::Media(
                MediaView {
                    players: seq![
                        PlayerView {
                            id: player_id@,
                            identity: "MPRIS"@,
                            title: title@,
                            artist: artist@,
                            playing,
                            progress: Level { bits: 0 },
                        },
                    ],
                },
            ),
        ),
        (
            DesktopDomainId::Battery,
            CapabilityValue::Battery { percentage, charging, seconds_remaining },
        ) => Some(
            CoreView::Battery(BatterySnapshot { percentage, charging, seconds_remaining }),
        ),
        (DesktopDomainId::Power, CapabilityValue::PowerProfile { active, available }) => {
            let available_profiles = known_profiles(texts(available@));
            match profile_named(active@) {
                Some(active_profile) => if available_profiles.contains(active_profile) {
                    Some(CoreView::Power(PowerView { active_profile, available_profiles }))
                } else {
                    None
                },
                None => None,
            }
        },
        _ => None,
    }
}

fn named_profile(name: &str) -> (profile: Option<PowerProfile>)
    ensures
        profile == profile_named(name@),
{
    super::power::parse_profile(chars_of(name).as_slice())
}

fn convert_power(active: &str, available: &Vec<String>) -> (snapshot: Option<DesktopPowerSnapshot>)
    ensures
        match snapshot {
            Some(snapshot) => {
                &&& profile_named(active@) == Some(snapshot.active_profile)
                &&& snapshot.available_profiles@ == known_profiles(texts(available@))
                &&& snapshot.available_profiles@.contains(snapshot.active_profile)
            },
            None => profile_named(active@) is None || !known_profiles(
                texts(available@),
            ).contains(profile_named(active@)->Some_0),
        },
{
    let ghost names = texts(available@);
    let mut profiles: Vec<PowerProfile> = Vec::new();
    for i in 0..available.len()
        invariant
            names == texts(available@),
            profiles@ == known_profiles(names.take(i as int)),
    {
        assert(names.take(i + 1).drop_last() =~= names.take(i as int));
        assert(names[i as int] == available@[i as int]@);
        match named_profile(available[i].as_str()) {
            Some(profile) => profiles.push(profile),
            None => {},
        }
    }
    assert(names.take(available@.len() as int) =~= names);
    let active_profile = match named_profile(active) {
        Some(profile) => profile,
        None => return None,
    };
    if super::power::has_profile(&profiles, active_profile) {
        Some(DesktopPowerSnapshot { active_profile, available_profiles: profiles })
    } else {
        None
    }
}

fn convert_devices(ids: &Vec<String>) -> (devices: Vec<BluetoothDevice>)
    ensures
        views(devices@) == texts(ids@).map_values(|id: Seq<char>| device_as(id)),
{
    let ghost all = texts(ids@).map_values(|id: Seq<char>| device_as(id));
    let mut devices: Vec<BluetoothDevice> = Vec::new();
    for i in 0..ids.len()
        invariant
            all == texts(ids@).map_values(|id: Seq<char>| device_as(id)),
            views(devices@) == all.take(i as int),
    {
        let device = BluetoothDevice {
            name: ids[i].clone(),
            id: ids[i].clone(),
            paired: true,
            connected: true,
        };
        proof {
            views_of_push(devices@, device);
            assert(device@ == all[i as int]);
        }
        devices.push(device);
        assert(views(devices@) =~= all.take(i + 1));
    }
    assert(all.take(ids@.len() as int) =~= all);
    devices
}

fn convert(domain: DesktopDomainId, value: CapabilityValue) -> (converted_value: Option<
    DesktopDomainValue,
>)
    ensures
        match converted_value {
            Some(result) => {
                &&& super::domain::domain_of(result) == domain
                &&& core_view(result) is Some
                &&& converted(domain, value) == core_view(result)
            },
            None => converted(domain, value) is None,
        },
{
    match (domain, value) {
        (
            DesktopDomainId::Network,
            CapabilityValue::Network { wifi_enabled, active_connection_id },
        ) => {
            let mut connections: Vec<NetworkConnection> = Vec::new();
            assert(views(connections@) =~= Seq::empty());
            match active_connection_id {
                Some(id) => {
                    let connection = NetworkConnection {
                        name: id.clone(),
                        id,
                        kind: NetworkConnectionKind::Wifi,
                        connected: true,
                    };
                    proof {
                        views_of_push(connections@, connection);
                    }
                    connections.push(connection);
                    assert(views(connections@) =~= seq![connected_as(id@)]);
                },
                None => {},
            }
            let snapshot = NetworkSnapshot {
                wifi_enabled,
                scanning: false,
                access_points: Vec::new(),
                connections,
            };
            assert(snapshot@.access_points =~= Seq::empty());
            assert(converted(domain, value) == Some(CoreView::Network(snapshot@)));
            Some(DesktopDomainValue::Network(snapshot))
        },
        (
            DesktopDomainId::Bluetooth,
            CapabilityValue::Bluetooth { powered, connected_device_ids },
        ) => Some(
            DesktopDomainValue::Bluetooth(
                BluetoothSnapshot {
                    powered,
                    scanning: false,
                    devices: convert_devices(&connected_device_ids),
                },
            ),
        ),
        (
            DesktopDomainId::Audio,
            CapabilityValue::Audio {
                default_output_id,
                output_level,
                output_muted,
                input_level,
                input_muted,
            },
        ) => {
            let output_id = match default_output_id {
                Some(id) => id,
                None => "default-output".to_owned(),
            };
            let output = AudioNode {
                id: output_id,
                name: "Default output".to_owned(),
                kind: AudioNodeKind::Output,
                volume: output_level,
                muted: output_muted,
                is_default: true,
            };
            let input = AudioNode {
                id: "default-input".to_owned(),
                name: "Default input".to_owned(),
                kind: AudioNodeKind::Input,
                volume: input_level,
                muted: input_muted,
                is_default: true,
            };
            let ghost shown = seq![output@, input@];
            let mut nodes: Vec<AudioNode> = Vec::new();
            nodes.push(output);
            nodes.push(input);
            assert(views(nodes@) =~= shown);
            let snapshot = AudioSnapshot { nodes, streams: Vec::new() };
            assert(snapshot@.streams =~= Seq::<StreamView>::empty());
            proof {
                let expected = converted(domain, value)->Some_0->Audio_0;
                assert(expected.nodes =~= snapshot@.nodes);
                assert(expected.streams =~= snapshot@.streams);
            }
            Some(DesktopDomainValue::Audio(snapshot))
        },
        (
            DesktopDomainId::Media,
            CapabilityValue::Media { player_id, title, artist, playing },
        ) => {
            let player = MediaPlayer {
                id: player_id,
                identity: "MPRIS".to_owned(),
                title,
                artist,
                playing,
                progress: Level { bits: 0 },
            };
            let ghost shown = seq![player@];
            let mut players: Vec<MediaPlayer> = Vec::new();
            players.push(player);
            assert(views(players@) =~= shown);
            let snapshot = MediaSnapshot { players };
            assert(converted(domain, value) == Some(CoreView::Media(snapshot@)));
            Some(DesktopDomainValue::Media(snapshot))
        },
        (
            DesktopDomainId::Battery,
            CapabilityValue::Battery { percentage, charging, seconds_remaining },
        ) => Some(
            DesktopDomainValue::Battery(
                BatterySnapshot { percentage, charging, seconds_remaining },
            ),
        ),
        (DesktopDomainId::Power, CapabilityValue::PowerProfile { active, available }) => {
            match convert_power(active.as_str(), &available) {
                Some(snapshot) => Some(DesktopDomainValue::Power(snapshot)),
                None => None,
            }
        },
        _ => None,
    }
}

/// Why a record has no value.
pub open spec fn record_reason(record: CapabilityRecord) -> Seq<char> {
    match record.diagnostic {
        Some(text) => text@,
        None => "system provider failed"@,
    }
}

/// Whether a state tells what a record says of a domain.
pub open spec fn told_by_record(
    state: DesktopDomainState,
    domain: DesktopDomainId,
    record: CapabilityRecord,
) -> bool {
    if record.status != CapabilityAvailability::Available {
        failed_as(state, domain, record.status, record_reason(record))
    } else if record.value is Some && converted(domain, record.value->Some_0) is Some {
        available_with(state, domain, converted(domain, record.value->Some_0)->Some_0)
    } else {
        failed_as(
            state,
            domain,
            CapabilityAvailability::Parse,
            "system adapter returned a mismatched or invalid typed value"@,
        )
    }
}

/// The state of a domain from a record of the older interface.
pub fn state_from_record(domain: DesktopDomainId, record: CapabilityRecord) -> (state:
    DesktopDomainState)
    requires
        record.status != CapabilityAvailability::Available ==> !is_blank(record_reason(record)),
    ensures
        told_by_record(state, domain, record),
{
    if !matches!(record.status, CapabilityAvailability::Available) {
        return terminal_from_record(domain, record);
    }
    let value = match record.value {
        Some(value) => convert(domain, value),
        None => None,
    };
    match value {
        Some(value) => match DesktopDomainState::available(domain, value) {
            Ok(state) => state,
            Err(_) => vstd::pervasive::unreached(),
        },
        None => {
            proof {
                reveal_strlit("system adapter returned a mismatched or invalid typed value");
                assert("system adapter returned a mismatched or invalid typed value"@[0] == 's');
            }
            terminal_state(
                domain,
                CapabilityAvailability::Parse,
                "system adapter returned a mismatched or invalid typed value",
            )
        },
    }
}

fn terminal_from_record(domain: DesktopDomainId, record: CapabilityRecord) -> (state:
    DesktopDomainState)
    requires
        record.status != CapabilityAvailability::Available,
        !is_blank(record_reason(record)),
    ensures
        failed_as(state, domain, record.status, record_reason(record)),
{
    let reason = match record.diagnostic {
        Some(text) => text,
        None => "system provider failed".to_owned(),
    };
    terminal_state(domain, record.status, reason.as_str())
}

} // verus!

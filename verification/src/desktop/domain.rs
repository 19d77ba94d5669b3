//! Desktop domains, their typed values and their states.

use vstd::prelude::*;

use crate::error::{fails_with, ErrorKind, SessionError};
use crate::notifications::document::{NotificationDocument, WIRE_SCHEMA_VERSION};
use crate::text::{blank_text, is_blank};

verus! {

#[derive(Debug, Clone, Copy, PartialEq, Eq, Structural)]
pub enum DesktopDomainId {
    Network,
    Bluetooth,
    Audio,
    Media,
    Battery,
    Brightness,
    NightLight,
    Power,
    Osd,
    Lock,
    Hyprland,
    Notifications,
    Launcher,
    Calendar,
    Weather,
    Appearance,
    Resources,
    Tray,
    Clipboard,
    Recording,
    IdleInhibit,
    GameMode,
    Screenshot,
    ColorPicker,
}

/// The number of domains.
pub const DOMAIN_COUNT: usize = 24;

impl DesktopDomainId {
    /// The place of a domain in the order of all domains.
    pub open spec fn place(self) -> int {
        match self {
            DesktopDomainId::Network => 0,
            DesktopDomainId::Bluetooth => 1,
            DesktopDomainId::Audio => 2,
            DesktopDomainId::Media => 3,
            DesktopDomainId::Battery => 4,
            DesktopDomainId::Brightness => 5,
            DesktopDomainId::NightLight => 6,
            DesktopDomainId::Power => 7,
            DesktopDomainId::Osd => 8,
            DesktopDomainId::Lock => 9,
            DesktopDomainId::Hyprland => 10,
            DesktopDomainId::Notifications => 11,
            DesktopDomainId::Launcher => 12,
            DesktopDomainId::Calendar => 13,
            DesktopDomainId::Weather => 14,
            DesktopDomainId::Appearance => 15,
            DesktopDomainId::Resources => 16,
            DesktopDomainId::Tray => 17,
            DesktopDomainId::Clipboard => 18,
            DesktopDomainId::Recording => 19,
            DesktopDomainId::IdleInhibit => 20,
            DesktopDomainId::GameMode => 21,
            DesktopDomainId::Screenshot => 22,
            DesktopDomainId::ColorPicker => 23,
        }
    }

    pub fn index(self) -> (place: usize)
        ensures
            place == self.place(),
            place < DOMAIN_COUNT,
    {
        match self {
            DesktopDomainId::Network => 0,
            DesktopDomainId::Bluetooth => 1,
            DesktopDomainId::Audio => 2,
            DesktopDomainId::Media => 3,
            DesktopDomainId::Battery => 4,
            DesktopDomainId::Brightness => 5,
            DesktopDomainId::NightLight => 6,
            DesktopDomainId::Power => 7,
            DesktopDomainId::Osd => 8,
            DesktopDomainId::Lock => 9,
            DesktopDomainId::Hyprland => 10,
            DesktopDomainId::Notifications => 11,
            DesktopDomainId::Launcher => 12,
            DesktopDomainId::Calendar => 13,
            DesktopDomainId::Weather => 14,
            DesktopDomainId::Appearance => 15,
            DesktopDomainId::Resources => 16,
            DesktopDomainId::Tray => 17,
            DesktopDomainId::Clipboard => 18,
            DesktopDomainId::Recording => 19,
            DesktopDomainId::IdleInhibit => 20,
            DesktopDomainId::GameMode => 21,
            DesktopDomainId::Screenshot => 22,
            DesktopDomainId::ColorPicker => 23,
        }
    }

    /// The domain at a place in the order of all domains.
    pub open spec fn at(place: int) -> DesktopDomainId {
        if place == 0 {
            DesktopDomainId::Network
        } else if place == 1 {
            DesktopDomainId::Bluetooth
        } else if place == 2 {
            DesktopDomainId::Audio
        } else if place == 3 {
            DesktopDomainId::Media
        } else if place == 4 {
            DesktopDomainId::Battery
        } else if place == 5 {
            DesktopDomainId::Brightness
        } else if place == 6 {
            DesktopDomainId::NightLight
        } else if place == 7 {
            DesktopDomainId::Power
        } else if place == 8 {
            DesktopDomainId::Osd
        } else if place == 9 {
            DesktopDomainId::Lock
        } else if place == 10 {
            DesktopDomainId::Hyprland
        } else if place == 11 {
            DesktopDomainId::Notifications
        } else if place == 12 {
            DesktopDomainId::Launcher
        } else if place == 13 {
            DesktopDomainId::Calendar
        } else if place == 14 {
            DesktopDomainId::Weather
        } else if place == 15 {
            DesktopDomainId::Appearance
        } else if place == 16 {
            DesktopDomainId::Resources
        } else if place == 17 {
            DesktopDomainId::Tray
        } else if place == 18 {
            DesktopDomainId::Clipboard
        } else if place == 19 {
            DesktopDomainId::Recording
        } else if place == 20 {
            DesktopDomainId::IdleInhibit
        } else if place == 21 {
            DesktopDomainId::GameMode
        } else if place == 22 {
            DesktopDomainId::Screenshot
        } else {
            DesktopDomainId::ColorPicker
        }
    }

    pub fn from_index(place: usize) -> (domain: DesktopDomainId)
        requires
            place < DOMAIN_COUNT,
        ensures
            domain == DesktopDomainId::at(place as int),
            domain.place() == place,
    {
        match place {
            0 => DesktopDomainId::Network,
            1 => DesktopDomainId::Bluetooth,
            2 => DesktopDomainId::Audio,
            3 => DesktopDomainId::Media,
            4 => DesktopDomainId::Battery,
            5 => DesktopDomainId::Brightness,
            6 => DesktopDomainId::NightLight,
            7 => DesktopDomainId::Power,
            8 => DesktopDomainId::Osd,
            9 => DesktopDomainId::Lock,
            10 => DesktopDomainId::Hyprland,
            11 => DesktopDomainId::Notifications,
            12 => DesktopDomainId::Launcher,
            13 => DesktopDomainId::Calendar,
            14 => DesktopDomainId::Weather,
            15 => DesktopDomainId::Appearance,
            16 => DesktopDomainId::Resources,
            17 => DesktopDomainId::Tray,
            18 => DesktopDomainId::Clipboard,
            19 => DesktopDomainId::Recording,
            20 => DesktopDomainId::IdleInhibit,
            21 => DesktopDomainId::GameMode,
            22 => DesktopDomainId::Screenshot,
            _ => DesktopDomainId::ColorPicker,
        }
    }

    /// Every domain, in order.
    pub fn all() -> (domains: Vec<DesktopDomainId>)
        ensures
            domains@ == Seq::new(24, |i: int| DesktopDomainId::at(i)),
    {
        let mut domains: Vec<DesktopDomainId> = Vec::new();
        for i in 0..DOMAIN_COUNT
            invariant
                domains@ == Seq::new(i as nat, |i: int| DesktopDomainId::at(i)),
        {
            domains.push(DesktopDomainId::from_index(i));
            assert(domains@ =~= Seq::new((i + 1) as nat, |i: int| DesktopDomainId::at(i)));
        }
        domains
    }

    /// The name of a domain in a diagnostic.
    pub open spec fn title(self) -> Seq<char> {
        match self {
            DesktopDomainId::Network => "Network"@,
            DesktopDomainId::Bluetooth => "Bluetooth"@,
            DesktopDomainId::Audio => "Audio"@,
            DesktopDomainId::Media => "Media"@,
            DesktopDomainId::Battery => "Battery"@,
            DesktopDomainId::Brightness => "Brightness"@,
            DesktopDomainId::NightLight => "NightLight"@,
            DesktopDomainId::Power => "Power"@,
            DesktopDomainId::Osd => "Osd"@,
            DesktopDomainId::Lock => "Lock"@,
            DesktopDomainId::Hyprland => "Hyprland"@,
            DesktopDomainId::Notifications => "Notifications"@,
            DesktopDomainId::Launcher => "Launcher"@,
            DesktopDomainId::Calendar => "Calendar"@,
            DesktopDomainId::Weather => "Weather"@,
            DesktopDomainId::Appearance => "Appearance"@,
            DesktopDomainId::Resources => "Resources"@,
            DesktopDomainId::Tray => "Tray"@,
            DesktopDomainId::Clipboard => "Clipboard"@,
            DesktopDomainId::Recording => "Recording"@,
            DesktopDomainId::IdleInhibit => "IdleInhibit"@,
            DesktopDomainId::GameMode => "GameMode"@,
            DesktopDomainId::Screenshot => "Screenshot"@,
            DesktopDomainId::ColorPicker => "ColorPicker"@,
        }
    }

    pub fn name(self) -> (name: &'static str)
        ensures
            name@ == self.title(),
    {
        match self {
            DesktopDomainId::Network => "Network",
            DesktopDomainId::Bluetooth => "Bluetooth",
            DesktopDomainId::Audio => "Audio",
            DesktopDomainId::Media => "Media",
            DesktopDomainId::Battery => "Battery",
            DesktopDomainId::Brightness => "Brightness",
            DesktopDomainId::NightLight => "NightLight",
            DesktopDomainId::Power => "Power",
            DesktopDomainId::Osd => "Osd",
            DesktopDomainId::Lock => "Lock",
            DesktopDomainId::Hyprland => "Hyprland",
            DesktopDomainId::Notifications => "Notifications",
            DesktopDomainId::Launcher => "Launcher",
            DesktopDomainId::Calendar => "Calendar",
            DesktopDomainId::Weather => "Weather",
            DesktopDomainId::Appearance => "Appearance",
            DesktopDomainId::Resources => "Resources",
            DesktopDomainId::Tray => "Tray",
            DesktopDomainId::Clipboard => "Clipboard",
            DesktopDomainId::Recording => "Recording",
            DesktopDomainId::IdleInhibit => "IdleInhibit",
            DesktopDomainId::GameMode => "GameMode",
            DesktopDomainId::Screenshot => "Screenshot",
            DesktopDomainId::ColorPicker => "ColorPicker",
        }
    }
}

/// Each domain stands at its own place.
pub proof fn places_are_a_bijection(domain: DesktopDomainId, place: int)
    ensures
        0 <= domain.place() < DOMAIN_COUNT,
        DesktopDomainId::at(domain.place()) == domain,
        0 <= place < DOMAIN_COUNT ==> DesktopDomainId::at(place).place() == place,
{
}

/// Whether a capability can be used, and if not, why.
#[derive(Debug, Clone, Copy, PartialEq, Eq, Structural)]
pub enum CapabilityAvailability {
    Available,
    Unavailable,
    Unsupported,
    PermissionDenied,
    Timeout,
    Parse,
    Error,
}

// ---------------------------------------------------------------------------
// Values
// ---------------------------------------------------------------------------

/// A fraction, kept as the bit pattern of a double.
#[derive(Debug, Clone, Copy, PartialEq, Eq, Structural)]
pub struct Level {
    pub bits: u64,
}

/// An identifier that stays the same over the life of what it names.
#[derive(Debug, Clone, PartialEq, Eq)]
pub struct StableId(pub String);

impl StableId {
    pub fn as_str(&self) -> (text: &str)
        ensures
            text@ == self.0@,
    {
        self.0.as_str()
    }
}

#[derive(Debug, Clone, PartialEq, Eq)]
pub struct NetworkAccessPoint {
    pub id: String,
    pub ssid: String,
    /// The signal strength in percent.
    pub signal: u8,
    pub secured: bool,
}

#[derive(Debug, Clone, Copy, PartialEq, Eq, Structural)]
pub enum NetworkConnectionKind {
    Wifi,
    Ethernet,
    Vpn,
}

#[derive(Debug, Clone, PartialEq, Eq)]
pub struct NetworkConnection {
    pub id: String,
    pub name: String,
    pub kind: NetworkConnectionKind,
    pub connected: bool,
}

#[derive(Debug, Clone, PartialEq, Eq)]
pub struct NetworkSnapshot {
    pub wifi_enabled: bool,
    pub scanning: bool,
    pub access_points: Vec<NetworkAccessPoint>,
    pub connections: Vec<NetworkConnection>,
}

#[derive(Debug, Clone, PartialEq, Eq)]
pub struct BluetoothDevice {
    pub id: String,
    pub name: String,
    pub paired: bool,
    pub connected: bool,
}

#[derive(Debug, Clone, PartialEq, Eq)]
pub struct BluetoothSnapshot {
    pub powered: bool,
    pub scanning: bool,
    pub devices: Vec<BluetoothDevice>,
}

#[derive(Debug, Clone, Copy, PartialEq, Eq, Structural)]
pub enum AudioNodeKind {
    Output,
    Input,
}

#[derive(Debug, Clone, PartialEq, Eq)]
pub struct AudioNode {
    pub id: String,
    pub name: String,
    pub kind: AudioNodeKind,
    pub volume: Level,
    pub muted: bool,
    pub is_default: bool,
}

#[derive(Debug, Clone, PartialEq, Eq)]
pub struct AudioStream {
    pub id: String,
    pub name: String,
    pub node_id: String,
    pub volume: Level,
    pub muted: bool,
}

#[derive(Debug, Clone, PartialEq, Eq)]
pub struct AudioSnapshot {
    pub nodes: Vec<AudioNode>,
    pub streams: Vec<AudioStream>,
}

#[derive(Debug, Clone, PartialEq, Eq)]
pub struct MediaPlayer {
    pub id: String,
    pub identity: String,
    pub title: String,
    pub artist: String,
    pub playing: bool,
    pub progress: Level,
}

#[derive(Debug, Clone, PartialEq, Eq)]
pub struct MediaSnapshot {
    pub players: Vec<MediaPlayer>,
}

#[derive(Debug, Clone, Copy, PartialEq, Eq, Structural)]
pub struct BatterySnapshot {
    /// The charge in percent.
    pub percentage: u8,
    pub charging: bool,
    pub seconds_remaining: Option<u64>,
}

#[derive(Debug, Clone, Copy, PartialEq, Eq, Structural)]
pub struct BrightnessSnapshot {
    pub level: Level,
}

#[derive(Debug, Clone, Copy, PartialEq, Eq, Structural)]
pub struct NightLightSnapshot {
    pub enabled: bool,
}

#[derive(Debug, Clone, Copy, PartialEq, Eq, Structural)]
pub enum PowerProfile {
    PowerSaver,
    Balanced,
    Performance,
}

#[derive(Debug, Clone, PartialEq, Eq)]
pub struct DesktopPowerSnapshot {
    pub active_profile: PowerProfile,
    pub available_profiles: Vec<PowerProfile>,
}

/// What an on-screen display shows.
#[derive(Debug, Clone, Copy, PartialEq, Eq, Structural)]
pub enum OsdKind {
    Volume,
    Microphone,
    Brightness,
    Media,
    Network,
    Power,
}

#[derive(Debug, Clone, PartialEq, Eq)]
pub struct OsdEvent {
    pub schema_version: u32,
    pub output_id: String,
    pub kind: OsdKind,
    pub level: Option<Level>,
    pub muted: Option<bool>,
    pub label: String,
}

#[derive(Debug, Clone, PartialEq, Eq)]
pub struct DesktopOsdSnapshot {
    /// Whether something is shown; it is then the first of the history.
    pub showing: bool,
    pub history: Vec<OsdEvent>,
}

#[derive(Debug, Clone, Copy, PartialEq, Eq, Structural)]
pub struct LockState {
    pub secure: bool,
}

#[derive(Debug, Clone, Copy, PartialEq, Eq, Structural)]
pub struct HyprlandActionCapabilities {
    pub focus_window: bool,
    pub move_window_to_workspace: bool,
    pub close_window: bool,
    pub focus_workspace: bool,
    pub move_workspace_to_monitor: bool,
    pub toggle_fullscreen: bool,
    pub toggle_floating: bool,
    pub toggle_pinned: bool,
    pub toggle_group: bool,
    pub exit: bool,
}

/// The compositor. Its monitors, workspaces and windows are JSON documents of
/// the compositor adapter; only the identifiers of the monitors are read here.
#[derive(Debug, Clone, PartialEq, Eq)]
pub struct HyprlandSnapshot {
    pub action_capabilities: HyprlandActionCapabilities,
    pub monitor_ids: Vec<String>,
    pub monitors: Vec<String>,
    pub workspaces: Vec<String>,
    pub windows: Vec<String>,
}

#[derive(Debug, Clone, PartialEq, Eq)]
pub struct DesktopNotificationSnapshot {
    pub dnd: bool,
    pub active: Vec<NotificationDocument>,
}

#[derive(Debug, Clone, PartialEq, Eq)]
pub struct LauncherEntry {
    pub id: String,
    pub name: String,
    pub icon: String,
}

/// The calendar window. The events are JSON documents of the calendar backend.
#[derive(Debug, Clone, PartialEq, Eq)]
pub struct CalendarSnapshot {
    pub schema_version: u32,
    pub provider_id: String,
    pub window_start: String,
    pub window_end: String,
    pub events: Vec<String>,
    pub source_errors: Vec<String>,
}

#[derive(Debug, Clone, PartialEq, Eq)]
pub struct WeatherLocation {
    pub display_name: String,
    pub latitude: Level,
    pub longitude: Level,
}

#[derive(Debug, Clone, Copy, PartialEq, Eq, Structural)]
pub enum ProviderStatus {
    Online,
    Offline,
}

#[derive(Debug, Clone, Copy, PartialEq, Eq, Structural)]
pub enum CacheStatus {
    Fresh,
    Stale,
    Missing,
}

/// The weather. The forecast is a list of JSON documents of the weather backend.
#[derive(Debug, Clone, PartialEq, Eq)]
pub struct WeatherSnapshot {
    pub schema_version: u32,
    pub provider_id: String,
    pub location: WeatherLocation,
    pub status: ProviderStatus,
    pub cache: CacheStatus,
    pub attribution: String,
    pub forecast: Vec<String>,
    pub diagnostic: Option<String>,
}

/// The theme, a JSON document of the theme manager, and the wallpaper.
#[derive(Debug, Clone, PartialEq, Eq)]
pub struct AppearanceValue {
    pub theme: String,
    pub wallpaper_id: String,
}

/// One sample of the use of the host.
#[derive(Debug, Clone, PartialEq, Eq)]
pub struct ResourceSample {
    pub id: String,
    pub cpu_usage: Level,
    pub memory_usage: Level,
    pub load_one: Level,
}

#[derive(Debug, PartialEq, Eq)]
pub struct TrayMenuNode {
    pub id: String,
    pub label: String,
    pub enabled: bool,
    pub children: Vec<TrayMenuNode>,
}

#[derive(Debug, PartialEq, Eq)]
pub struct TrayItem {
    pub id: String,
    pub title: String,
    pub menu: TrayMenuNode,
}

#[derive(Debug, Clone, PartialEq, Eq)]
pub struct ClipboardEntry {
    pub id: String,
    pub mime_type: String,
    pub preview: String,
    pub byte_length: u64,
}

#[derive(Debug, Clone, Copy, PartialEq, Eq, Structural)]
pub enum RecordingStatus {
    Inactive,
    Recording,
    Paused,
}

#[derive(Debug, Clone, PartialEq, Eq)]
pub struct RecordingState {
    pub status: RecordingStatus,
    pub recording_id: Option<String>,
    pub output_id: Option<String>,
}

#[derive(Debug, PartialEq, Eq)]
pub enum DesktopDomainValue {
    Network(NetworkSnapshot),
    Bluetooth(BluetoothSnapshot),
    Audio(AudioSnapshot),
    Media(MediaSnapshot),
    Battery(BatterySnapshot),
    Brightness(BrightnessSnapshot),
    NightLight(NightLightSnapshot),
    Power(DesktopPowerSnapshot),
    Osd(DesktopOsdSnapshot),
    Lock(LockState),
    Hyprland(HyprlandSnapshot),
    Notifications(DesktopNotificationSnapshot),
    Launcher(Vec<LauncherEntry>),
    Calendar(CalendarSnapshot),
    Weather(WeatherSnapshot),
    Appearance(AppearanceValue),
    Resources(Vec<ResourceSample>),
    Tray(Vec<TrayItem>),
    Clipboard(Vec<ClipboardEntry>),
    Recording(RecordingState),
    IdleInhibit(bool),
    GameMode(bool),
    Screenshot,
    ColorPicker,
}

/// The domain that a value belongs to.
pub open spec fn domain_of(value: DesktopDomainValue) -> DesktopDomainId {
    match value {
        DesktopDomainValue::Network(_) => DesktopDomainId::Network,
        DesktopDomainValue::Bluetooth(_) => DesktopDomainId::Bluetooth,
        DesktopDomainValue::Audio(_) => DesktopDomainId::Audio,
        DesktopDomainValue::Media(_) => DesktopDomainId::Media,
        DesktopDomainValue::Battery(_) => DesktopDomainId::Battery,
        DesktopDomainValue::Brightness(_) => DesktopDomainId::Brightness,
        DesktopDomainValue::NightLight(_) => DesktopDomainId::NightLight,
        DesktopDomainValue::Power(_) => DesktopDomainId::Power,
        DesktopDomainValue::Osd(_) => DesktopDomainId::Osd,
        DesktopDomainValue::Lock(_) => DesktopDomainId::Lock,
        DesktopDomainValue::Hyprland(_) => DesktopDomainId::Hyprland,
        DesktopDomainValue::Notifications(_) => DesktopDomainId::Notifications,
        DesktopDomainValue::Launcher(_) => DesktopDomainId::Launcher,
        DesktopDomainValue::Calendar(_) => DesktopDomainId::Calendar,
        DesktopDomainValue::Weather(_) => DesktopDomainId::Weather,
        DesktopDomainValue::Appearance(_) => DesktopDomainId::Appearance,
        DesktopDomainValue::Resources(_) => DesktopDomainId::Resources,
        DesktopDomainValue::Tray(_) => DesktopDomainId::Tray,
        DesktopDomainValue::Clipboard(_) => DesktopDomainId::Clipboard,
        DesktopDomainValue::Recording(_) => DesktopDomainId::Recording,
        DesktopDomainValue::IdleInhibit(_) => DesktopDomainId::IdleInhibit,
        DesktopDomainValue::GameMode(_) => DesktopDomainId::GameMode,
        DesktopDomainValue::Screenshot => DesktopDomainId::Screenshot,
        DesktopDomainValue::ColorPicker => DesktopDomainId::ColorPicker,
    }
}

/// What the compositor adapter is able to do.
pub open spec fn offered_actions() -> HyprlandActionCapabilities {
    HyprlandActionCapabilities {
        focus_window: true,
        move_window_to_workspace: true,
        close_window: true,
        focus_workspace: true,
        move_workspace_to_monitor: true,
        toggle_fullscreen: false,
        toggle_floating: true,
        toggle_pinned: true,
        toggle_group: false,
        exit: true,
    }
}

pub fn hyprland_action_capabilities() -> (actions: HyprlandActionCapabilities)
    ensures
        actions == offered_actions(),
{
    HyprlandActionCapabilities {
        focus_window: true,
        move_window_to_workspace: true,
        close_window: true,
        focus_workspace: true,
        move_workspace_to_monitor: true,
        toggle_fullscreen: false,
        toggle_floating: true,
        toggle_pinned: true,
        toggle_group: false,
        exit: true,
    }
}

/// Whether a calendar is the one shown when there is none.
pub open spec fn is_empty_calendar(calendar: CalendarSnapshot) -> bool {
    &&& calendar.schema_version == WIRE_SCHEMA_VERSION
    &&& calendar.provider_id@ == "sleepy-calendar"@
    &&& calendar.window_start@ == "1970-01-01T00:00:00Z"@
    &&& calendar.window_end@ == "1970-01-02T00:00:00Z"@
    &&& calendar.events@.len() == 0
    &&& calendar.source_errors@.len() == 0
}

pub fn empty_calendar() -> (calendar: CalendarSnapshot)
    ensures
        is_empty_calendar(calendar),
{
    CalendarSnapshot {
        schema_version: WIRE_SCHEMA_VERSION,
        provider_id: "sleepy-calendar".to_owned(),
        window_start: "1970-01-01T00:00:00Z".to_owned(),
        window_end: "1970-01-02T00:00:00Z".to_owned(),
        events: Vec::new(),
        source_errors: Vec::new(),
    }
}

/// Whether a weather report is the one shown when there is none.
pub open spec fn is_empty_weather(weather: WeatherSnapshot) -> bool {
    &&& weather.schema_version == WIRE_SCHEMA_VERSION
    &&& weather.provider_id@ == "sleepy-weather"@
    &&& weather.location.display_name@ == "Unconfigured"@
    &&& weather.location.latitude.bits == 0
    &&& weather.location.longitude.bits == 0
    &&& weather.status == ProviderStatus::Offline
    &&& weather.cache == CacheStatus::Missing
    &&& weather.attribution@ == "Weather unavailable"@
    &&& weather.forecast@.len() == 0
    &&& weather.diagnostic is Some
    &&& weather.diagnostic->Some_0@ == "weather location is not configured"@
}

pub fn empty_weather() -> (weather: WeatherSnapshot)
    ensures
        is_empty_weather(weather),
{
    WeatherSnapshot {
        schema_version: WIRE_SCHEMA_VERSION,
        provider_id: "sleepy-weather".to_owned(),
        location: WeatherLocation {
            display_name: "Unconfigured".to_owned(),
            latitude: Level { bits: 0 },
            longitude: Level { bits: 0 },
        },
        status: ProviderStatus::Offline,
        cache: CacheStatus::Missing,
        attribution: "Weather unavailable".to_owned(),
        forecast: Vec::new(),
        diagnostic: Some("weather location is not configured".to_owned()),
    }
}

/// Whether a value is the one that a domain has before anything is known.
pub open spec fn is_empty_value(value: DesktopDomainValue, theme: Seq<char>) -> bool {
    match value {
        DesktopDomainValue::Network(network) => {
            &&& !network.wifi_enabled
            &&& !network.scanning
            &&& network.access_points@.len() == 0
            &&& network.connections@.len() == 0
        },
        DesktopDomainValue::Bluetooth(bluetooth) => {
            &&& !bluetooth.powered
            &&& !bluetooth.scanning
            &&& bluetooth.devices@.len() == 0
        },
        DesktopDomainValue::Audio(audio) => audio.nodes@.len() == 0 && audio.streams@.len() == 0,
        DesktopDomainValue::Media(media) => media.players@.len() == 0,
        DesktopDomainValue::Battery(battery) => battery == (BatterySnapshot {
            percentage: 0,
            charging: false,
            seconds_remaining: None,
        }),
        DesktopDomainValue::Brightness(brightness) => brightness.level.bits == 0,
        DesktopDomainValue::NightLight(light) => !light.enabled,
        DesktopDomainValue::Power(power) => {
            &&& power.active_profile == PowerProfile::Balanced
            &&& power.available_profiles@ == seq![PowerProfile::Balanced]
        },
        DesktopDomainValue::Osd(osd) => !osd.showing && osd.history@.len() == 0,
        DesktopDomainValue::Lock(lock) => !lock.secure,
        DesktopDomainValue::Hyprland(hyprland) => {
            &&& hyprland.action_capabilities == offered_actions()
            &&& hyprland.monitor_ids@.len() == 0
            &&& hyprland.monitors@.len() == 0
            &&& hyprland.workspaces@.len() == 0
            &&& hyprland.windows@.len() == 0
        },
        DesktopDomainValue::Notifications(notifications) => !notifications.dnd
            && notifications.active@.len() == 0,
        DesktopDomainValue::Launcher(entries) => entries@.len() == 0,
        DesktopDomainValue::Calendar(calendar) => is_empty_calendar(calendar),
        DesktopDomainValue::Weather(weather) => is_empty_weather(weather),
        DesktopDomainValue::Appearance(appearance) => appearance.theme@ == theme
            && appearance.wallpaper_id@ == "builtin.sleepy-default"@,
        DesktopDomainValue::Resources(samples) => samples@.len() == 0,
        DesktopDomainValue::Tray(items) => items@.len() == 0,
        DesktopDomainValue::Clipboard(entries) => entries@.len() == 0,
        DesktopDomainValue::Recording(recording) => {
            &&& recording.status == RecordingStatus::Inactive
            &&& recording.recording_id is None
            &&& recording.output_id is None
        },
        DesktopDomainValue::IdleInhibit(inhibited) => !inhibited,
        DesktopDomainValue::GameMode(enabled) => !enabled,
        DesktopDomainValue::Screenshot => true,
        DesktopDomainValue::ColorPicker => true,
    }
}

impl DesktopDomainValue {
    pub fn domain(&self) -> (domain: DesktopDomainId)
        ensures
            domain == domain_of(*self),
    {
        match self {
            DesktopDomainValue::Network(_) => DesktopDomainId::Network,
            DesktopDomainValue::Bluetooth(_) => DesktopDomainId::Bluetooth,
            DesktopDomainValue::Audio(_) => DesktopDomainId::Audio,
            DesktopDomainValue::Media(_) => DesktopDomainId::Media,
            DesktopDomainValue::Battery(_) => DesktopDomainId::Battery,
            DesktopDomainValue::Brightness(_) => DesktopDomainId::Brightness,
            DesktopDomainValue::NightLight(_) => DesktopDomainId::NightLight,
            DesktopDomainValue::Power(_) => DesktopDomainId::Power,
            DesktopDomainValue::Osd(_) => DesktopDomainId::Osd,
            DesktopDomainValue::Lock(_) => DesktopDomainId::Lock,
            DesktopDomainValue::Hyprland(_) => DesktopDomainId::Hyprland,
            DesktopDomainValue::Notifications(_) => DesktopDomainId::Notifications,
            DesktopDomainValue::Launcher(_) => DesktopDomainId::Launcher,
            DesktopDomainValue::Calendar(_) => DesktopDomainId::Calendar,
            DesktopDomainValue::Weather(_) => DesktopDomainId::Weather,
            DesktopDomainValue::Appearance(_) => DesktopDomainId::Appearance,
            DesktopDomainValue::Resources(_) => DesktopDomainId::Resources,
            DesktopDomainValue::Tray(_) => DesktopDomainId::Tray,
            DesktopDomainValue::Clipboard(_) => DesktopDomainId::Clipboard,
            DesktopDomainValue::Recording(_) => DesktopDomainId::Recording,
            DesktopDomainValue::IdleInhibit(_) => DesktopDomainId::IdleInhibit,
            DesktopDomainValue::GameMode(_) => DesktopDomainId::GameMode,
            DesktopDomainValue::Screenshot => DesktopDomainId::Screenshot,
            DesktopDomainValue::ColorPicker => DesktopDomainId::ColorPicker,
        }
    }

    /// The value that a domain has before anything is known. The theme is the
    /// built-in dark theme of the theme manager.
    pub fn empty(domain: DesktopDomainId, builtin_theme: String) -> (value: DesktopDomainValue)
        ensures
            domain_of(value) == domain,
            is_empty_value(value, builtin_theme@),
    {
        match domain {
            DesktopDomainId::Network => DesktopDomainValue::Network(
                NetworkSnapshot {
                    wifi_enabled: false,
                    scanning: false,
                    access_points: Vec::new(),
                    connections: Vec::new(),
                },
            ),
            DesktopDomainId::Bluetooth => DesktopDomainValue::Bluetooth(
                BluetoothSnapshot { powered: false, scanning: false, devices: Vec::new() },
            ),
            DesktopDomainId::Audio => DesktopDomainValue::Audio(
                AudioSnapshot { nodes: Vec::new(), streams: Vec::new() },
            ),
            DesktopDomainId::Media => DesktopDomainValue::Media(
                MediaSnapshot { players: Vec::new() },
            ),
            DesktopDomainId::Battery => DesktopDomainValue::Battery(
                BatterySnapshot { percentage: 0, charging: false, seconds_remaining: None },
            ),
            DesktopDomainId::Brightness => DesktopDomainValue::Brightness(
                BrightnessSnapshot { level: Level { bits: 0 } },
            ),
            DesktopDomainId::NightLight => DesktopDomainValue::NightLight(
                NightLightSnapshot { enabled: false },
            ),
            DesktopDomainId::Power => {
                let mut available_profiles: Vec<PowerProfile> = Vec::new();
                available_profiles.push(PowerProfile::Balanced);
                assert(available_profiles@ =~= seq![PowerProfile::Balanced]);
                DesktopDomainValue::Power(
                    DesktopPowerSnapshot {
                        active_profile: PowerProfile::Balanced,
                        available_profiles,
                    },
                )
            },
            DesktopDomainId::Osd => DesktopDomainValue::Osd(
                DesktopOsdSnapshot { showing: false, history: Vec::new() },
            ),
            DesktopDomainId::Lock => DesktopDomainValue::Lock(LockState { secure: false }),
            DesktopDomainId::Hyprland => DesktopDomainValue::Hyprland(
                HyprlandSnapshot {
                    action_capabilities: hyprland_action_capabilities(),
                    monitor_ids: Vec::new(),
                    monitors: Vec::new(),
                    workspaces: Vec::new(),
                    windows: Vec::new(),
                },
            ),
            DesktopDomainId::Notifications => DesktopDomainValue::Notifications(
                DesktopNotificationSnapshot { dnd: false, active: Vec::new() },
            ),
            DesktopDomainId::Launcher => DesktopDomainValue::Launcher(Vec::new()),
            DesktopDomainId::Calendar => DesktopDomainValue::Calendar(empty_calendar()),
            DesktopDomainId::Weather => DesktopDomainValue::Weather(empty_weather()),
            DesktopDomainId::Appearance => DesktopDomainValue::Appearance(
                AppearanceValue {
                    theme: builtin_theme,
                    wallpaper_id: "builtin.sleepy-default".to_owned(),
                },
            ),
            DesktopDomainId::Resources => DesktopDomainValue::Resources(Vec::new()),
            DesktopDomainId::Tray => DesktopDomainValue::Tray(Vec::new()),
            DesktopDomainId::Clipboard => DesktopDomainValue::Clipboard(Vec::new()),
            DesktopDomainId::Recording => DesktopDomainValue::Recording(
                RecordingState {
                    status: RecordingStatus::Inactive,
                    recording_id: None,
                    output_id: None,
                },
            ),
            DesktopDomainId::IdleInhibit => DesktopDomainValue::IdleInhibit(false),
            DesktopDomainId::GameMode => DesktopDomainValue::GameMode(false),
            DesktopDomainId::Screenshot => DesktopDomainValue::Screenshot,
            DesktopDomainId::ColorPicker => DesktopDomainValue::ColorPicker,
        }
    }
}

// ---------------------------------------------------------------------------
// States
// ---------------------------------------------------------------------------

/// What is known of a domain: a typed value, or why there is none.
#[derive(Debug, PartialEq, Eq)]
pub struct DesktopDomainState {
    domain: DesktopDomainId,
    status: CapabilityAvailability,
    value: Option<DesktopDomainValue>,
    diagnostic: Option<String>,
}

impl DesktopDomainState {
    pub closed spec fn of(&self) -> DesktopDomainId {
        self.domain
    }

    pub closed spec fn state(&self) -> CapabilityAvailability {
        self.status
    }

    pub closed spec fn data(&self) -> Option<DesktopDomainValue> {
        self.value
    }

    /// Why there is no value.
    pub closed spec fn reason(&self) -> Option<Seq<char>> {
        match self.diagnostic {
            Some(text) => Some(text@),
            None => None,
        }
    }

    /// A state has a value of its own domain exactly if it is available, and
    /// otherwise a reason that is not blank.
    #[verifier::type_invariant]
    pub closed spec fn well_formed(&self) -> bool {
        if self.status == CapabilityAvailability::Available {
            &&& self.value is Some
            &&& domain_of(self.value->Some_0) == self.domain
            &&& self.diagnostic is None
        } else {
            &&& self.value is None
            &&& self.diagnostic is Some
            &&& !is_blank(self.diagnostic->Some_0@)
        }
    }

    /// What a state is, over its parts.
    pub open spec fn consistent(&self) -> bool {
        if self.state() == CapabilityAvailability::Available {
            &&& self.data() is Some
            &&& domain_of(self.data()->Some_0) == self.of()
            &&& self.reason() is None
        } else {
            &&& self.data() is None
            &&& self.reason() is Some
            &&& !is_blank(self.reason()->Some_0)
        }
    }

    /// A state without a value.
    pub fn terminal(
        domain: DesktopDomainId,
        status: CapabilityAvailability,
        diagnostic: String,
    ) -> (state: Result<DesktopDomainState, SessionError>)
        ensures
            if status == CapabilityAvailability::Available {
                fails_with(
                    state,
                    ErrorKind::InvalidInput,
                    "available desktop domain state requires typed data"@,
                )
            } else if is_blank(diagnostic@) {
                fails_with(
                    state,
                    ErrorKind::InvalidInput,
                    "terminal desktop domain state requires a diagnostic"@,
                )
            } else {
                &&& state is Ok
                &&& state->Ok_0.of() == domain
                &&& state->Ok_0.state() == status
                &&& state->Ok_0.data() is None
                &&& state->Ok_0.reason() == Some(diagnostic@)
            },
    {
        if matches!(status, CapabilityAvailability::Available) {
            return Err(
                SessionError::new(
                    ErrorKind::InvalidInput,
                    "available desktop domain state requires typed data",
                ),
            );
        }
        if blank_text(diagnostic.as_str()) {
            return Err(
                SessionError::new(
                    ErrorKind::InvalidInput,
                    "terminal desktop domain state requires a diagnostic",
                ),
            );
        }
        Ok(DesktopDomainState { domain, status, value: None, diagnostic: Some(diagnostic) })
    }

    /// A state with a value.
    pub fn available(domain: DesktopDomainId, value: DesktopDomainValue) -> (state: Result<
        DesktopDomainState,
        SessionError,
    >)
        ensures
            if domain_of(value) != domain {
                fails_with(
                    state,
                    ErrorKind::InvalidInput,
                    "desktop domain value belongs to a different producer"@,
                )
            } else {
                &&& state is Ok
                &&& state->Ok_0.of() == domain
                &&& state->Ok_0.state() == CapabilityAvailability::Available
                &&& state->Ok_0.data() == Some(value)
                &&& state->Ok_0.reason() is None
            },
    {
        if value.domain() != domain {
            return Err(
                SessionError::new(
                    ErrorKind::InvalidInput,
                    "desktop domain value belongs to a different producer",
                ),
            );
        }
        Ok(
            DesktopDomainState {
                domain,
                status: CapabilityAvailability::Available,
                value: Some(value),
                diagnostic: None,
            },
        )
    }

    pub fn domain(&self) -> (domain: DesktopDomainId)
        ensures
            domain == self.of(),
    {
        self.domain
    }

    pub fn status(&self) -> (status: CapabilityAvailability)
        ensures
            status == self.state(),
            self.consistent(),
    {
        proof {
            use_type_invariant(self);
        }
        self.status
    }

    pub fn diagnostic(&self) -> (diagnostic: Option<&str>)
        ensures
            match diagnostic {
                Some(text) => self.reason() == Some(text@),
                None => self.reason() is None,
            },
            self.consistent(),
    {
        proof {
            use_type_invariant(self);
        }
        match &self.diagnostic {
            Some(text) => Some(text.as_str()),
            None => None,
        }
    }

    pub fn value(&self) -> (value: Option<&DesktopDomainValue>)
        ensures
            match value {
                Some(data) => self.data() == Some(*data),
                None => self.data() is None,
            },
            self.consistent(),
    {
        proof {
            use_type_invariant(self);
        }
        self.value.as_ref()
    }
}

/// What a state says.
pub struct StateView {
    pub domain: DesktopDomainId,
    pub status: CapabilityAvailability,
    pub value: Option<DesktopDomainValue>,
    pub reason: Option<Seq<char>>,
}

impl View for DesktopDomainState {
    type V = StateView;

    open spec fn view(&self) -> StateView {
        StateView {
            domain: self.of(),
            status: self.state(),
            value: self.data(),
            reason: self.reason(),
        }
    }
}

/// A state of a domain that failed, with a text of the provider; a blank text is
/// replaced by a fixed one.
pub fn terminal_or(
    domain: DesktopDomainId,
    status: CapabilityAvailability,
    diagnostic: String,
    fallback: &str,
) -> (state: DesktopDomainState)
    requires
        status != CapabilityAvailability::Available,
        !is_blank(fallback@),
    ensures
        state.of() == domain,
        state.state() == status,
        state.data() is None,
        state.reason() == Some(
            if is_blank(diagnostic@) {
                fallback@
            } else {
                diagnostic@
            },
        ),
{
    match DesktopDomainState::terminal(domain, status, diagnostic) {
        Ok(state) => state,
        Err(_) => {
            match DesktopDomainState::terminal(domain, status, fallback.to_owned()) {
                Ok(state) => state,
                Err(_) => {
                    assert(false);
                    vstd::pervasive::unreached()
                },
            }
        },
    }
}

/// A report of a producer, with the revision it was observed at, if it is tied
/// to one.
pub struct DesktopDomainUpdate {
    pub state: DesktopDomainState,
    pub observation_revision: Option<u64>,
}

impl DesktopDomainUpdate {
    /// A report that is not tied to a revision.
    pub fn unversioned(state: DesktopDomainState) -> (update: DesktopDomainUpdate)
        ensures
            update.state == state,
            update.observation_revision is None,
    {
        DesktopDomainUpdate { state, observation_revision: None }
    }
}

/// An observation that was begun at a revision.
pub struct DesktopObservation {
    pub domain: DesktopDomainId,
    pub revision: u64,
}

impl DesktopObservation {
    /// Ties the state that was observed to the revision of the observation.
    pub fn finish(self, state: DesktopDomainState) -> (update: Result<
        DesktopDomainUpdate,
        SessionError,
    >)
        ensures
            if state.of() != self.domain {
                fails_with(
                    update,
                    ErrorKind::InvalidInput,
                    "desktop observation belongs to a different producer"@,
                )
            } else {
                &&& update is Ok
                &&& update->Ok_0.state == state
                &&& update->Ok_0.observation_revision == Some(self.revision)
            },
    {
        if state.domain() != self.domain {
            return Err(
                SessionError::new(
                    ErrorKind::InvalidInput,
                    "desktop observation belongs to a different producer",
                ),
            );
        }
        Ok(DesktopDomainUpdate { state, observation_revision: Some(self.revision) })
    }
}

/// Why a producer stopped.
#[derive(Debug, Clone, PartialEq, Eq)]
pub struct ProducerError {
    pub message: String,
}

impl ProducerError {
    pub fn new(message: &str) -> (error: ProducerError)
        ensures
            error.message@ == message@,
    {
        ProducerError { message: message.to_owned() }
    }

    /// The text of the error.
    pub fn text(&self) -> (text: String)
        ensures
            text@ == self.message@,
    {
        self.message.clone()
    }
}

} // verus!

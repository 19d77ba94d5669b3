//! The snapshot of the whole desktop, assembled from the states of its domains.

use vstd::prelude::*;

use crate::error::{fails_with, ErrorKind, SessionError};
use crate::notifications::document::NotificationDocument;

use super::domain::{
    empty_calendar, empty_weather, is_empty_calendar, is_empty_weather, AppearanceValue,
    AudioSnapshot, BatterySnapshot, BluetoothSnapshot, BrightnessSnapshot, CalendarSnapshot,
    CapabilityAvailability, ClipboardEntry, DesktopDomainId, DesktopDomainState,
    DesktopDomainValue, DesktopNotificationSnapshot, DesktopOsdSnapshot, DesktopPowerSnapshot,
    HyprlandSnapshot, LauncherEntry, LockState, MediaSnapshot, NetworkSnapshot,
    NightLightSnapshot, RecordingState, ResourceSample, TrayItem, WeatherSnapshot, DOMAIN_COUNT,
};
use super::states::DomainStates;

verus! {

/// What is told to the outside of a domain that has no value.
pub open spec fn public_text(status: CapabilityAvailability) -> Seq<char> {
    match status {
        CapabilityAvailability::Available => "producer.available"@,
        CapabilityAvailability::Unavailable => "producer.unavailable"@,
        CapabilityAvailability::Unsupported => "producer.unsupported"@,
        CapabilityAvailability::PermissionDenied => "producer.permission-denied"@,
        CapabilityAvailability::Timeout => "producer.timeout"@,
        CapabilityAvailability::Parse => "producer.parse-invalid"@,
        CapabilityAvailability::Error => "producer.failed"@,
    }
}

pub fn public_producer_diagnostic(status: CapabilityAvailability) -> (text: &'static str)
    ensures
        text@ == public_text(status),
{
    match status {
        CapabilityAvailability::Available => "producer.available",
        CapabilityAvailability::Unavailable => "producer.unavailable",
        CapabilityAvailability::Unsupported => "producer.unsupported",
        CapabilityAvailability::PermissionDenied => "producer.permission-denied",
        CapabilityAvailability::Timeout => "producer.timeout",
        CapabilityAvailability::Parse => "producer.parse-invalid",
        CapabilityAvailability::Error => "producer.failed",
    }
}

/// A domain that has either a value or a public reason why not.
pub struct DesktopCapability<'a, T> {
    pub status: CapabilityAvailability,
    pub data: Option<&'a T>,
    pub diagnostic: Option<&'static str>,
}

/// Whether a domain has a value, and the public reason where it has none.
pub struct ProducerAvailability {
    pub status: CapabilityAvailability,
    pub diagnostic: Option<&'static str>,
}

/// A domain that always shows something.
pub struct Shown<'a, T> {
    pub availability: ProducerAvailability,
    pub content: &'a T,
}

/// Whether a capability tells what is known of its domain. The provider's own
/// reason is never told.
pub open spec fn tells<T>(
    capability: DesktopCapability<'_, T>,
    state: DesktopDomainState,
    wrap: spec_fn(T) -> DesktopDomainValue,
) -> bool {
    &&& capability.status == state.state()
    &&& if state.state() == CapabilityAvailability::Available {
        &&& capability.data is Some
        &&& state.data() == Some(wrap(*capability.data->Some_0))
        &&& capability.diagnostic is None
    } else {
        &&& capability.data is None
        &&& capability.diagnostic is Some
        &&& capability.diagnostic->Some_0@ == public_text(state.state())
    }
}

/// Whether an availability tells the status of its domain.
pub open spec fn available_as(
    availability: ProducerAvailability,
    state: DesktopDomainState,
) -> bool {
    &&& availability.status == state.state()
    &&& if state.state() == CapabilityAvailability::Available {
        availability.diagnostic is None
    } else {
        &&& availability.diagnostic is Some
        &&& availability.diagnostic->Some_0@ == public_text(state.state())
    }
}

/// Whether a domain shows its value, or what stands in for it.
pub open spec fn shows<T>(
    shown: Shown<'_, T>,
    state: DesktopDomainState,
    wrap: spec_fn(T) -> DesktopDomainValue,
    fallback: T,
) -> bool {
    &&& available_as(shown.availability, state)
    &&& if state.state() == CapabilityAvailability::Available {
        state.data() == Some(wrap(*shown.content))
    } else {
        *shown.content == fallback
    }
}

fn capability<'a, T>(
    state: &DesktopDomainState,
    data: Option<&'a T>,
    Ghost(wrap): Ghost<spec_fn(T) -> DesktopDomainValue>,
) -> (capability: DesktopCapability<'a, T>)
    requires
        state.state() == CapabilityAvailability::Available ==> data is Some && state.data() == Some(
            wrap(*data->Some_0),
        ),
    ensures
        tells(capability, *state, wrap),
{
    let status = state.status();
    if matches!(status, CapabilityAvailability::Available) {
        DesktopCapability { status, data, diagnostic: None }
    } else {
        DesktopCapability {
            status,
            data: None,
            diagnostic: Some(public_producer_diagnostic(status)),
        }
    }
}

pub fn producer_availability(state: &DesktopDomainState) -> (availability: ProducerAvailability)
    ensures
        available_as(availability, *state),
{
    let status = state.status();
    ProducerAvailability {
        status,
        diagnostic: if matches!(status, CapabilityAvailability::Available) {
            None
        } else {
            Some(public_producer_diagnostic(status))
        },
    }
}

/// What domains show that have no value.
pub struct Fallbacks {
    pub notifications: DesktopNotificationSnapshot,
    pub launcher: Vec<LauncherEntry>,
    pub calendar: CalendarSnapshot,
    pub weather: WeatherSnapshot,
    pub appearance: AppearanceValue,
    pub resources: Vec<ResourceSample>,
}

impl Fallbacks {
    /// The theme is the built-in dark theme of the theme manager.
    pub fn new(builtin_theme: String) -> (fallbacks: Fallbacks)
        ensures
            !fallbacks.notifications.dnd,
            fallbacks.notifications.active@ == Seq::<NotificationDocument>::empty(),
            fallbacks.launcher@ == Seq::<LauncherEntry>::empty(),
            is_empty_calendar(fallbacks.calendar),
            is_empty_weather(fallbacks.weather),
            fallbacks.appearance.theme == builtin_theme,
            fallbacks.appearance.wallpaper_id@ == "unavailable"@,
            fallbacks.resources@ == Seq::<ResourceSample>::empty(),
    {
        Fallbacks {
            notifications: DesktopNotificationSnapshot { dnd: false, active: Vec::new() },
            launcher: Vec::new(),
            calendar: empty_calendar(),
            weather: empty_weather(),
            appearance: AppearanceValue {
                theme: builtin_theme,
                wallpaper_id: "unavailable".to_owned(),
            },
            resources: Vec::new(),
        }
    }
}

pub struct DesktopSystemSnapshot<'a> {
    pub network: DesktopCapability<'a, NetworkSnapshot>,
    pub bluetooth: DesktopCapability<'a, BluetoothSnapshot>,
    pub audio: DesktopCapability<'a, AudioSnapshot>,
    pub media: DesktopCapability<'a, MediaSnapshot>,
    pub battery: DesktopCapability<'a, BatterySnapshot>,
    pub brightness: DesktopCapability<'a, BrightnessSnapshot>,
    pub night_light: DesktopCapability<'a, NightLightSnapshot>,
    pub power: DesktopCapability<'a, DesktopPowerSnapshot>,
    pub osd: DesktopCapability<'a, DesktopOsdSnapshot>,
    pub lock: DesktopCapability<'a, LockState>,
}

pub struct DesktopUtilitySnapshot<'a> {
    pub tray_items: DesktopCapability<'a, Vec<TrayItem>>,
    pub clipboard_entries: DesktopCapability<'a, Vec<ClipboardEntry>>,
    pub recording: DesktopCapability<'a, RecordingState>,
    pub idle_inhibited: DesktopCapability<'a, bool>,
    pub game_mode: DesktopCapability<'a, bool>,
    pub screenshot: ProducerAvailability,
    pub color_picker: ProducerAvailability,
}

pub struct DesktopSnapshot<'a> {
    pub system: DesktopSystemSnapshot<'a>,
    pub hyprland: DesktopCapability<'a, HyprlandSnapshot>,
    pub notifications: Shown<'a, DesktopNotificationSnapshot>,
    pub launcher: Shown<'a, Vec<LauncherEntry>>,
    pub calendar: Shown<'a, CalendarSnapshot>,
    pub weather: Shown<'a, WeatherSnapshot>,
    pub appearance: Shown<'a, AppearanceValue>,
    pub resources: Shown<'a, Vec<ResourceSample>>,
    pub utilities: DesktopUtilitySnapshot<'a>,
}

/// Why states cannot be assembled: the first domain in order that has none, or
/// that has the state of another domain.
pub open spec fn assembly_fault(
    states: Map<DesktopDomainId, DesktopDomainState>,
    from: int,
) -> Option<Seq<char>>
    decreases DOMAIN_COUNT - from,
{
    if from < 0 || from >= DOMAIN_COUNT {
        None
    } else {
        let domain = DesktopDomainId::at(from);
        if !states.contains_key(domain) {
            Some("desktop state omitted "@ + domain.title())
        } else if states[domain].of() != domain {
            Some("desktop state map key does not match its state domain"@)
        } else {
            assembly_fault(states, from + 1)
        }
    }
}

/// Whether every domain has a state of its own.
pub open spec fn complete(states: Map<DesktopDomainId, DesktopDomainState>) -> bool {
    forall|domain: DesktopDomainId|
        #![trigger states.contains_key(domain)]
        states.contains_key(domain) && states[domain].of() == domain
}

/// Whether a snapshot tells what is known of every domain.
pub open spec fn assembled(
    snapshot: DesktopSnapshot<'_>,
    states: Map<DesktopDomainId, DesktopDomainState>,
    fallbacks: Fallbacks,
) -> bool {
    &&& tells(
        snapshot.system.network,
        states[DesktopDomainId::Network],
        |value: NetworkSnapshot| DesktopDomainValue::Network(value),
    )
    &&& tells(
        snapshot.system.bluetooth,
        states[DesktopDomainId::Bluetooth],
        |value: BluetoothSnapshot| DesktopDomainValue::Bluetooth(value),
    )
    &&& tells(
        snapshot.system.audio,
        states[DesktopDomainId::Audio],
        |value: AudioSnapshot| DesktopDomainValue::Audio(value),
    )
    &&& tells(
        snapshot.system.media,
        states[DesktopDomainId::Media],
        |value: MediaSnapshot| DesktopDomainValue::Media(value),
    )
    &&& tells(
        snapshot.system.battery,
        states[DesktopDomainId::Battery],
        |value: BatterySnapshot| DesktopDomainValue::Battery(value),
    )
    &&& tells(
        snapshot.system.brightness,
        states[DesktopDomainId::Brightness],
        |value: BrightnessSnapshot| DesktopDomainValue::Brightness(value),
    )
    &&& tells(
        snapshot.system.night_light,
        states[DesktopDomainId::NightLight],
        |value: NightLightSnapshot| DesktopDomainValue::NightLight(value),
    )
    &&& tells(
        snapshot.system.power,
        states[DesktopDomainId::Power],
        |value: DesktopPowerSnapshot| DesktopDomainValue::Power(value),
    )
    &&& tells(
        snapshot.system.osd,
        states[DesktopDomainId::Osd],
        |value: DesktopOsdSnapshot| DesktopDomainValue::Osd(value),
    )
    &&& tells(
        snapshot.system.lock,
        states[DesktopDomainId::Lock],
        |value: LockState| DesktopDomainValue::Lock(value),
    )
    &&& tells(
        snapshot.hyprland,
        states[DesktopDomainId::Hyprland],
        |value: HyprlandSnapshot| DesktopDomainValue::Hyprland(value),
    )
    &&& tells(
        snapshot.utilities.tray_items,
        states[DesktopDomainId::Tray],
        |value: Vec<TrayItem>| DesktopDomainValue::Tray(value),
    )
    &&& tells(
        snapshot.utilities.clipboard_entries,
        states[DesktopDomainId::Clipboard],
        |value: Vec<ClipboardEntry>| DesktopDomainValue::Clipboard(value),
    )
    &&& tells(
        snapshot.utilities.recording,
        states[DesktopDomainId::Recording],
        |value: RecordingState| DesktopDomainValue::Recording(value),
    )
    &&& tells(
        snapshot.utilities.idle_inhibited,
        states[DesktopDomainId::IdleInhibit],
        |value: bool| DesktopDomainValue::IdleInhibit(value),
    )
    &&& tells(
        snapshot.utilities.game_mode,
        states[DesktopDomainId::GameMode],
        |value: bool| DesktopDomainValue::GameMode(value),
    )
    &&& shows(
        snapshot.notifications,
        states[DesktopDomainId::Notifications],
        |value: DesktopNotificationSnapshot| DesktopDomainValue::Notifications(value),
        fallbacks.notifications,
    )
    &&& shows(
        snapshot.launcher,
        states[DesktopDomainId::Launcher],
        |value: Vec<LauncherEntry>| DesktopDomainValue::Launcher(value),
        fallbacks.launcher,
    )
    &&& shows(
        snapshot.calendar,
        states[DesktopDomainId::Calendar],
        |value: CalendarSnapshot| DesktopDomainValue::Calendar(value),
        fallbacks.calendar,
    )
    &&& shows(
        snapshot.weather,
        states[DesktopDomainId::Weather],
        |value: WeatherSnapshot| DesktopDomainValue::Weather(value),
        fallbacks.weather,
    )
    &&& shows(
        snapshot.appearance,
        states[DesktopDomainId::Appearance],
        |value: AppearanceValue| DesktopDomainValue::Appearance(value),
        fallbacks.appearance,
    )
    &&& shows(
        snapshot.resources,
        states[DesktopDomainId::Resources],
        |value: Vec<ResourceSample>| DesktopDomainValue::Resources(value),
        fallbacks.resources,
    )
    &&& available_as(snapshot.utilities.screenshot, states[DesktopDomainId::Screenshot])
    &&& available_as(snapshot.utilities.color_picker, states[DesktopDomainId::ColorPicker])
}

/// Whether the domains have the same statuses and values; their reasons may differ.
pub open spec fn alike(
    states: Map<DesktopDomainId, DesktopDomainState>,
    others: Map<DesktopDomainId, DesktopDomainState>,
) -> bool {
    forall|domain: DesktopDomainId|
        #![trigger states[domain]]
        #![trigger others[domain]]
        states[domain].state() == others[domain].state() && states[domain].data()
            == others[domain].data()
}

/// The reason that a producer gave is never told: states that differ in nothing but
/// their reasons have the same snapshots.
pub proof fn a_reason_is_never_told(
    snapshot: DesktopSnapshot<'_>,
    states: Map<DesktopDomainId, DesktopDomainState>,
    others: Map<DesktopDomainId, DesktopDomainState>,
    fallbacks: Fallbacks,
)
    requires
        alike(states, others),
        assembled(snapshot, states, fallbacks),
    ensures
        assembled(snapshot, others, fallbacks),
{
}

fn network_capability<'a>(states: &'a DomainStates) -> (capability: DesktopCapability<'a, NetworkSnapshot>)
    requires
        complete(states@),
    ensures
        tells(
            capability,
            states@[DesktopDomainId::Network],
            |value: NetworkSnapshot| DesktopDomainValue::Network(value),
        ),
{
    let state = state(states, DesktopDomainId::Network);
    let data = match state.value() {
        Some(DesktopDomainValue::Network(value)) => Some(value),
        _ => None,
    };
    capability(state, data, Ghost(|value: NetworkSnapshot| DesktopDomainValue::Network(value)))
}

fn bluetooth_capability<'a>(states: &'a DomainStates) -> (capability: DesktopCapability<'a, BluetoothSnapshot>)
    requires
        complete(states@),
    ensures
        tells(
            capability,
            states@[DesktopDomainId::Bluetooth],
            |value: BluetoothSnapshot| DesktopDomainValue::Bluetooth(value),
        ),
{
    let state = state(states, DesktopDomainId::Bluetooth);
    let data = match state.value() {
        Some(DesktopDomainValue::Bluetooth(value)) => Some(value),
        _ => None,
    };
    capability(state, data, Ghost(|value: BluetoothSnapshot| DesktopDomainValue::Bluetooth(value)))
}

fn audio_capability<'a>(states: &'a DomainStates) -> (capability: DesktopCapability<'a, AudioSnapshot>)
    requires
        complete(states@),
    ensures
        tells(
            capability,
            states@[DesktopDomainId::Audio],
            |value: AudioSnapshot| DesktopDomainValue::Audio(value),
        ),
{
    let state = state(states, DesktopDomainId::Audio);
    let data = match state.value() {
        Some(DesktopDomainValue::Audio(value)) => Some(value),
        _ => None,
    };
    capability(state, data, Ghost(|value: AudioSnapshot| DesktopDomainValue::Audio(value)))
}

fn media_capability<'a>(states: &'a DomainStates) -> (capability: DesktopCapability<'a, MediaSnapshot>)
    requires
        complete(states@),
    ensures
        tells(
            capability,
            states@[DesktopDomainId::Media],
            |value: MediaSnapshot| DesktopDomainValue::Media(value),
        ),
{
    let state = state(states, DesktopDomainId::Media);
    let data = match state.value() {
        Some(DesktopDomainValue::Media(value)) => Some(value),
        _ => None,
    };
    capability(state, data, Ghost(|value: MediaSnapshot| DesktopDomainValue::Media(value)))
}

fn battery_capability<'a>(states: &'a DomainStates) -> (capability: DesktopCapability<'a, BatterySnapshot>)
    requires
        complete(states@),
    ensures
        tells(
            capability,
            states@[DesktopDomainId::Battery],
            |value: BatterySnapshot| DesktopDomainValue::Battery(value),
        ),
{
    let state = state(states, DesktopDomainId::Battery);
    let data = match state.value() {
        Some(DesktopDomainValue::Battery(value)) => Some(value),
        _ => None,
    };
    capability(state, data, Ghost(|value: BatterySnapshot| DesktopDomainValue::Battery(value)))
}

fn brightness_capability<'a>(states: &'a DomainStates) -> (capability: DesktopCapability<'a, BrightnessSnapshot>)
    requires
        complete(states@),
    ensures
        tells(
            capability,
            states@[DesktopDomainId::Brightness],
            |value: BrightnessSnapshot| DesktopDomainValue::Brightness(value),
        ),
{
    let state = state(states, DesktopDomainId::Brightness);
    let data = match state.value() {
        Some(DesktopDomainValue::Brightness(value)) => Some(value),
        _ => None,
    };
    capability(state, data, Ghost(|value: BrightnessSnapshot| DesktopDomainValue::Brightness(value)))
}

fn night_light_capability<'a>(states: &'a DomainStates) -> (capability: DesktopCapability<'a, NightLightSnapshot>)
    requires
        complete(states@),
    ensures
        tells(
            capability,
            states@[DesktopDomainId::NightLight],
            |value: NightLightSnapshot| DesktopDomainValue::NightLight(value),
        ),
{
    let state = state(states, DesktopDomainId::NightLight);
    let data = match state.value() {
        Some(DesktopDomainValue::NightLight(value)) => Some(value),
        _ => None,
    };
    capability(state, data, Ghost(|value: NightLightSnapshot| DesktopDomainValue::NightLight(value)))
}

fn power_capability<'a>(states: &'a DomainStates) -> (capability: DesktopCapability<'a, DesktopPowerSnapshot>)
    requires
        complete(states@),
    ensures
        tells(
            capability,
            states@[DesktopDomainId::Power],
            |value: DesktopPowerSnapshot| DesktopDomainValue::Power(value),
        ),
{
    let state = state(states, DesktopDomainId::Power);
    let data = match state.value() {
        Some(DesktopDomainValue::Power(value)) => Some(value),
        _ => None,
    };
    capability(state, data, Ghost(|value: DesktopPowerSnapshot| DesktopDomainValue::Power(value)))
}

fn osd_capability<'a>(states: &'a DomainStates) -> (capability: DesktopCapability<'a, DesktopOsdSnapshot>)
    requires
        complete(states@),
    ensures
        tells(
            capability,
            states@[DesktopDomainId::Osd],
            |value: DesktopOsdSnapshot| DesktopDomainValue::Osd(value),
        ),
{
    let state = state(states, DesktopDomainId::Osd);
    let data = match state.value() {
        Some(DesktopDomainValue::Osd(value)) => Some(value),
        _ => None,
    };
    capability(state, data, Ghost(|value: DesktopOsdSnapshot| DesktopDomainValue::Osd(value)))
}

fn lock_capability<'a>(states: &'a DomainStates) -> (capability: DesktopCapability<'a, LockState>)
    requires
        complete(states@),
    ensures
        tells(
            capability,
            states@[DesktopDomainId::Lock],
            |value: LockState| DesktopDomainValue::Lock(value),
        ),
{
    let state = state(states, DesktopDomainId::Lock);
    let data = match state.value() {
        Some(DesktopDomainValue::Lock(value)) => Some(value),
        _ => None,
    };
    capability(state, data, Ghost(|value: LockState| DesktopDomainValue::Lock(value)))
}

fn hyprland_capability<'a>(states: &'a DomainStates) -> (capability: DesktopCapability<'a, HyprlandSnapshot>)
    requires
        complete(states@),
    ensures
        tells(
            capability,
            states@[DesktopDomainId::Hyprland],
            |value: HyprlandSnapshot| DesktopDomainValue::Hyprland(value),
        ),
{
    let state = state(states, DesktopDomainId::Hyprland);
    let data = match state.value() {
        Some(DesktopDomainValue::Hyprland(value)) => Some(value),
        _ => None,
    };
    capability(state, data, Ghost(|value: HyprlandSnapshot| DesktopDomainValue::Hyprland(value)))
}

fn tray_items_capability<'a>(states: &'a DomainStates) -> (capability: DesktopCapability<'a, Vec<TrayItem>>)
    requires
        complete(states@),
    ensures
        tells(
            capability,
            states@[DesktopDomainId::Tray],
            |value: Vec<TrayItem>| DesktopDomainValue::Tray(value),
        ),
{
    let state = state(states, DesktopDomainId::Tray);
    let data = match state.value() {
        Some(DesktopDomainValue::Tray(value)) => Some(value),
        _ => None,
    };
    capability(state, data, Ghost(|value: Vec<TrayItem>| DesktopDomainValue::Tray(value)))
}

fn clipboard_entries_capability<'a>(states: &'a DomainStates) -> (capability: DesktopCapability<'a, Vec<ClipboardEntry>>)
    requires
        complete(states@),
    ensures
        tells(
            capability,
            states@[DesktopDomainId::Clipboard],
            |value: Vec<ClipboardEntry>| DesktopDomainValue::Clipboard(value),
        ),
{
    let state = state(states, DesktopDomainId::Clipboard);
    let data = match state.value() {
        Some(DesktopDomainValue::Clipboard(value)) => Some(value),
        _ => None,
    };
    capability(state, data, Ghost(|value: Vec<ClipboardEntry>| DesktopDomainValue::Clipboard(value)))
}

fn recording_capability<'a>(states: &'a DomainStates) -> (capability: DesktopCapability<'a, RecordingState>)
    requires
        complete(states@),
    ensures
        tells(
            capability,
            states@[DesktopDomainId::Recording],
            |value: RecordingState| DesktopDomainValue::Recording(value),
        ),
{
    let state = state(states, DesktopDomainId::Recording);
    let data = match state.value() {
        Some(DesktopDomainValue::Recording(value)) => Some(value),
        _ => None,
    };
    capability(state, data, Ghost(|value: RecordingState| DesktopDomainValue::Recording(value)))
}

fn idle_inhibited_capability<'a>(states: &'a DomainStates) -> (capability: DesktopCapability<'a, bool>)
    requires
        complete(states@),
    ensures
        tells(
            capability,
            states@[DesktopDomainId::IdleInhibit],
            |value: bool| DesktopDomainValue::IdleInhibit(value),
        ),
{
    let state = state(states, DesktopDomainId::IdleInhibit);
    let data = match state.value() {
        Some(DesktopDomainValue::IdleInhibit(value)) => Some(value),
        _ => None,
    };
    capability(state, data, Ghost(|value: bool| DesktopDomainValue::IdleInhibit(value)))
}

fn game_mode_capability<'a>(states: &'a DomainStates) -> (capability: DesktopCapability<'a, bool>)
    requires
        complete(states@),
    ensures
        tells(
            capability,
            states@[DesktopDomainId::GameMode],
            |value: bool| DesktopDomainValue::GameMode(value),
        ),
{
    let state = state(states, DesktopDomainId::GameMode);
    let data = match state.value() {
        Some(DesktopDomainValue::GameMode(value)) => Some(value),
        _ => None,
    };
    capability(state, data, Ghost(|value: bool| DesktopDomainValue::GameMode(value)))
}

fn notifications_snapshot<'a>(states: &'a DomainStates, fallback: &'a DesktopNotificationSnapshot) -> (shown: Shown<'a, DesktopNotificationSnapshot>)
    requires
        complete(states@),
    ensures
        shows(
            shown,
            states@[DesktopDomainId::Notifications],
            |value: DesktopNotificationSnapshot| DesktopDomainValue::Notifications(value),
            *fallback,
        ),
{
    let state = state(states, DesktopDomainId::Notifications);
    let content = match state.value() {
        Some(DesktopDomainValue::Notifications(value)) => value,
        _ => fallback,
    };
    Shown { availability: producer_availability(state), content }
}

fn launcher_snapshot<'a>(states: &'a DomainStates, fallback: &'a Vec<LauncherEntry>) -> (shown: Shown<'a, Vec<LauncherEntry>>)
    requires
        complete(states@),
    ensures
        shows(
            shown,
            states@[DesktopDomainId::Launcher],
            |value: Vec<LauncherEntry>| DesktopDomainValue::Launcher(value),
            *fallback,
        ),
{
    let state = state(states, DesktopDomainId::Launcher);
    let content = match state.value() {
        Some(DesktopDomainValue::Launcher(value)) => value,
        _ => fallback,
    };
    Shown { availability: producer_availability(state), content }
}

fn calendar_snapshot<'a>(states: &'a DomainStates, fallback: &'a CalendarSnapshot) -> (shown: Shown<'a, CalendarSnapshot>)
    requires
        complete(states@),
    ensures
        shows(
            shown,
            states@[DesktopDomainId::Calendar],
            |value: CalendarSnapshot| DesktopDomainValue::Calendar(value),
            *fallback,
        ),
{
    let state = state(states, DesktopDomainId::Calendar);
    let content = match state.value() {
        Some(DesktopDomainValue::Calendar(value)) => value,
        _ => fallback,
    };
    Shown { availability: producer_availability(state), content }
}

fn weather_snapshot<'a>(states: &'a DomainStates, fallback: &'a WeatherSnapshot) -> (shown: Shown<'a, WeatherSnapshot>)
    requires
        complete(states@),
    ensures
        shows(
            shown,
            states@[DesktopDomainId::Weather],
            |value: WeatherSnapshot| DesktopDomainValue::Weather(value),
            *fallback,
        ),
{
    let state = state(states, DesktopDomainId::Weather);
    let content = match state.value() {
        Some(DesktopDomainValue::Weather(value)) => value,
        _ => fallback,
    };
    Shown { availability: producer_availability(state), content }
}

fn appearance_snapshot<'a>(states: &'a DomainStates, fallback: &'a AppearanceValue) -> (shown: Shown<'a, AppearanceValue>)
    requires
        complete(states@),
    ensures
        shows(
            shown,
            states@[DesktopDomainId::Appearance],
            |value: AppearanceValue| DesktopDomainValue::Appearance(value),
            *fallback,
        ),
{
    let state = state(states, DesktopDomainId::Appearance);
    let content = match state.value() {
        Some(DesktopDomainValue::Appearance(value)) => value,
        _ => fallback,
    };
    Shown { availability: producer_availability(state), content }
}

fn resources_snapshot<'a>(states: &'a DomainStates, fallback: &'a Vec<ResourceSample>) -> (shown: Shown<'a, Vec<ResourceSample>>)
    requires
        complete(states@),
    ensures
        shows(
            shown,
            states@[DesktopDomainId::Resources],
            |value: Vec<ResourceSample>| DesktopDomainValue::Resources(value),
            *fallback,
        ),
{
    let state = state(states, DesktopDomainId::Resources);
    let content = match state.value() {
        Some(DesktopDomainValue::Resources(value)) => value,
        _ => fallback,
    };
    Shown { availability: producer_availability(state), content }
}

/// The state of a domain.
fn state(states: &DomainStates, domain: DesktopDomainId) -> (state: &DesktopDomainState)
    requires
        complete(states@),
    ensures
        *state == states@[domain],
        state.of() == domain,
{
    assert(states@.contains_key(domain));
    match states.get(domain) {
        Some(state) => state,
        None => vstd::pervasive::unreached(),
    }
}

/// Checks that every domain has a state of its own.
fn check_states(states: &DomainStates) -> (checked: Result<(), SessionError>)
    ensures
        match assembly_fault(states@, 0) {
            Some(fault) => fails_with(checked, ErrorKind::InvalidInput, fault),
            None => checked is Ok && complete(states@),
        },
{
    for i in 0..DOMAIN_COUNT
        invariant
            assembly_fault(states@, 0) == assembly_fault(states@, i as int),
            forall|j: int|
                0 <= j < i ==> states@.contains_key(#[trigger] DesktopDomainId::at(j))
                    && states@[DesktopDomainId::at(j)].of() == DesktopDomainId::at(j),
    {
        let domain = DesktopDomainId::from_index(i);
        match states.get(domain) {
            None => {
                let mut message = "desktop state omitted ".to_owned();
                message.append(domain.name());
                return Err(SessionError { kind: ErrorKind::InvalidInput, message });
            },
            Some(state) => {
                if state.domain() != domain {
                    return Err(
                        SessionError::new(
                            ErrorKind::InvalidInput,
                            "desktop state map key does not match its state domain",
                        ),
                    );
                }
            },
        }
    }
    proof {
        assert forall|domain: DesktopDomainId|
            #![trigger states@.contains_key(domain)]
            states@.contains_key(domain) && states@[domain].of() == domain by {
            super::domain::places_are_a_bijection(domain, 0);
            assert(DesktopDomainId::at(domain.place()) == domain);
        }
    }
    Ok(())
}

/// Assembles the snapshot of the whole desktop.
pub fn assemble<'a>(states: &'a DomainStates, fallbacks: &'a Fallbacks) -> (snapshot: Result<
    DesktopSnapshot<'a>,
    SessionError,
>)
    ensures
        match assembly_fault(states@, 0) {
            Some(fault) => fails_with(snapshot, ErrorKind::InvalidInput, fault),
            None => snapshot is Ok && assembled(snapshot->Ok_0, states@, *fallbacks),
        },
{
    match check_states(states) {
        Ok(()) => {},
        Err(error) => return Err(error),
    }
    Ok(
        DesktopSnapshot {
            system: DesktopSystemSnapshot {
                network: network_capability(states),
                bluetooth: bluetooth_capability(states),
                audio: audio_capability(states),
                media: media_capability(states),
                battery: battery_capability(states),
                brightness: brightness_capability(states),
                night_light: night_light_capability(states),
                power: power_capability(states),
                osd: osd_capability(states),
                lock: lock_capability(states),
            },
            hyprland: hyprland_capability(states),
            notifications: notifications_snapshot(states, &fallbacks.notifications),
            launcher: launcher_snapshot(states, &fallbacks.launcher),
            calendar: calendar_snapshot(states, &fallbacks.calendar),
            weather: weather_snapshot(states, &fallbacks.weather),
            appearance: appearance_snapshot(states, &fallbacks.appearance),
            resources: resources_snapshot(states, &fallbacks.resources),
            utilities: DesktopUtilitySnapshot {
                tray_items: tray_items_capability(states),
                clipboard_entries: clipboard_entries_capability(states),
                recording: recording_capability(states),
                idle_inhibited: idle_inhibited_capability(states),
                game_mode: game_mode_capability(states),
                screenshot: producer_availability(state(states, DesktopDomainId::Screenshot)),
                color_picker: producer_availability(state(states, DesktopDomainId::ColorPicker)),
            },
        },
    )
}

/// The part of a snapshot that belongs to one domain.
pub enum DomainUpdate<'s, 'a> {
    Network(&'s DesktopCapability<'a, NetworkSnapshot>),
    Bluetooth(&'s DesktopCapability<'a, BluetoothSnapshot>),
    Audio(&'s DesktopCapability<'a, AudioSnapshot>),
    Media(&'s DesktopCapability<'a, MediaSnapshot>),
    Battery(&'s DesktopCapability<'a, BatterySnapshot>),
    Brightness(&'s DesktopCapability<'a, BrightnessSnapshot>),
    NightLight(&'s DesktopCapability<'a, NightLightSnapshot>),
    Power(&'s DesktopCapability<'a, DesktopPowerSnapshot>),
    Osd(&'s DesktopCapability<'a, DesktopOsdSnapshot>),
    Lock(&'s DesktopCapability<'a, LockState>),
    Hyprland(&'s DesktopCapability<'a, HyprlandSnapshot>),
    Tray(&'s DesktopCapability<'a, Vec<TrayItem>>),
    Clipboard(&'s DesktopCapability<'a, Vec<ClipboardEntry>>),
    Recording(&'s DesktopCapability<'a, RecordingState>),
    IdleInhibit(&'s DesktopCapability<'a, bool>),
    GameMode(&'s DesktopCapability<'a, bool>),
    Notifications(&'s Shown<'a, DesktopNotificationSnapshot>),
    Launcher(&'s Shown<'a, Vec<LauncherEntry>>),
    Calendar(&'s Shown<'a, CalendarSnapshot>),
    Weather(&'s Shown<'a, WeatherSnapshot>),
    Appearance(&'s Shown<'a, AppearanceValue>),
    Resources(&'s Shown<'a, Vec<ResourceSample>>),
    Screenshot(&'s ProducerAvailability),
    ColorPicker(&'s ProducerAvailability),
}

/// Whether an update is the part of a snapshot that belongs to a domain.
pub open spec fn is_part(
    update: DomainUpdate<'_, '_>,
    domain: DesktopDomainId,
    snapshot: DesktopSnapshot<'_>,
) -> bool {
    match domain {
        DesktopDomainId::Network => update == DomainUpdate::Network(&snapshot.system.network),
        DesktopDomainId::Bluetooth => update == DomainUpdate::Bluetooth(&snapshot.system.bluetooth),
        DesktopDomainId::Audio => update == DomainUpdate::Audio(&snapshot.system.audio),
        DesktopDomainId::Media => update == DomainUpdate::Media(&snapshot.system.media),
        DesktopDomainId::Battery => update == DomainUpdate::Battery(&snapshot.system.battery),
        DesktopDomainId::Brightness => update == DomainUpdate::Brightness(&snapshot.system.brightness),
        DesktopDomainId::NightLight => update == DomainUpdate::NightLight(&snapshot.system.night_light),
        DesktopDomainId::Power => update == DomainUpdate::Power(&snapshot.system.power),
        DesktopDomainId::Osd => update == DomainUpdate::Osd(&snapshot.system.osd),
        DesktopDomainId::Lock => update == DomainUpdate::Lock(&snapshot.system.lock),
        DesktopDomainId::Hyprland => update == DomainUpdate::Hyprland(&snapshot.hyprland),
        DesktopDomainId::Tray => update == DomainUpdate::Tray(&snapshot.utilities.tray_items),
        DesktopDomainId::Clipboard => update == DomainUpdate::Clipboard(&snapshot.utilities.clipboard_entries),
        DesktopDomainId::Recording => update == DomainUpdate::Recording(&snapshot.utilities.recording),
        DesktopDomainId::IdleInhibit => update == DomainUpdate::IdleInhibit(&snapshot.utilities.idle_inhibited),
        DesktopDomainId::GameMode => update == DomainUpdate::GameMode(&snapshot.utilities.game_mode),
        DesktopDomainId::Notifications => update == DomainUpdate::Notifications(&snapshot.notifications),
        DesktopDomainId::Launcher => update == DomainUpdate::Launcher(&snapshot.launcher),
        DesktopDomainId::Calendar => update == DomainUpdate::Calendar(&snapshot.calendar),
        DesktopDomainId::Weather => update == DomainUpdate::Weather(&snapshot.weather),
        DesktopDomainId::Appearance => update == DomainUpdate::Appearance(&snapshot.appearance),
        DesktopDomainId::Resources => update == DomainUpdate::Resources(&snapshot.resources),
        DesktopDomainId::Screenshot => update == DomainUpdate::Screenshot(&snapshot.utilities.screenshot),
        DesktopDomainId::ColorPicker => update == DomainUpdate::ColorPicker(&snapshot.utilities.color_picker),
    }
}

/// The part of a snapshot that belongs to one domain.
pub fn domain_update<'s, 'a>(
    domain: DesktopDomainId,
    snapshot: &'s DesktopSnapshot<'a>,
) -> (update: DomainUpdate<'s, 'a>)
    ensures
        is_part(update, domain, *snapshot),
{
    match domain {
        DesktopDomainId::Network => DomainUpdate::Network(&snapshot.system.network),
        DesktopDomainId::Bluetooth => DomainUpdate::Bluetooth(&snapshot.system.bluetooth),
        DesktopDomainId::Audio => DomainUpdate::Audio(&snapshot.system.audio),
        DesktopDomainId::Media => DomainUpdate::Media(&snapshot.system.media),
        DesktopDomainId::Battery => DomainUpdate::Battery(&snapshot.system.battery),
        DesktopDomainId::Brightness => DomainUpdate::Brightness(&snapshot.system.brightness),
        DesktopDomainId::NightLight => DomainUpdate::NightLight(&snapshot.system.night_light),
        DesktopDomainId::Power => DomainUpdate::Power(&snapshot.system.power),
        DesktopDomainId::Osd => DomainUpdate::Osd(&snapshot.system.osd),
        DesktopDomainId::Lock => DomainUpdate::Lock(&snapshot.system.lock),
        DesktopDomainId::Hyprland => DomainUpdate::Hyprland(&snapshot.hyprland),
        DesktopDomainId::Tray => DomainUpdate::Tray(&snapshot.utilities.tray_items),
        DesktopDomainId::Clipboard => DomainUpdate::Clipboard(&snapshot.utilities.clipboard_entries),
        DesktopDomainId::Recording => DomainUpdate::Recording(&snapshot.utilities.recording),
        DesktopDomainId::IdleInhibit => DomainUpdate::IdleInhibit(&snapshot.utilities.idle_inhibited),
        DesktopDomainId::GameMode => DomainUpdate::GameMode(&snapshot.utilities.game_mode),
        DesktopDomainId::Notifications => DomainUpdate::Notifications(&snapshot.notifications),
        DesktopDomainId::Launcher => DomainUpdate::Launcher(&snapshot.launcher),
        DesktopDomainId::Calendar => DomainUpdate::Calendar(&snapshot.calendar),
        DesktopDomainId::Weather => DomainUpdate::Weather(&snapshot.weather),
        DesktopDomainId::Appearance => DomainUpdate::Appearance(&snapshot.appearance),
        DesktopDomainId::Resources => DomainUpdate::Resources(&snapshot.resources),
        DesktopDomainId::Screenshot => DomainUpdate::Screenshot(&snapshot.utilities.screenshot),
        DesktopDomainId::ColorPicker => DomainUpdate::ColorPicker(&snapshot.utilities.color_picker),
    }
}

} // verus!

//! The producers of the remaining domains: what their sources report becomes the
//! state of a domain.

use vstd::prelude::*;

use crate::error::{fails_with, invalid, invalid_input, ErrorKind, SessionError};
use crate::notifications::document::{copy_documents, document_views};
use crate::notifications::store::NotificationStore;
use crate::text::{blank_text, decimal, decimal_text, is_blank, same_text};

use super::budget::Json;
use super::domain::{
    terminal_or, AppearanceValue, CapabilityAvailability, DesktopDomainId, DesktopDomainState,
    DesktopDomainValue, DesktopNotificationSnapshot, DesktopOsdSnapshot, HyprlandSnapshot,
    LauncherEntry, OsdEvent, WeatherLocation,
};
use super::registry::failed_as;

verus! {

// ---------------------------------------------------------------------------
// Failures
// ---------------------------------------------------------------------------

/// The reason of a provider, or a fixed one in place of a blank text.
pub open spec fn reason_or_fixed(reason: Seq<char>) -> Seq<char> {
    if is_blank(reason) {
        "desktop provider failed"@
    } else {
        reason
    }
}

/// The state of a domain whose provider failed.
pub fn terminal(domain: DesktopDomainId, status: CapabilityAvailability, reason: String) -> (state:
    DesktopDomainState)
    requires
        status != CapabilityAvailability::Available,
    ensures
        failed_as(state, domain, status, reason_or_fixed(reason@)),
{
    proof {
        reveal_strlit("desktop provider failed");
        assert("desktop provider failed"@[0] == 'd');
    }
    terminal_or(domain, status, reason, "desktop provider failed")
}

pub open spec fn availability_of(kind: ErrorKind) -> CapabilityAvailability {
    match kind {
        ErrorKind::NotFound | ErrorKind::NotConnected => CapabilityAvailability::Unavailable,
        ErrorKind::PermissionDenied => CapabilityAvailability::PermissionDenied,
        ErrorKind::TimedOut => CapabilityAvailability::Timeout,
        ErrorKind::InvalidData => CapabilityAvailability::Parse,
        ErrorKind::Unsupported => CapabilityAvailability::Unsupported,
        _ => CapabilityAvailability::Error,
    }
}

pub fn availability_for_io(kind: ErrorKind) -> (status: CapabilityAvailability)
    ensures
        status == availability_of(kind),
        status != CapabilityAvailability::Available,
{
    match kind {
        ErrorKind::NotFound | ErrorKind::NotConnected => CapabilityAvailability::Unavailable,
        ErrorKind::PermissionDenied => CapabilityAvailability::PermissionDenied,
        ErrorKind::TimedOut => CapabilityAvailability::Timeout,
        ErrorKind::InvalidData => CapabilityAvailability::Parse,
        ErrorKind::Unsupported => CapabilityAvailability::Unsupported,
        _ => CapabilityAvailability::Error,
    }
}

/// Why the compositor failed.
#[derive(Debug, Clone, Copy, PartialEq, Eq, Structural)]
pub enum CompositorErrorKind {
    Unavailable,
    UnsafeInstance,
    Timeout,
    Parse,
    Inconsistent,
    Bounds,
    Unsupported,
    Other,
}

pub open spec fn compositor_status(kind: CompositorErrorKind) -> CapabilityAvailability {
    match kind {
        CompositorErrorKind::Unavailable => CapabilityAvailability::Unavailable,
        CompositorErrorKind::UnsafeInstance => CapabilityAvailability::PermissionDenied,
        CompositorErrorKind::Timeout => CapabilityAvailability::Timeout,
        CompositorErrorKind::Parse | CompositorErrorKind::Inconsistent
        | CompositorErrorKind::Bounds => CapabilityAvailability::Parse,
        CompositorErrorKind::Unsupported => CapabilityAvailability::Unsupported,
        CompositorErrorKind::Other => CapabilityAvailability::Error,
    }
}

pub fn compositor_availability(kind: CompositorErrorKind) -> (status: CapabilityAvailability)
    ensures
        status == compositor_status(kind),
        status != CapabilityAvailability::Available,
{
    match kind {
        CompositorErrorKind::Unavailable => CapabilityAvailability::Unavailable,
        CompositorErrorKind::UnsafeInstance => CapabilityAvailability::PermissionDenied,
        CompositorErrorKind::Timeout => CapabilityAvailability::Timeout,
        CompositorErrorKind::Parse | CompositorErrorKind::Inconsistent
        | CompositorErrorKind::Bounds => CapabilityAvailability::Parse,
        CompositorErrorKind::Unsupported => CapabilityAvailability::Unsupported,
        CompositorErrorKind::Other => CapabilityAvailability::Error,
    }
}

/// A producer that only ever reports why there is no value.
pub struct TerminalProducer {
    pub state: DesktopDomainState,
}

impl TerminalProducer {
    pub fn new(domain: DesktopDomainId, status: CapabilityAvailability, diagnostic: String) -> (producer:
        Result<TerminalProducer, SessionError>)
        ensures
            if status == CapabilityAvailability::Available {
                fails_with(
                    producer,
                    ErrorKind::InvalidInput,
                    "available desktop domain state requires typed data"@,
                )
            } else if is_blank(diagnostic@) {
                fails_with(
                    producer,
                    ErrorKind::InvalidInput,
                    "terminal desktop domain state requires a diagnostic"@,
                )
            } else {
                producer is Ok && failed_as(
                    producer->Ok_0.state,
                    domain,
                    status,
                    diagnostic@,
                )
            },
    {
        match DesktopDomainState::terminal(domain, status, diagnostic) {
            Ok(state) => Ok(TerminalProducer { state }),
            Err(error) => Err(error),
        }
    }
}

/// The producer of a compositor that was not found.
pub fn hyprland_terminal(kind: CompositorErrorKind, reason: String) -> (producer: Result<
    TerminalProducer,
    SessionError,
>)
    ensures
        if is_blank(reason@) {
            fails_with(
                producer,
                ErrorKind::InvalidInput,
                "terminal desktop domain state requires a diagnostic"@,
            )
        } else {
            producer is Ok && failed_as(
                producer->Ok_0.state,
                DesktopDomainId::Hyprland,
                compositor_status(kind),
                reason@,
            )
        },
{
    TerminalProducer::new(DesktopDomainId::Hyprland, compositor_availability(kind), reason)
}

// ---------------------------------------------------------------------------
// Values
// ---------------------------------------------------------------------------

/// Whether a state has this value.
pub open spec fn available_as_value(state: DesktopDomainState, value: DesktopDomainValue) -> bool {
    &&& state.of() == super::domain::domain_of(value)
    &&& state.state() == CapabilityAvailability::Available
    &&& state.data() == Some(value)
    &&& state.reason() is None
}

/// The state of a domain with a value of it.
pub fn available(value: DesktopDomainValue) -> (state: DesktopDomainState)
    ensures
        available_as_value(state, value),
{
    match DesktopDomainState::available(value.domain(), value) {
        Ok(state) => state,
        Err(_) => vstd::pervasive::unreached(),
    }
}

/// The producer of the compositor.
#[derive(Debug, Clone, Copy, PartialEq, Eq, Structural)]
pub struct HyprlandProducer {}

impl HyprlandProducer {
    pub fn new() -> (producer: HyprlandProducer)
        ensures
            producer == (HyprlandProducer {  }),
    {
        HyprlandProducer {  }
    }

    pub fn domain(&self) -> (domain: DesktopDomainId)
        ensures
            domain == DesktopDomainId::Hyprland,
    {
        DesktopDomainId::Hyprland
    }

    /// The state of the compositor from what it answered.
    pub fn state(
        &self,
        answer: Result<HyprlandSnapshot, (CompositorErrorKind, String)>,
    ) -> (state: DesktopDomainState)
        ensures
            match answer {
                Ok(snapshot) => available_as_value(state, DesktopDomainValue::Hyprland(snapshot)),
                Err(failure) => failed_as(
                    state,
                    DesktopDomainId::Hyprland,
                    compositor_status(failure.0),
                    reason_or_fixed(failure.1@),
                ),
            },
    {
        match answer {
            Ok(snapshot) => available(DesktopDomainValue::Hyprland(snapshot)),
            Err((kind, reason)) => terminal(
                DesktopDomainId::Hyprland,
                compositor_availability(kind),
                reason,
            ),
        }
    }
}

/// The state of the notifications: the active ones, and whether they disturb.
pub fn notification_state(store: &NotificationStore) -> (state: DesktopDomainState)
    ensures
        state.of() == DesktopDomainId::Notifications,
        state.state() == CapabilityAvailability::Available,
        state.data() is Some,
        state.data()->Some_0 is Notifications,
        ({
            let shown = state.data()->Some_0->Notifications_0;
            &&& shown.dnd == store.state().preferences.dnd
            &&& document_views(shown.active@) == store.state().active
        }),
{
    available(
        DesktopDomainValue::Notifications(
            DesktopNotificationSnapshot {
                dnd: store.dnd(),
                active: copy_documents(store.active()),
            },
        ),
    )
}

/// The producer of the appearance.
#[derive(Debug, Clone, Copy, PartialEq, Eq, Structural)]
pub struct AppearanceProducer {}

impl AppearanceProducer {
    pub fn new() -> (producer: AppearanceProducer)
        ensures
            producer == (AppearanceProducer {  }),
    {
        AppearanceProducer {  }
    }

    pub fn domain(&self) -> (domain: DesktopDomainId)
        ensures
            domain == DesktopDomainId::Appearance,
    {
        DesktopDomainId::Appearance
    }

    /// The state of the appearance from what was read of it.
    pub fn state(&self, read: Result<AppearanceValue, SessionError>) -> (state: DesktopDomainState)
        ensures
            match read {
                Ok(value) => available_as_value(state, DesktopDomainValue::Appearance(value)),
                Err(error) => failed_as(
                    state,
                    DesktopDomainId::Appearance,
                    CapabilityAvailability::Error,
                    reason_or_fixed(error.message@),
                ),
            },
    {
        match read {
            Ok(value) => available(DesktopDomainValue::Appearance(value)),
            Err(error) => terminal(
                DesktopDomainId::Appearance,
                CapabilityAvailability::Error,
                error.message,
            ),
        }
    }

    /// The state of the appearance when it is polled; nothing while the theme
    /// manager is busy.
    pub fn polling_state(&self, read: Result<AppearanceValue, SessionError>) -> (state: Option<
        DesktopDomainState,
    >)
        ensures
            match read {
                Ok(value) => state is Some && available_as_value(
                    state->Some_0,
                    DesktopDomainValue::Appearance(value),
                ),
                Err(error) => if error.kind == ErrorKind::WouldBlock {
                    state is None
                } else {
                    state is Some && failed_as(
                        state->Some_0,
                        DesktopDomainId::Appearance,
                        CapabilityAvailability::Error,
                        reason_or_fixed(error.message@),
                    )
                },
            },
    {
        match &read {
            Err(error) => {
                if error.kind == ErrorKind::WouldBlock {
                    return None;
                }
            },
            Ok(_) => {},
        }
        Some(self.state(read))
    }
}

/// The producer of what is shown on screen.
#[derive(Debug, Clone, Copy, PartialEq, Eq, Structural)]
pub struct OsdProducer {}

/// What a new subscriber finds within its first moment.
pub enum FirstPublication {
    /// There is no subscription.
    Refused(String),
    Published(Vec<OsdEvent>),
    Failed(SessionError),
    /// Nothing was published in time.
    Silent,
}

/// Whether a state shows these events, the first one as the current one.
pub open spec fn shows_events(state: DesktopDomainState, visible: Seq<OsdEvent>) -> bool {
    &&& state.of() == DesktopDomainId::Osd
    &&& state.state() == CapabilityAvailability::Available
    &&& state.data() is Some
    &&& state.data()->Some_0 is Osd
    &&& state.data()->Some_0->Osd_0.history@ == visible
    &&& state.data()->Some_0->Osd_0.showing == (visible.len() > 0)
}

impl OsdProducer {
    pub fn new() -> (producer: OsdProducer)
        ensures
            producer == (OsdProducer {  }),
    {
        OsdProducer {  }
    }

    pub fn domain(&self) -> (domain: DesktopDomainId)
        ensures
            domain == DesktopDomainId::Osd,
    {
        DesktopDomainId::Osd
    }

    /// The first state, from what a new subscriber finds.
    pub fn initial(&self, found: FirstPublication) -> (state: DesktopDomainState)
        ensures
            match found {
                FirstPublication::Refused(reason) => failed_as(
                    state,
                    DesktopDomainId::Osd,
                    CapabilityAvailability::Error,
                    reason_or_fixed(reason@),
                ),
                FirstPublication::Published(visible) => shows_events(state, visible@),
                FirstPublication::Failed(error) => failed_as(
                    state,
                    DesktopDomainId::Osd,
                    availability_of(error.kind),
                    reason_or_fixed(error.message@),
                ),
                FirstPublication::Silent => shows_events(state, Seq::empty()),
            },
    {
        match found {
            FirstPublication::Refused(reason) => terminal(
                DesktopDomainId::Osd,
                CapabilityAvailability::Error,
                reason,
            ),
            FirstPublication::Published(visible) => osd_state(visible),
            FirstPublication::Failed(error) => terminal(
                DesktopDomainId::Osd,
                availability_for_io(error.kind),
                error.message,
            ),
            FirstPublication::Silent => osd_state(Vec::new()),
        }
    }
}

/// The state of what is shown on screen. The first event is the current one.
pub fn osd_state(visible: Vec<OsdEvent>) -> (state: DesktopDomainState)
    ensures
        shows_events(state, visible@),
{
    let showing = visible.len() > 0;
    available(DesktopDomainValue::Osd(DesktopOsdSnapshot { showing, history: visible }))
}

// ---------------------------------------------------------------------------
// Launcher, calendar and weather
// ---------------------------------------------------------------------------

/// The producer of a domain of the daily backend.
pub struct DailyProducer {
    pub domain: DesktopDomainId,
    pub weather_location: Option<WeatherLocation>,
}

pub open spec fn is_daily_domain(domain: DesktopDomainId) -> bool {
    domain == DesktopDomainId::Launcher || domain == DesktopDomainId::Calendar || domain
        == DesktopDomainId::Weather
}

/// What the daily backend is asked for.
pub enum DailyOperation {
    LauncherSearch { query: String },
    Calendar { window_start: i64, window_end: i64 },
    Weather { location: WeatherLocation },
}

/// How far ahead the calendar is read, in seconds.
pub const CALENDAR_WINDOW: i64 = 2_592_000;

impl DailyProducer {
    pub fn new(domain: DesktopDomainId, weather_location: Option<WeatherLocation>) -> (producer:
        Result<DailyProducer, SessionError>)
        ensures
            if is_daily_domain(domain) {
                &&& producer is Ok
                &&& producer->Ok_0.domain == domain
                &&& producer->Ok_0.weather_location == weather_location
            } else {
                fails_with(
                    producer,
                    ErrorKind::InvalidInput,
                    "daily producer was assigned an unrelated domain"@,
                )
            },
    {
        match domain {
            DesktopDomainId::Launcher | DesktopDomainId::Calendar | DesktopDomainId::Weather => Ok(
                DailyProducer { domain, weather_location },
            ),
            _ => invalid_input("daily producer was assigned an unrelated domain"),
        }
    }

    /// What the daily backend is asked for at a time, in seconds.
    pub fn operation(&self, now: i64) -> (operation: Result<DailyOperation, SessionError>)
        ensures
            match self.domain {
                DesktopDomainId::Launcher => {
                    &&& operation is Ok
                    &&& operation->Ok_0 is LauncherSearch
                    &&& operation->Ok_0->query@ == Seq::<char>::empty()
                },
                DesktopDomainId::Calendar => {
                    &&& operation is Ok
                    &&& operation->Ok_0 is Calendar
                    &&& operation->Ok_0->window_start == now
                    &&& operation->Ok_0->window_end == if now + CALENDAR_WINDOW > i64::MAX {
                        i64::MAX as int
                    } else {
                        now + CALENDAR_WINDOW
                    }
                },
                DesktopDomainId::Weather => match self.weather_location {
                    Some(location) => {
                        &&& operation is Ok
                        &&& operation->Ok_0 is Weather
                        &&& operation->Ok_0->location.display_name@ == location.display_name@
                        &&& operation->Ok_0->location.latitude == location.latitude
                        &&& operation->Ok_0->location.longitude == location.longitude
                    },
                    None => fails_with(
                        operation,
                        ErrorKind::NotFound,
                        "weather location is not configured"@,
                    ),
                },
                _ => fails_with(
                    operation,
                    ErrorKind::InvalidInput,
                    "daily operation has an unrelated domain"@,
                ),
            },
    {
        match self.domain {
            DesktopDomainId::Launcher => Ok(DailyOperation::LauncherSearch { query: String::new() }),
            DesktopDomainId::Calendar => {
                let window_end: i64 = if now > i64::MAX - CALENDAR_WINDOW {
                    i64::MAX
                } else {
                    now + CALENDAR_WINDOW
                };
                Ok(DailyOperation::Calendar { window_start: now, window_end })
            },
            DesktopDomainId::Weather => match &self.weather_location {
                Some(location) => Ok(
                    DailyOperation::Weather {
                        location: WeatherLocation {
                            display_name: location.display_name.clone(),
                            latitude: location.latitude,
                            longitude: location.longitude,
                        },
                    },
                ),
                None => Err(
                    SessionError::new(ErrorKind::NotFound, "weather location is not configured"),
                ),
            },
            _ => invalid_input("daily operation has an unrelated domain"),
        }
    }

    /// The state of the domain from what the backend answered.
    pub fn state(&self, answer: Result<DesktopDomainValue, SessionError>) -> (state:
        DesktopDomainState)
        ensures
            match answer {
                Ok(value) => if super::domain::domain_of(value) == self.domain {
                    available_as_value(state, value)
                } else {
                    failed_as(
                        state,
                        self.domain,
                        CapabilityAvailability::Parse,
                        "desktop domain value belongs to a different producer"@,
                    )
                },
                Err(error) => failed_as(
                    state,
                    self.domain,
                    availability_of(error.kind),
                    reason_or_fixed(error.message@),
                ),
            },
    {
        match answer {
            Ok(value) => match DesktopDomainState::available(self.domain, value) {
                Ok(state) => state,
                Err(error) => {
                    proof {
                        reveal_strlit("desktop domain value belongs to a different producer");
                        assert("desktop domain value belongs to a different producer"@[0] == 'd');
                        assert(!is_blank(error.message@));
                    }
                    terminal(self.domain, CapabilityAvailability::Parse, error.message)
                },
            },
            Err(error) => terminal(
                self.domain,
                availability_for_io(error.kind),
                error.message,
            ),
        }
    }

    /// The state when it is polled; nothing while the service is busy.
    pub fn polling_state(&self, answer: Result<DesktopDomainValue, SessionError>) -> (state: Option<
        DesktopDomainState,
    >)
        ensures
            match answer {
                Ok(value) => state is Some && if super::domain::domain_of(value) == self.domain {
                    available_as_value(state->Some_0, value)
                } else {
                    failed_as(
                        state->Some_0,
                        self.domain,
                        CapabilityAvailability::Parse,
                        "desktop domain value belongs to a different producer"@,
                    )
                },
                Err(error) => if error.kind == ErrorKind::WouldBlock {
                    state is None
                } else {
                    state is Some && failed_as(
                        state->Some_0,
                        self.domain,
                        availability_of(error.kind),
                        reason_or_fixed(error.message@),
                    )
                },
            },
    {
        match &answer {
            Err(error) => {
                if error.kind == ErrorKind::WouldBlock {
                    return None;
                }
            },
            Ok(_) => {},
        }
        Some(self.state(answer))
    }
}

/// The member of an object with a key.
pub open spec fn member(value: Json, key: Seq<char>) -> Option<Json> {
    match value {
        Json::Object(members) => keyed(members@, key, members@.len()),
        _ => None,
    }
}

/// The first of so many members with a key.
pub open spec fn keyed(members: Seq<(String, Json)>, key: Seq<char>, count: nat) -> Option<Json>
    decreases count,
{
    if count == 0 || count > members.len() {
        None
    } else {
        match keyed(members, key, (count - 1) as nat) {
            Some(value) => Some(value),
            None => if members[count - 1].0@ == key {
                Some(members[count - 1].1)
            } else {
                None
            },
        }
    }
}

fn find_member<'a>(value: &'a Json, key: &str) -> (found: Option<&'a Json>)
    ensures
        match found {
            Some(found) => member(*value, key@) == Some(*found),
            None => member(*value, key@) is None,
        },
{
    match value {
        Json::Object(members) => {
            for i in 0..members.len()
                invariant
                    keyed(members@, key@, i as nat) is None,
                    *value == Json::Object(*members),
            {
                if same_text(members[i].0.as_str(), key) {
                    proof {
                        key_stays(members@, key@, (i + 1) as nat, members@.len());
                    }
                    return Some(&members[i].1);
                }
            }
            None
        },
        _ => None,
    }
}

proof fn key_stays(members: Seq<(String, Json)>, key: Seq<char>, count: nat, all: nat)
    requires
        count <= all <= members.len(),
        keyed(members, key, count) is Some,
    ensures
        keyed(members, key, all) == keyed(members, key, count),
    decreases all - count,
{
    if count < all {
        key_stays(members, key, count, (all - 1) as nat);
    }
}

/// The text of a member under its name in snake case, or else in camel case,
/// unless it is blank.
pub open spec fn text_member(value: Json, snake: Seq<char>, camel: Seq<char>) -> Option<Seq<char>> {
    let found = match member(value, snake) {
        Some(found) => Some(found),
        None => member(value, camel),
    };
    match found {
        Some(Json::Text(text)) => if is_blank(text@) {
            None
        } else {
            Some(text@)
        },
        _ => None,
    }
}

fn string_field(value: &Json, snake: &str, camel: &str) -> (text: Option<String>)
    ensures
        match text {
            Some(text) => text_member(*value, snake@, camel@) == Some(text@),
            None => text_member(*value, snake@, camel@) is None,
        },
{
    let found = match find_member(value, snake) {
        Some(found) => Some(found),
        None => find_member(value, camel),
    };
    match found {
        Some(Json::Text(text)) => if blank_text(text.as_str()) {
            None
        } else {
            Some(text.clone())
        },
        _ => None,
    }
}

pub struct LauncherView {
    pub id: Seq<char>,
    pub name: Seq<char>,
    pub icon: Seq<char>,
}

impl View for LauncherEntry {
    type V = LauncherView;

    open spec fn view(&self) -> LauncherView {
        LauncherView { id: self.id@, name: self.name@, icon: self.icon@ }
    }
}

/// An entry of the launcher, if its identifier and its name are given.
pub open spec fn launcher_entry(value: Json) -> Option<LauncherView> {
    match (
        text_member(value, "desktop_id"@, "desktopId"@),
        text_member(value, "name"@, "name"@),
    ) {
        (Some(id), Some(name)) => Some(
            LauncherView {
                id,
                name,
                icon: match text_member(value, "icon"@, "icon"@) {
                    Some(icon) => icon,
                    None => "application-x-executable"@,
                },
            },
        ),
        _ => None,
    }
}

/// The entries of the launcher, if every one is complete.
pub open spec fn launcher_entries(values: Seq<Json>) -> Option<Seq<LauncherView>>
    decreases values.len(),
{
    if values.len() == 0 {
        Some(Seq::empty())
    } else {
        match (launcher_entries(values.drop_last()), launcher_entry(values.last())) {
            (Some(earlier), Some(entry)) => Some(earlier.push(entry)),
            _ => None,
        }
    }
}

proof fn missing_entry_stays(values: Seq<Json>, count: int)
    requires
        0 <= count <= values.len(),
        launcher_entries(values.take(count)) is None,
    ensures
        launcher_entries(values) is None,
    decreases values.len() - count,
{
    if count < values.len() {
        assert(values.take(count + 1).drop_last() =~= values.take(count));
        missing_entry_stays(values, count + 1);
    } else {
        assert(values.take(count) =~= values);
    }
}

/// The entries of the launcher in the answer of the daily backend.
pub fn launcher_value(value: &Json) -> (entries: Result<Vec<LauncherEntry>, SessionError>)
    ensures
        match *value {
            Json::Array(values) => match launcher_entries(values@) {
                Some(expected) => entries is Ok && crate::rows::views(entries->Ok_0@) == expected,
                None => fails_with(
                    entries,
                    ErrorKind::InvalidData,
                    "daily result omitted a string field"@,
                ),
            },
            _ => fails_with(
                entries,
                ErrorKind::InvalidData,
                "launcher result is not an array"@,
            ),
        },
{
    let values = match value {
        Json::Array(values) => values,
        _ => return invalid("launcher result is not an array"),
    };
    let mut entries: Vec<LauncherEntry> = Vec::new();
    assert(crate::rows::views(entries@) =~= Seq::empty());
    assert(values@.take(0) =~= Seq::empty());
    for i in 0..values.len()
        invariant
            *value == Json::Array(*values),
            launcher_entries(values@.take(i as int)) == Some(crate::rows::views(entries@)),
    {
        proof {
            assert(values@.take(i + 1).drop_last() =~= values@.take(i as int));
        }
        let id = match string_field(&values[i], "desktop_id", "desktopId") {
            Some(id) => id,
            None => {
                proof {
                    missing_entry_stays(values@, i + 1);
                }
                return invalid("daily result omitted a string field");
            },
        };
        let name = match string_field(&values[i], "name", "name") {
            Some(name) => name,
            None => {
                proof {
                    missing_entry_stays(values@, i + 1);
                }
                return invalid("daily result omitted a string field");
            },
        };
        let icon = match string_field(&values[i], "icon", "icon") {
            Some(icon) => icon,
            None => "application-x-executable".to_owned(),
        };
        let entry = LauncherEntry { id, name, icon };
        proof {
            crate::rows::views_of_push(entries@, entry);
        }
        entries.push(entry);
    }
    assert(values@.take(values@.len() as int) =~= values@);
    Ok(entries)
}

// ---------------------------------------------------------------------------
// Times
// ---------------------------------------------------------------------------

/// The fields of a time in UTC.
pub struct UtcTime {
    pub year: i64,
    pub month: u64,
    pub day: u64,
    pub hour: u64,
    pub minute: u64,
    pub second: u64,
}

/// A number with leading zeros up to a width.
pub open spec fn padded(n: nat, width: nat) -> Seq<char> {
    let digits = decimal(n);
    if digits.len() < width {
        Seq::new((width - digits.len()) as nat, |i: int| '0') + digits
    } else {
        digits
    }
}

fn push_padded(text: &mut String, n: u64, width: usize)
    ensures
        final(text)@ == old(text)@ + padded(n as nat, width as nat),
{
    let digits = decimal_text(n);
    let length: usize = crate::text::chars_of(digits.as_str()).len();
    let mut zeros: usize = 0;
    let ghost before = text@;
    if length < width {
        for i in 0..(width - length)
            invariant
                zeros == i,
                text@ == before + Seq::new(i as nat, |i: int| '0'),
        {
            text.push('0');
            zeros = zeros + 1;
            assert(text@ =~= before + Seq::new((i + 1) as nat, |i: int| '0'));
        }
    }
    text.append(digits.as_str());
    proof {
        if length < width {
            assert(text@ =~= before + padded(n as nat, width as nat));
        } else {
            assert(text@ =~= before + padded(n as nat, width as nat));
        }
    }
}

/// A number with its sign and leading zeros up to a width.
pub open spec fn padded_signed(n: int, width: nat) -> Seq<char> {
    if n < 0 {
        "-"@ + padded((-n) as nat, (width - 1) as nat)
    } else {
        padded(n as nat, width)
    }
}

/// A time as it is written: date, `T`, time of day, `Z`.
pub open spec fn utc_text(time: UtcTime) -> Seq<char> {
    padded_signed(time.year as int, 4) + "-"@ + padded(time.month as nat, 2) + "-"@ + padded(
        time.day as nat,
        2,
    ) + "T"@ + padded(time.hour as nat, 2) + ":"@ + padded(time.minute as nat, 2) + ":"@ + padded(
        time.second as nat,
        2,
    ) + "Z"@
}

pub fn format_utc(time: &UtcTime) -> (text: String)
    ensures
        text@ == utc_text(*time),
{
    let mut text = String::new();
    if time.year < 0 {
        let magnitude: u64 = (-(time.year + 1)) as u64 + 1;
        text.append("-");
        push_padded(&mut text, magnitude, 3);
    } else {
        push_padded(&mut text, time.year as u64, 4);
    }
    assert(text@ =~= padded_signed(time.year as int, 4));
    text.append("-");
    push_padded(&mut text, time.month, 2);
    text.append("-");
    push_padded(&mut text, time.day, 2);
    text.append("T");
    push_padded(&mut text, time.hour, 2);
    text.append(":");
    push_padded(&mut text, time.minute, 2);
    text.append(":");
    push_padded(&mut text, time.second, 2);
    text.append("Z");
    text
}

} // verus!

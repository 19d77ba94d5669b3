//! The notification interface on the session bus.

use vstd::prelude::*;

use crate::error::{fails_with, ErrorKind, SessionError};
use crate::notifications::document::{
    ActionView, NotificationAction, NotificationActionState, NotificationDocument,
    NotificationUrgency, NotificationView, WIRE_SCHEMA_VERSION,
};
use crate::notifications::provider::NotifyRequest;
use crate::text::{chars_of, string_of};

verus! {

pub const OBJECT_PATH: &'static str = "/org/freedesktop/Notifications";

/// The timeout of a notification that leaves it to the service, in milliseconds.
pub const DEFAULT_TIMEOUT_MS: u64 = 5000;

/// Why a notification was closed: its time was over.
pub const CLOSED_EXPIRED: u32 = 1;

/// Why a notification was closed: a program asked for it.
pub const CLOSED_BY_CALL: u32 = 3;

/// The methods of the interface.
#[derive(Debug, Clone, Copy, PartialEq, Eq, Structural)]
pub enum BusMethod {
    GetCapabilities,
    GetServerInformation,
    Notify,
    CloseNotification,
}

/// The method with a name.
pub fn bus_method(member: Option<&str>) -> (method: Result<BusMethod, SessionError>)
    ensures
        ({
            let name = match member {
                Some(text) => text@,
                None => Seq::empty(),
            };
            if member is Some && name == "GetCapabilities"@ {
                method == Ok::<BusMethod, SessionError>(BusMethod::GetCapabilities)
            } else if member is Some && name == "GetServerInformation"@ {
                method == Ok::<BusMethod, SessionError>(BusMethod::GetServerInformation)
            } else if member is Some && name == "Notify"@ {
                method == Ok::<BusMethod, SessionError>(BusMethod::Notify)
            } else if member is Some && name == "CloseNotification"@ {
                method == Ok::<BusMethod, SessionError>(BusMethod::CloseNotification)
            } else {
                fails_with(method, ErrorKind::Unsupported, "unknown notification method"@)
            }
        }),
{
    if let Some(name) = member {
        if crate::text::same_text(name, "GetCapabilities") {
            return Ok(BusMethod::GetCapabilities);
        }
        if crate::text::same_text(name, "GetServerInformation") {
            return Ok(BusMethod::GetServerInformation);
        }
        if crate::text::same_text(name, "Notify") {
            return Ok(BusMethod::Notify);
        }
        if crate::text::same_text(name, "CloseNotification") {
            return Ok(BusMethod::CloseNotification);
        }
    }
    Err(SessionError::new(ErrorKind::Unsupported, "unknown notification method"))
}

/// The arguments of a call of `Notify`.
pub struct NotifyCall {
    pub application: String,
    pub replaces_id: u32,
    pub summary: String,
    pub body: String,
    /// Keys and labels in turn.
    pub actions: Vec<String>,
    /// The urgency hint, if there is one that is a number.
    pub urgency: Option<u64>,
    pub timeout: i32,
    /// The unique bus name of the caller.
    pub sender: Option<String>,
    pub created_at: String,
}

/// The actions that keys and labels in turn stand for.
pub open spec fn paired_actions(names: Seq<Seq<char>>) -> Seq<ActionView> {
    Seq::new(
        (names.len() / 2) as nat,
        |i: int|
            ActionView {
                id: names[2 * i],
                label: names[2 * i + 1],
                state: NotificationActionState::Available,
            },
    )
}

pub open spec fn urgency_of(hint: Option<u64>) -> Option<NotificationUrgency> {
    match hint {
        None => Some(NotificationUrgency::Normal),
        Some(level) => if level == 0 {
            Some(NotificationUrgency::Low)
        } else if level == 1 {
            Some(NotificationUrgency::Normal)
        } else if level == 2 {
            Some(NotificationUrgency::Critical)
        } else {
            None
        },
    }
}

/// The notification that a call asks for.
pub open spec fn called_notification(call: NotifyCall) -> NotificationView {
    NotificationView {
        schema_version: WIRE_SCHEMA_VERSION,
        id: call.replaces_id as u64,
        application_id: call.application@,
        summary: call.summary@,
        body: call.body@,
        urgency: urgency_of(call.urgency)->Some_0,
        created_at: call.created_at@,
        timeout_ms: Some(
            if call.timeout < 0 {
                DEFAULT_TIMEOUT_MS
            } else {
                call.timeout as u64
            },
        ),
        read: false,
        archived: false,
        actions: paired_actions(crate::text::texts(call.actions@)),
    }
}

/// The request that a call of `Notify` makes.
pub fn notify_request(call: NotifyCall) -> (request: Result<NotifyRequest, SessionError>)
    ensures
        if call.actions@.len() % 2 != 0 {
            fails_with(
                request,
                ErrorKind::InvalidInput,
                "notification actions must be key/label pairs"@,
            )
        } else if call.sender is None {
            fails_with(request, ErrorKind::InvalidInput, "missing D-Bus sender"@)
        } else if urgency_of(call.urgency) is None {
            fails_with(request, ErrorKind::InvalidInput, "invalid notification urgency"@)
        } else {
            &&& request is Ok
            &&& request->Ok_0.origin@ == call.sender->Some_0@
            &&& request->Ok_0.notification@ == called_notification(call)
            &&& request->Ok_0.notification.summary@ == call.summary@
            &&& request->Ok_0.notification.body@ == call.body@
            &&& request->Ok_0.notification.application_id@ == call.application@
            &&& request->Ok_0.notification.created_at@ == call.created_at@
            &&& request->Ok_0.notification.id == call.replaces_id
        },
{
    if call.actions.len() % 2 != 0 {
        return Err(
            SessionError::new(
                ErrorKind::InvalidInput,
                "notification actions must be key/label pairs",
            ),
        );
    }
    let ghost names = crate::text::texts(call.actions@);
    let ghost expected = called_notification(call);
    let origin = match call.sender {
        Some(sender) => sender,
        None => {
            return Err(SessionError::new(ErrorKind::InvalidInput, "missing D-Bus sender"));
        },
    };
    let level: u64 = match call.urgency {
        Some(level) => level,
        None => 1,
    };
    let urgency = if level == 0 {
        NotificationUrgency::Low
    } else if level == 1 {
        NotificationUrgency::Normal
    } else if level == 2 {
        NotificationUrgency::Critical
    } else {
        return Err(
            SessionError::new(ErrorKind::InvalidInput, "invalid notification urgency"),
        );
    };
    let mut actions: Vec<NotificationAction> = Vec::new();
    let total: usize = call.actions.len();
    let pairs: usize = total / 2;
    for i in 0..pairs
        invariant
            total == call.actions@.len(),
            pairs == total / 2,
            names == crate::text::texts(call.actions@),
            actions@.len() == i,
            forall|j: int|
                0 <= j < i ==> (#[trigger] actions@[j])@ == paired_actions(names)[j],
    {
        assert(names[2 * i] == call.actions@[2 * i]@);
        assert(names[2 * i + 1] == call.actions@[2 * i + 1]@);
        actions.push(
            NotificationAction {
                id: call.actions[2 * i].clone(),
                label: call.actions[2 * i + 1].clone(),
                state: NotificationActionState::Available,
            },
        );
    }
    let timeout: u64 = if call.timeout < 0 {
        DEFAULT_TIMEOUT_MS
    } else {
        call.timeout as u64
    };
    let notification = NotificationDocument {
        schema_version: WIRE_SCHEMA_VERSION,
        id: call.replaces_id as u64,
        application_id: call.application,
        summary: call.summary,
        body: call.body,
        urgency,
        created_at: call.created_at,
        timeout_ms: Some(timeout),
        read: false,
        archived: false,
        actions,
    };
    assert(notification@.actions =~= expected.actions);
    Ok(NotifyRequest { origin, notification })
}

/// The identifier of a notification on the bus.
pub fn wire_id(id: u64) -> (wire: Result<u32, SessionError>)
    ensures
        id <= u32::MAX ==> wire == Ok::<u32, SessionError>(id as u32),
        id > u32::MAX ==> fails_with(
            wire,
            ErrorKind::InvalidInput,
            "notification id exceeds D-Bus range"@,
        ),
{
    if id > 4294967295 {
        return Err(
            SessionError::new(ErrorKind::InvalidInput, "notification id exceeds D-Bus range"),
        );
    }
    Ok(id as u32)
}

/// Whether a change of ownership means that the owner of a unique name is gone.
pub fn origin_vanished(name: &str, old_owner: &str, new_owner: &str) -> (vanished: bool)
    ensures
        vanished == (old_owner@.len() > 0 && new_owner@.len() == 0 && name@.len() > 0 && name@[0]
            == ':'),
{
    let chars = chars_of(name);
    !old_owner.is_empty() && new_owner.is_empty() && chars.len() > 0 && chars[0] == ':'
}

/// A text that can be put in a reply: without null characters.
pub open spec fn without_nulls(text: Seq<char>) -> Seq<char> {
    text.map_values(|c: char| if c == '\0' {
        ' '
    } else {
        c
    })
}

/// The text of an error reply.
pub fn reply_text(error: &SessionError) -> (text: String)
    ensures
        text@ == without_nulls(error.message@),
{
    let chars = chars_of(error.message.as_str());
    let mut out: Vec<char> = Vec::new();
    for i in 0..chars.len()
        invariant
            out@ == without_nulls(chars@).take(i as int),
    {
        if chars[i] == '\0' {
            out.push(' ');
        } else {
            out.push(chars[i]);
        }
        assert(out@ =~= without_nulls(chars@).take(i + 1));
    }
    assert(out@ =~= without_nulls(chars@));
    string_of(out.as_slice())
}

/// A reply never holds a null character, so it can always be sent.
pub proof fn replies_hold_no_null(text: Seq<char>)
    ensures
        forall|i: int| 0 <= i < without_nulls(text).len() ==> without_nulls(text)[i] != '\0',
{
}

/// A call is taken over word by word: what it says of itself is what the notification
/// holds, keys and labels in turn are its actions, a negative timeout is the usual one
/// of five seconds, and the notification starts unread.
pub proof fn a_call_is_taken_over_as_it_is(call: NotifyCall, pair: int)
    requires
        call.actions@.len() % 2 == 0,
    ensures
        called_notification(call).summary == call.summary@,
        called_notification(call).body == call.body@,
        called_notification(call).application_id == call.application@,
        called_notification(call).created_at == call.created_at@,
        called_notification(call).id == call.replaces_id,
        called_notification(call).schema_version == 1,
        !called_notification(call).read && !called_notification(call).archived,
        call.timeout >= 0 ==> called_notification(call).timeout_ms == Some(call.timeout as u64),
        call.timeout < 0 ==> called_notification(call).timeout_ms == Some(5000u64),
        2 * called_notification(call).actions.len() == call.actions@.len(),
        0 <= pair < called_notification(call).actions.len() ==> {
            let action = called_notification(call).actions[pair];
            &&& action.id == call.actions@[2 * pair]@
            &&& action.label == call.actions@[2 * pair + 1]@
            &&& action.state == NotificationActionState::Available
        },
{
    let names = crate::text::texts(call.actions@);
    assert(names.len() == call.actions@.len());
}

/// The urgency of a notification grows with its hint: nothing and one are normal, less
/// is low, two is critical, and no other hint is understood.
pub proof fn hints_are_urgencies(hint: u64)
    ensures
        urgency_of(None) == Some(NotificationUrgency::Normal),
        urgency_of(Some(0)) == Some(NotificationUrgency::Low),
        urgency_of(Some(1)) == Some(NotificationUrgency::Normal),
        urgency_of(Some(2)) == Some(NotificationUrgency::Critical),
        hint > 2 ==> urgency_of(Some(hint)) is None,
{
}

} // verus!

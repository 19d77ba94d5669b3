//! The private request socket of the notification service.

use vstd::prelude::*;

use crate::error::{fails_with, ErrorKind, SessionError};
use crate::ids::{parse_uuid, uuid_value};
use crate::notifications::document::{
    copy_documents, document_views, NotificationDocument, NotificationView, WIRE_SCHEMA_VERSION,
};
use crate::notifications::provider::{FreedesktopNotificationProvider, NotificationCommand};
use crate::notifications::store::{grouped_by_application, NotificationGroup};
use crate::text::{blank_text, is_blank};

verus! {

/// The longest request line.
pub const MAX_LINE: usize = 262144;

/// What a client asks for.
#[derive(Debug, Clone)]
pub enum Operation {
    Snapshot,
    MarkRead { id: u64 },
    Dismiss { id: u64 },
    Archive { id: u64 },
    SetDnd { enabled: bool },
    InvokeAction { id: u64, action_id: String },
    PurgeArchive,
}

#[derive(Debug, Clone)]
pub struct Request {
    pub schema_version: u32,
    pub request_id: String,
    pub operation: Operation,
}

/// What the service does for a request.
#[derive(Debug, Clone)]
pub enum SocketAction {
    /// Answer with the present state.
    Snapshot,
    /// Carry out a command and answer with the state after it.
    Command { command: NotificationCommand },
    /// Report an action to the program that offered it.
    Invoke { id: u64, action_id: String },
}

/// Checks that the client runs as the expected user.
pub fn authorize_peer(peer: u32, expected: u32) -> (result: Result<(), SessionError>)
    ensures
        peer == expected ==> result is Ok,
        peer != expected ==> fails_with(
            result,
            ErrorKind::PermissionDenied,
            "notification peer UID mismatch"@,
        ),
{
    if peer != expected {
        return Err(
            SessionError::new(ErrorKind::PermissionDenied, "notification peer UID mismatch"),
        );
    }
    Ok(())
}

/// Whether a request has the known version and a readable identifier.
pub open spec fn request_envelope_valid(schema_version: u32, request_id: Seq<char>) -> bool {
    schema_version == WIRE_SCHEMA_VERSION && uuid_value(request_id) is Some
}

/// Checks the version and the identifier of a request.
pub fn validate_request(request: &Request) -> (result: Result<(), SessionError>)
    ensures
        request_envelope_valid(request.schema_version, request.request_id@) ==> result is Ok,
        !request_envelope_valid(request.schema_version, request.request_id@) ==> fails_with(
            result,
            ErrorKind::InvalidData,
            "invalid notification schemaVersion or requestId"@,
        ),
{
    if request.schema_version != WIRE_SCHEMA_VERSION || parse_uuid(
        request.request_id.as_str(),
    ).is_none() {
        return Err(
            SessionError::new(
                ErrorKind::InvalidData,
                "invalid notification schemaVersion or requestId",
            ),
        );
    }
    Ok(())
}

/// The identifier that an operation refers to, if it refers to one.
pub open spec fn operation_id(operation: Operation) -> Option<u64> {
    match operation {
        Operation::MarkRead { id } => Some(id),
        Operation::Dismiss { id } => Some(id),
        Operation::Archive { id } => Some(id),
        Operation::InvokeAction { id, .. } => Some(id),
        _ => None,
    }
}

/// Whether an action is what an operation asks for.
pub open spec fn routed(operation: Operation, action: SocketAction) -> bool {
    match operation {
        Operation::Snapshot => action is Snapshot,
        Operation::MarkRead { id } => action == (SocketAction::Command {
            command: NotificationCommand::MarkRead { id },
        }),
        Operation::Dismiss { id } => action == (SocketAction::Command {
            command: NotificationCommand::Dismiss { id },
        }),
        Operation::Archive { id } => action == (SocketAction::Command {
            command: NotificationCommand::Archive { id },
        }),
        Operation::SetDnd { enabled } => action == (SocketAction::Command {
            command: NotificationCommand::SetDnd { enabled },
        }),
        Operation::PurgeArchive => action == (SocketAction::Command {
            command: NotificationCommand::PurgeArchive,
        }),
        Operation::InvokeAction { id, action_id } => action matches SocketAction::Invoke {
            id: routed_id,
            action_id: routed_action,
        } && routed_id == id && routed_action@ == action_id@,
    }
}

fn require_id(id: u64) -> (result: Result<(), SessionError>)
    ensures
        id != 0 ==> result is Ok,
        id == 0 ==> fails_with(
            result,
            ErrorKind::InvalidInput,
            "notification id must be positive"@,
        ),
{
    if id == 0 {
        Err(SessionError::new(ErrorKind::InvalidInput, "notification id must be positive"))
    } else {
        Ok(())
    }
}

/// What the service does for an operation.
pub fn route(operation: Operation) -> (action: Result<SocketAction, SessionError>)
    ensures
        operation_id(operation) == Some(0u64) ==> fails_with(
            action,
            ErrorKind::InvalidInput,
            "notification id must be positive"@,
        ),
        operation_id(operation) != Some(0u64) ==> match operation {
            Operation::InvokeAction { action_id, .. } => if is_blank(action_id@) {
                fails_with(action, ErrorKind::InvalidInput, "actionId must not be empty"@)
            } else {
                action is Ok && routed(operation, action->Ok_0)
            },
            _ => action is Ok && routed(operation, action->Ok_0),
        },
{
    match operation {
        Operation::Snapshot => Ok(SocketAction::Snapshot),
        Operation::MarkRead { id } => match require_id(id) {
            Ok(()) => Ok(SocketAction::Command { command: NotificationCommand::MarkRead { id } }),
            Err(error) => Err(error),
        },
        Operation::Dismiss { id } => match require_id(id) {
            Ok(()) => Ok(SocketAction::Command { command: NotificationCommand::Dismiss { id } }),
            Err(error) => Err(error),
        },
        Operation::Archive { id } => match require_id(id) {
            Ok(()) => Ok(SocketAction::Command { command: NotificationCommand::Archive { id } }),
            Err(error) => Err(error),
        },
        Operation::SetDnd { enabled } => Ok(
            SocketAction::Command { command: NotificationCommand::SetDnd { enabled } },
        ),
        Operation::PurgeArchive => Ok(
            SocketAction::Command { command: NotificationCommand::PurgeArchive },
        ),
        Operation::InvokeAction { id, action_id } => {
            match require_id(id) {
                Ok(()) => {},
                Err(error) => {
                    return Err(error);
                },
            }
            if blank_text(action_id.as_str()) {
                return Err(
                    SessionError::new(ErrorKind::InvalidInput, "actionId must not be empty"),
                );
            }
            Ok(SocketAction::Invoke { id, action_id })
        },
    }
}

/// The notifications of one application in an answer.
#[derive(Debug, Clone)]
pub struct Group {
    pub application_id: String,
    pub notification_ids: Vec<u64>,
}

/// The state of the service in an answer.
#[derive(Debug, Clone)]
pub struct Snapshot {
    pub active: Vec<NotificationDocument>,
    pub archive: Vec<NotificationDocument>,
    pub unread_count: usize,
    pub groups: Vec<Group>,
    pub dnd: bool,
    pub popup_ids: Vec<u64>,
}

#[derive(Debug, Clone)]
pub enum Data {
    Snapshot { snapshot: Snapshot },
    ActionInvoked { id: u64, action_id: String },
}

#[derive(Debug, Clone)]
pub struct ResponseError {
    pub code: String,
    pub message: String,
}

#[derive(Debug, Clone)]
pub struct Response {
    pub schema_version: u32,
    pub request_id: String,
    pub status: String,
    pub data: Option<Data>,
    pub error: Option<ResponseError>,
}

/// The code under which an error is reported.
pub open spec fn error_code(kind: ErrorKind) -> Seq<char> {
    match kind {
        ErrorKind::NotConnected => "expired"@,
        ErrorKind::NotFound => "notFound"@,
        ErrorKind::PermissionDenied => "permissionDenied"@,
        _ => "error"@,
    }
}

/// The answer to a request: confirmed with its data, or an error and no data.
pub fn respond(request_id: String, outcome: Result<Data, SessionError>) -> (response: Response)
    ensures
        response.schema_version == WIRE_SCHEMA_VERSION,
        response.request_id@ == request_id@,
        match outcome {
            Ok(data) => {
                &&& response.status@ == "confirmed"@
                &&& response.data == Some(data)
                &&& response.error is None
            },
            Err(error) => {
                &&& response.status@ == "error"@
                &&& response.data is None
                &&& response.error is Some
                &&& response.error->Some_0.code@ == error_code(error.kind)
                &&& response.error->Some_0.message@ == error.message@
            },
        },
{
    match outcome {
        Ok(data) => Response {
            schema_version: WIRE_SCHEMA_VERSION,
            request_id,
            status: "confirmed".to_owned(),
            data: Some(data),
            error: None,
        },
        Err(error) => {
            let code = match error.kind {
                ErrorKind::NotConnected => "expired",
                ErrorKind::NotFound => "notFound",
                ErrorKind::PermissionDenied => "permissionDenied",
                _ => "error",
            };
            Response {
                schema_version: WIRE_SCHEMA_VERSION,
                request_id,
                status: "error".to_owned(),
                data: None,
                error: Some(ResponseError { code: code.to_owned(), message: error.message }),
            }
        },
    }
}

/// The identifiers of the active notifications that are shown, in their order.
pub open spec fn shown_ids(
    active: Seq<NotificationView>,
    popups: Map<u64, Option<u64>>,
) -> Seq<u64>
    decreases active.len(),
{
    if active.len() == 0 {
        Seq::empty()
    } else {
        let earlier = shown_ids(active.drop_last(), popups);
        if popups.contains_key(active.last().id) {
            earlier.push(active.last().id)
        } else {
            earlier
        }
    }
}

/// Whether the groups of an answer are those of a store.
pub open spec fn groups_match(groups: Seq<Group>, of: Seq<NotificationGroup>) -> bool {
    &&& groups.len() == of.len()
    &&& forall|i: int|
        0 <= i < groups.len() ==> {
            &&& (#[trigger] groups[i]).application_id@ == of[i].application_id@
            &&& groups[i].notification_ids@ == of[i].notifications@.map_values(
                |document: &NotificationDocument| document.id,
            )
        }
}

fn group_answer(group: &NotificationGroup) -> (answer: Group)
    ensures
        answer.application_id@ == group.application_id@,
        answer.notification_ids@ == group.notifications@.map_values(
            |document: &NotificationDocument| document.id,
        ),
{
    let mut notification_ids: Vec<u64> = Vec::new();
    for i in 0..group.notifications.len()
        invariant
            notification_ids@ == group.notifications@.map_values(
                |document: &NotificationDocument| document.id,
            ).take(i as int),
    {
        notification_ids.push(group.notifications[i].id);
        assert(notification_ids@ =~= group.notifications@.map_values(
            |document: &NotificationDocument| document.id,
        ).take(i + 1));
    }
    assert(notification_ids@ =~= group.notifications@.map_values(
        |document: &NotificationDocument| document.id,
    ));
    Group { application_id: group.application_id.clone(), notification_ids }
}

/// The present state of the service.
pub fn snapshot(provider: &FreedesktopNotificationProvider) -> (snapshot: Snapshot)
    requires
        provider.wf(),
    ensures
        document_views(snapshot.active@) == provider.store.state().active,
        document_views(snapshot.archive@) == provider.store.state().archive,
        snapshot.unread_count == provider.store.state().active.filter(
            |document: NotificationView| !document.read,
        ).len(),
        snapshot.dnd == provider.store.state().preferences.dnd,
        snapshot.popup_ids@ == shown_ids(provider.store.state().active, provider.popups()),
        exists|groups: Seq<NotificationGroup>|
            grouped_by_application(groups, provider.store.state().active) && #[trigger] groups_match(
                snapshot.groups@,
                groups,
            ),
{
    let active = provider.store.active();
    let ghost views = provider.store.state().active;
    let mut popup_ids: Vec<u64> = Vec::new();
    for i in 0..active.len()
        invariant
            provider.wf(),
            views == document_views(active@),
            popup_ids@ == shown_ids(views.take(i as int), provider.popups()),
    {
        assert(views.take(i + 1).drop_last() =~= views.take(i as int));
        assert(views.take(i + 1).last() == active@[i as int]@);
        if provider.popup_visible(active[i].id) {
            popup_ids.push(active[i].id);
        }
    }
    assert(views.take(active@.len() as int) =~= views);
    let grouped = provider.store.grouped_active();
    let mut groups: Vec<Group> = Vec::new();
    for i in 0..grouped.len()
        invariant
            groups@.len() == i,
            forall|j: int|
                0 <= j < i ==> {
                    &&& (#[trigger] groups@[j]).application_id@ == grouped@[j].application_id@
                    &&& groups@[j].notification_ids@ == grouped@[j].notifications@.map_values(
                        |document: &NotificationDocument| document.id,
                    )
                },
    {
        groups.push(group_answer(&grouped[i]));
    }
    let answer = Snapshot {
        active: copy_documents(active),
        archive: copy_documents(provider.store.archive()),
        unread_count: provider.store.unread_count(),
        groups,
        dnd: provider.store.dnd(),
        popup_ids,
    };
    assert(grouped_by_application(grouped@, provider.store.state().active));
    assert(groups_match(answer.groups@, grouped@));
    answer
}

} // verus!

//! What the values that go in and out stand for.

use vstd::prelude::*;

use crate::command::{
    run_view, CommandOutput, CommandSpec, CommandView, OutputView, RunnerErrorKind,
};
use crate::desktop::audio::Row;
use crate::desktop::bluetooth::DeviceRow;
use crate::desktop::clipboard::ListRow;
use crate::desktop::dedupe::{record_views, DedupeDocument, DedupeRecord};
use crate::desktop::domain::{
    AudioNode, AudioSnapshot, AudioStream, BluetoothDevice, BluetoothSnapshot, ClipboardEntry,
    DesktopDomainState, DesktopPowerSnapshot, LauncherEntry, MediaPlayer, MediaSnapshot,
    NetworkAccessPoint, NetworkConnection, NetworkSnapshot, OsdEvent, RecordingState,
    RecordingStatus, TrayItem, TrayMenuNode,
};
use crate::desktop::locker::{bytes_of, found_seen, FileFacts, LockerStatus, LogindCall};
use crate::desktop::media::{track_views, MediaObservation};
use crate::desktop::network::NetworkReadback;
use crate::desktop::secret_agent::{
    key_seen, reply_seen, ArgumentTrouble, KeyView, SecretRequestKey,
};
use crate::desktop::tray::{
    item_view, menu_view, node_view, nodes_view, pair_seen, InvocationView, MenuAction, Target,
    TrayInvocation,
};
use crate::desktop::utilities::{
    entries_seen, recording_view, spec_seen, step_told, RecordingRuntime,
};
use crate::desktop::wire::{optional_text, DesktopResult, EventCause};
use crate::doctor::Check;
use crate::error::{fault_of, malformed, seen, told, ErrorKind, Fault, SessionError};
use crate::launcher::entry::{entry_seen, Assignment, DesktopAction, DesktopEntry};
use crate::launcher::exec::LaunchResources;
use crate::launcher::index::ScannedFile;
use crate::launcher::metrics::{Candidate, UsageEntry};
use crate::notifications::document::{
    action_views, document_views, NotificationAction, NotificationDocument,
};
use crate::notifications::model::OperationView;
use crate::notifications::provider::origin_views;
use crate::notifications::replay::{parsed_view, SegmentRecord};
use crate::notifications::store::{verdict_view, StoreOperation};
use crate::rows::views;
use crate::text::texts;

verus! {

/// A list stands for what each of its members stands for, in their order.
pub proof fn lists_stand_for_their_members<T: View>(list: Seq<T>, texts_of: Seq<String>, i: int)
    ensures
        views(list).len() == list.len(),
        0 <= i < list.len() ==> views(list)[i] == list[i]@,
        texts(texts_of).len() == texts_of.len(),
        0 <= i < texts_of.len() ==> texts(texts_of)[i] == texts_of[i]@,
{
}

/// An optional text stands for its text, if there is one.
pub proof fn optional_texts_stand_for_their_text(text: String)
    ensures
        optional_text(Some(text)) == Some(text@),
        optional_text(None) is None,
{
}

/// A command and its output stand for what their fields hold.
pub proof fn commands_stand_for_their_fields(
    command_spec: CommandSpec,
    command_output: CommandOutput,
)
    ensures
        command_spec@.program == command_spec.program@,
        command_spec@.args == texts(command_spec.args@),
        command_spec@.timeout == command_spec.timeout,
        command_output@.status == command_output.status,
        command_output@.stdout == command_output.stdout@,
{
}

/// An entry of the launcher stands for what its fields hold.
pub proof fn launcher_entries_stand_for_their_fields(launcher_entry: LauncherEntry)
    ensures
        launcher_entry@.id == launcher_entry.id@,
        launcher_entry@.name == launcher_entry.name@,
        launcher_entry@.icon == launcher_entry.icon@,
{
}

/// The nodes and streams of the sound stand for what their fields hold.
pub proof fn the_sound_stands_for_its_fields(
    row: Row,
    audio_node: AudioNode,
    audio_stream: AudioStream,
    audio_snapshot: AudioSnapshot,
)
    ensures
        row@.id == row.id@,
        row@.name == row.name@,
        row@.kind == row.kind,
        row@.is_default == row.is_default,
        audio_node@.id == audio_node.id@,
        audio_node@.name == audio_node.name@,
        audio_node@.kind == audio_node.kind,
        audio_node@.volume == audio_node.volume,
        audio_node@.muted == audio_node.muted,
        audio_node@.is_default == audio_node.is_default,
        audio_stream@.id == audio_stream.id@,
        audio_stream@.name == audio_stream.name@,
        audio_stream@.node_id == audio_stream.node_id@,
        audio_stream@.volume == audio_stream.volume,
        audio_stream@.muted == audio_stream.muted,
        audio_snapshot@.nodes == views(audio_snapshot.nodes@),
        audio_snapshot@.streams == views(audio_snapshot.streams@),
{
}

/// Bluetooth and its devices stand for what their fields hold.
pub proof fn bluetooth_stands_for_its_fields(
    device_row: DeviceRow,
    bluetooth_device: BluetoothDevice,
    bluetooth_snapshot: BluetoothSnapshot,
)
    ensures
        device_row@.mac == device_row.mac@,
        device_row@.name == device_row.name@,
        bluetooth_device@.id == bluetooth_device.id@,
        bluetooth_device@.name == bluetooth_device.name@,
        bluetooth_device@.paired == bluetooth_device.paired,
        bluetooth_device@.connected == bluetooth_device.connected,
        bluetooth_snapshot@.powered == bluetooth_snapshot.powered,
        bluetooth_snapshot@.scanning == bluetooth_snapshot.scanning,
        bluetooth_snapshot@.devices == views(bluetooth_snapshot.devices@),
{
}

/// The entries of the clipboard stand for what their fields hold.
pub proof fn clipboard_entries_stand_for_their_fields(
    clipboard_entry: ClipboardEntry,
    list_row: ListRow,
)
    ensures
        clipboard_entry@.id == clipboard_entry.id@,
        clipboard_entry@.mime_type == clipboard_entry.mime_type@,
        clipboard_entry@.preview == clipboard_entry.preview@,
        clipboard_entry@.byte_length == clipboard_entry.byte_length,
        list_row@.number == list_row.number@,
        list_row@.preview == list_row.preview@,
{
}

/// The records of requests stand for what their fields hold.
pub proof fn records_of_requests_stand_for_their_fields(
    dedupe_record: DedupeRecord,
    dedupe_document: DedupeDocument,
)
    ensures
        dedupe_record@.request_id == dedupe_record.request_id@,
        dedupe_record@.result == match dedupe_record.result {
            Some(result) => Some(result@),
            None => None,
        },
        dedupe_document@.schema_version == dedupe_document.schema_version,
        dedupe_document@.records == record_views(dedupe_document.records@),
{
}

/// The state of a domain stands for what it reports.
pub proof fn domains_stand_for_what_they_report(desktop_domain_state: DesktopDomainState)
    ensures
        desktop_domain_state@.domain == desktop_domain_state.of(),
        desktop_domain_state@.status == desktop_domain_state.state(),
        desktop_domain_state@.value == desktop_domain_state.data(),
        desktop_domain_state@.reason == desktop_domain_state.reason(),
{
}

/// A call of the login manager stands for what its fields hold.
pub proof fn calls_stand_for_their_fields(logind_call: LogindCall)
    ensures
        logind_call@.method == logind_call.method@,
        logind_call@.session_id == match logind_call.session_id {
            Some(id) => Some(id@),
            None => None,
        },
{
}

/// Players stand for what their fields hold.
pub proof fn players_stand_for_their_fields(
    media_player: MediaPlayer,
    media_snapshot: MediaSnapshot,
    media_observation: MediaObservation,
)
    ensures
        media_player@.id == media_player.id@,
        media_player@.identity == media_player.identity@,
        media_player@.title == media_player.title@,
        media_player@.artist == media_player.artist@,
        media_player@.playing == media_player.playing,
        media_player@.progress == media_player.progress,
        media_snapshot@.players == views(media_snapshot.players@),
        media_observation@.players == views(media_observation.snapshot.players@),
        media_observation@.tracks == track_views(media_observation.track_ids@),
{
}

/// The network, its access points and its connections stand for what their fields hold.
pub proof fn the_network_stands_for_its_fields(
    network_access_point: NetworkAccessPoint,
    network_connection: NetworkConnection,
    network_snapshot: NetworkSnapshot,
    network_readback: NetworkReadback,
)
    ensures
        network_access_point@.id == network_access_point.id@,
        network_access_point@.ssid == network_access_point.ssid@,
        network_access_point@.signal == network_access_point.signal,
        network_access_point@.secured == network_access_point.secured,
        network_connection@.id == network_connection.id@,
        network_connection@.name == network_connection.name@,
        network_connection@.kind == network_connection.kind,
        network_connection@.connected == network_connection.connected,
        network_snapshot@.wifi_enabled == network_snapshot.wifi_enabled,
        network_snapshot@.scanning == network_snapshot.scanning,
        network_snapshot@.access_points == views(network_snapshot.access_points@),
        network_snapshot@.connections == views(network_snapshot.connections@),
        network_readback@.snapshot == network_readback.snapshot@,
        network_readback@.active == views(network_readback.active_access_points@),
{
}

/// The power profiles stand for what their fields hold.
pub proof fn power_profiles_stand_for_their_fields(desktop_power_snapshot: DesktopPowerSnapshot)
    ensures
        desktop_power_snapshot@.active_profile == desktop_power_snapshot.active_profile,
        desktop_power_snapshot@.available_profiles == desktop_power_snapshot.available_profiles@,
{
}

/// The key of a request for secrets stands for what its fields hold.
pub proof fn keys_of_secrets_stand_for_their_fields(secret_request_key: SecretRequestKey)
    ensures
        secret_request_key@.connection_path == secret_request_key.connection_path@,
        secret_request_key@.setting_name == secret_request_key.setting_name@,
{
}

/// A target of the tray stands for what its fields hold.
pub proof fn targets_stand_for_their_fields(target: Target)
    ensures
        target@.service == target.service@,
        target@.path == target.path@,
        target@.actions == target.actions@,
{
}

/// A recording stands for what its fields hold.
pub proof fn recordings_stand_for_their_fields(recording_runtime: RecordingRuntime)
    ensures
        recording_runtime@.state == recording_view(recording_runtime.state),
        recording_runtime@.running == recording_runtime.running,
{
}

/// The result of a request and the cause of an event stand for what their fields hold.
pub proof fn results_stand_for_their_fields(
    desktop_result: DesktopResult,
    event_cause: EventCause,
)
    ensures
        desktop_result@.schema_version == desktop_result.schema_version,
        desktop_result@.request_id == desktop_result.request_id@,
        desktop_result@.generation == desktop_result.generation,
        desktop_result@.status == desktop_result.status,
        desktop_result@.diagnostic == optional_text(desktop_result.diagnostic),
        event_cause@.kind == event_cause.kind,
        event_cause@.request_id == optional_text(event_cause.request_id),
{
}

/// A check stands for what its fields hold.
pub proof fn checks_stand_for_their_fields(check: Check)
    ensures
        check@.capability == check.capability@,
        check@.status == check.status,
        check@.required == check.required,
{
}

/// Desktop Entries stand for what their fields hold.
pub proof fn desktop_entries_stand_for_their_fields(
    desktop_action: DesktopAction,
    desktop_entry: DesktopEntry,
    assignment: Assignment,
)
    ensures
        desktop_action@.id == desktop_action.id@,
        desktop_action@.name == desktop_action.name@,
        desktop_action@.exec_line == desktop_action.exec_line@,
        desktop_entry@.desktop_id == desktop_entry.desktop_id@,
        desktop_entry@.name == desktop_entry.name@,
        desktop_entry@.icon == optional_text(desktop_entry.icon),
        desktop_entry@.actions == views(desktop_entry.actions@),
        desktop_entry@.path == desktop_entry.path@,
        desktop_entry@.exec_line == desktop_entry.exec_line@,
        assignment@.group == assignment.group@,
        assignment@.key == assignment.key@,
        assignment@.value == assignment.value@,
{
}

/// Resources stand for what their fields hold.
pub proof fn resources_stand_for_their_fields(launch_resources: LaunchResources)
    ensures
        launch_resources@.files == texts(launch_resources.files@),
        launch_resources@.urls == texts(launch_resources.urls@),
{
}

/// A scanned file stands for what its fields hold.
pub proof fn scanned_files_stand_for_their_fields(scanned_file: ScannedFile)
    ensures
        scanned_file@.path == scanned_file.path@,
        scanned_file@.relative == scanned_file.relative@,
        scanned_file@.contents == optional_text(scanned_file.contents),
{
}

/// Usages and candidates stand for what their fields hold.
pub proof fn usages_stand_for_their_fields(usage_entry: UsageEntry, candidate: Candidate)
    ensures
        usage_entry@.desktop_id == usage_entry.desktop_id@,
        usage_entry@.usage == usage_entry.usage,
        candidate@.name == candidate.name@,
        candidate@.lower == candidate.lower@,
{
}

/// Notifications and their actions stand for what their fields hold.
pub proof fn notifications_stand_for_their_fields(
    notification_action: NotificationAction,
    notification_document: NotificationDocument,
)
    ensures
        notification_action@.id == notification_action.id@,
        notification_action@.label == notification_action.label@,
        notification_action@.state == notification_action.state,
        notification_document@.schema_version == notification_document.schema_version,
        notification_document@.id == notification_document.id,
        notification_document@.application_id == notification_document.application_id@,
        notification_document@.summary == notification_document.summary@,
        notification_document@.body == notification_document.body@,
        notification_document@.urgency == notification_document.urgency,
        notification_document@.created_at == notification_document.created_at@,
        notification_document@.timeout_ms == notification_document.timeout_ms,
        notification_document@.read == notification_document.read,
        notification_document@.archived == notification_document.archived,
        notification_document@.actions == action_views(notification_document.actions@),
{
}

/// An event of the on-screen display stands for what its fields hold.
pub proof fn events_stand_for_their_fields(osd_event: OsdEvent)
    ensures
        osd_event@.schema_version == osd_event.schema_version,
        osd_event@.output_id == osd_event.output_id@,
        osd_event@.kind == osd_event.kind,
        osd_event@.level == osd_event.level,
        osd_event@.muted == osd_event.muted,
        osd_event@.label == osd_event.label@,
{
}

/// Lists of notifications, actions and records stand for their members, in their order.
pub proof fn lists_of_documents_stand_for_their_members(
    documents: Seq<NotificationDocument>,
    actions: Seq<NotificationAction>,
    records: Seq<DedupeRecord>,
    tracks: Seq<Option<String>>,
    i: int,
)
    ensures
        document_views(documents).len() == documents.len(),
        0 <= i < documents.len() ==> document_views(documents)[i] == documents[i]@,
        action_views(actions).len() == actions.len(),
        0 <= i < actions.len() ==> action_views(actions)[i] == actions[i]@,
        record_views(records).len() == records.len(),
        0 <= i < records.len() ==> record_views(records)[i] == records[i]@,
        track_views(tracks).len() == tracks.len(),
        0 <= i < tracks.len() ==> track_views(tracks)[i] == optional_text(tracks[i]),
{
}

/// A durable operation stands for itself.
pub proof fn operations_stand_for_themselves(operation: StoreOperation)
    ensures
        operation matches StoreOperation::SetDnd { enabled } ==> operation@
            == (OperationView::SetDnd { enabled }),
        operation matches StoreOperation::Push { notification, archived } ==> operation@
            == (OperationView::Push {
            notification: notification@,
            archived: document_views(archived@),
        }),
        operation matches StoreOperation::Dismiss { notification } ==> operation@
            == (OperationView::Dismiss { notification: notification@ }),
        operation matches StoreOperation::MarkRead { id } ==> operation@
            == (OperationView::MarkRead { id }),
        operation matches StoreOperation::ExpireActions { ids } ==> operation@
            == (OperationView::ExpireActions { ids: ids@ }),
        operation is PurgeArchive ==> operation@ == OperationView::PurgeArchive,
{
}

/// What is sent to an item of the tray stands for itself.
pub proof fn invocations_stand_for_themselves(action: MenuAction, invocation: TrayInvocation)
    ensures
        action is Activate <==> action@ is Activate,
        action matches MenuAction::Menu { path, node_id } ==> action@ == (
        crate::desktop::tray::ActionView::Menu { path: path@, node_id }),
        invocation matches TrayInvocation::Activate { service, path } ==> invocation@
            == (InvocationView::Activate { service: service@, path: path@ }),
        invocation matches TrayInvocation::Menu { service, path, node_id } ==> invocation@
            == (InvocationView::Menu { service: service@, path: path@, node_id }),
{
}

/// A result is seen as what it is: its value, or the class and the text of its error.
pub proof fn results_are_seen_as_they_are<T: View>(
    result: Result<T, SessionError>,
    done: Result<(), SessionError>,
    error: SessionError,
    text: Seq<char>,
)
    ensures
        result is Ok ==> seen(result) == Ok::<T::V, Fault>(result->Ok_0@),
        result is Err ==> seen(result) == Err::<T::V, Fault>(
            (result->Err_0.kind, result->Err_0.message@),
        ),
        done is Ok <==> told(done) is Ok,
        done is Err ==> told(done) == Err::<(), Fault>((done->Err_0.kind, done->Err_0.message@)),
        fault_of(error) == (error.kind, error.message@),
        malformed::<T>(text) == Err::<T, Fault>((ErrorKind::InvalidData, text)),
        crate::error::refused::<T>(text) == Err::<T, Fault>((ErrorKind::InvalidInput, text)),
{
}

/// What was found is seen as it is.
pub proof fn what_was_found_is_seen_as_it_is(
    status: LockerStatus,
    recording: RecordingStatus,
    facts: FileFacts,
    spec: CommandSpec,
    bytes: Vec<u8>,
    output: CommandOutput,
    kind: RunnerErrorKind,
    pair: (String, String),
    entry: DesktopEntry,
    key: SecretRequestKey,
)
    ensures
        crate::desktop::locker::status_seen(Ok(status)) == Ok::<LockerStatus, Fault>(status),
        crate::desktop::utilities::status_seen(Ok(recording)) == Ok::<RecordingStatus, Fault>(
            recording,
        ),
        found_seen(Ok(facts)) == Ok::<FileFacts, Fault>(facts),
        spec_seen(Ok(Some(spec))) == Ok::<Option<CommandView>, Fault>(Some(spec@)),
        spec_seen(Ok(None)) == Ok::<Option<CommandView>, Fault>(None),
        bytes_of(Some(bytes)) == Some(bytes@),
        bytes_of(None) is None,
        run_view(Ok(output)) == Ok::<OutputView, RunnerErrorKind>(output@),
        run_view(Err(kind)) == Err::<OutputView, RunnerErrorKind>(kind),
        pair_seen(Ok(pair)) == Ok::<(Seq<char>, Seq<char>), Fault>((pair.0@, pair.1@)),
        entry_seen(Some(entry)) == Some(entry@),
        entry_seen(None) is None,
        key_seen(Ok(key)) == Ok::<KeyView, ArgumentTrouble>(key@),
        reply_seen(Ok(())) is Ok,
{
}

/// A faulty result is seen with the class and the text of its error.
pub proof fn errors_are_seen_as_they_are(error: SessionError)
    ensures
        crate::desktop::locker::status_seen(Err(error)) == Err::<LockerStatus, Fault>(
            (error.kind, error.message@),
        ),
        crate::desktop::utilities::status_seen(Err(error)) == Err::<RecordingStatus, Fault>(
            (error.kind, error.message@),
        ),
        found_seen(Err(error)) == Err::<FileFacts, Fault>((error.kind, error.message@)),
        spec_seen(Err(error)) == Err::<Option<CommandView>, Fault>((error.kind, error.message@)),
        pair_seen(Err(error)) == Err::<(Seq<char>, Seq<char>), Fault>(
            (error.kind, error.message@),
        ),
        entries_seen(Err(error)) == Err::<Seq<crate::desktop::clipboard::EntryView>, Fault>(
            (error.kind, error.message@),
        ),
        step_told(Some(Err(error))) == Some(Err::<(), Fault>((error.kind, error.message@))),
        step_told(None) is None,
{
}

/// The recording stands for its status and its identifiers.
pub proof fn the_state_of_a_recording_stands_for_its_fields(state: RecordingState)
    ensures
        recording_view(state).status == state.status,
        recording_view(state).recording_id == optional_text(state.recording_id),
        recording_view(state).output_id == optional_text(state.output_id),
{
}

/// The origins of notifications stand for their names.
pub proof fn origins_stand_for_their_names(origins: Map<u64, String>, id: u64)
    ensures
        origin_views(origins).contains_key(id) <==> origins.contains_key(id),
        origins.contains_key(id) ==> origin_views(origins)[id] == origins[id]@,
{
}

/// A tray item stands for its identifier, its title and its menu, node by node.
pub proof fn tray_items_stand_for_their_fields(item: TrayItem, node: TrayMenuNode)
    ensures
        item_view(item).id == item.id@,
        item_view(item).title == item.title@,
        item_view(item).menu == node_view(item.menu),
        node_view(node).id == node.id@,
        node_view(node).label == node.label@,
        node_view(node).enabled == node.enabled,
        node_view(node).children == menu_view(node.children@),
{
}

/// The nodes of a menu stand for themselves, in their order.
pub proof fn menus_stand_for_their_nodes(nodes: Seq<TrayMenuNode>, count: nat, i: int)
    requires
        count <= nodes.len(),
    ensures
        nodes_view(nodes, count).len() == count,
        0 <= i < count ==> nodes_view(nodes, count)[i] == node_view(nodes[i]),
    decreases count,
{
    if count > 0 {
        menus_stand_for_their_nodes(nodes, (count - 1) as nat, i);
    }
}

/// A record of the log that was read stands for itself.
pub proof fn parsed_records_stand_for_themselves(record: SegmentRecord, reason: String)
    ensures
        parsed_view(Err(reason)) == Err::<crate::notifications::replay::RecordView, Seq<char>>(
            reason@,
        ),
        parsed_view(Ok(record)) matches Ok(view) && view.schema_version == record.schema_version
            && view.sequence == record.sequence && view.operation == record.operation@,
{
}

/// The verdict on a document is what the validator objected to.
pub proof fn verdicts_stand_for_themselves(message: String)
    ensures
        verdict_view(Some(message)) == Some(message@),
        verdict_view(None) is None,
{
}

} // verus!

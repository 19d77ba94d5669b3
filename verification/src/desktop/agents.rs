//! What the adapters ask and how they read the answers, what is remembered of requests,
//! and how secrets are handed over.

use vstd::prelude::*;
use vstd::utf8::{decode_utf8, valid_utf8};

use crate::command::CommandView;
use crate::desktop::adapters::{
    compositor_status, launcher_entries, launcher_entry, padded, padded_signed, text_member,
    utc_text, CompositorErrorKind, LauncherView, UtcTime,
};
use crate::desktop::audio::volume_query;
use crate::desktop::bluetooth::{devices_line, owner_line, service_runs, show_line};
use crate::desktop::budget::Json;
use crate::desktop::dedupe::{
    begin_outcome, complete_outcome, completed_is, document_fault, file_place, identifier_fault,
    place_is, record_fault, recorded, told_of, took_effect, with_room, DedupeDocument,
    DedupeDocumentView, LoadedDocument, StoredDocument, WriteReport,
};
use crate::desktop::domain::{
    is_empty_calendar, is_empty_value, is_empty_weather, offered_actions, CacheStatus,
    CalendarSnapshot, CapabilityAvailability, DesktopDomainValue, PowerProfile, ProviderStatus,
    RecordingStatus, WeatherSnapshot,
};
use crate::desktop::media::{metadata_format, metadata_line, track_of};
use crate::desktop::network::{access_points_line, connections_line, radio_line};
use crate::desktop::power::{available_line, current_line};
use crate::desktop::secret_agent::{
    answered, cancellation_of, conversation_result, exchange_after_method, found_open, frame_size,
    is_live, lease_of, may_submit, method_reply, secrets_wanted, socket_path, trusted_owner,
    with_begun, with_completed, BusArgument, ChallengeView, ConversationEnd, ExchangeView,
    HeldView, KeyView, SlotView, WaitView,
};
use crate::desktop::wire::{failure, DesktopResultStatus, ResultView};
use crate::error::{ErrorKind, Fault, SessionError};
use crate::ids::is_canonical_uuid;
use crate::paths::{components, from_root, is_absolute};
use crate::text::{
    all_digits, byte_len, decimal, decimal_spells_the_number, digits_value, is_blank, is_digit,
    trim,
};

verus! {

// ---------------------------------------------------------------------------
// What is asked
// ---------------------------------------------------------------------------

/// The state of the system is asked for in these words.
pub proof fn the_system_is_read_in_these_words(name: Seq<char>)
    ensures
        radio_line() == (CommandView {
            program: "nmcli"@,
            args: seq!["--terse"@, "--fields"@, "WIFI"@, "general"@],
            timeout: None,
        }),
        access_points_line() == (CommandView {
            program: "nmcli"@,
            args: seq![
                "--terse"@,
                "--escape"@,
                "yes"@,
                "--fields"@,
                "IN-USE,BSSID,SSID,SIGNAL,SECURITY"@,
                "device"@,
                "wifi"@,
                "list"@,
                "--rescan"@,
                "no"@,
            ],
            timeout: None,
        }),
        connections_line() == (CommandView {
            program: "nmcli"@,
            args: seq![
                "--terse"@,
                "--escape"@,
                "yes"@,
                "--fields"@,
                "UUID,NAME,TYPE,DEVICE"@,
                "connection"@,
                "show"@,
                "--active"@,
            ],
            timeout: None,
        }),
        show_line() == (CommandView {
            program: "bluetoothctl"@,
            args: seq!["show"@],
            timeout: None,
        }),
        devices_line() == (CommandView {
            program: "bluetoothctl"@,
            args: seq!["devices"@],
            timeout: None,
        }),
        owner_line() == (CommandView {
            program: "busctl"@,
            args: seq![
                "--system"@,
                "--timeout=1"@,
                "call"@,
                "org.freedesktop.DBus"@,
                "/org/freedesktop/DBus"@,
                "org.freedesktop.DBus"@,
                "NameHasOwner"@,
                "s"@,
                "org.bluez"@,
            ],
            timeout: None,
        }),
        crate::desktop::audio::status_line() == (CommandView {
            program: "wpctl"@,
            args: seq!["status"@, "--name"@],
            timeout: None,
        }),
        volume_query(name) == (CommandView {
            program: "wpctl"@,
            args: seq!["get-volume"@, name],
            timeout: None,
        }),
        crate::desktop::media::list_line() == (CommandView {
            program: "playerctl"@,
            args: seq!["--list-all"@],
            timeout: None,
        }),
        metadata_line(name) == (CommandView {
            program: "playerctl"@,
            args: seq!["--player"@, name, "metadata"@, "--format"@, metadata_format()],
            timeout: None,
        }),
        current_line() == (CommandView {
            program: "powerprofilesctl"@,
            args: seq!["get"@],
            timeout: None,
        }),
        available_line() == (CommandView {
            program: "powerprofilesctl"@,
            args: seq!["list"@],
            timeout: None,
        }),
{
}

/// Whether the Bluetooth service runs is what the bus says.
pub proof fn whether_the_service_runs(owner: Seq<u8>)
    requires
        valid_utf8(owner),
    ensures
        service_runs(owner) is Ok <==> trim(decode_utf8(owner)) == "b true"@,
        trim(decode_utf8(owner)) == "b false"@ ==> service_runs(owner) == Err::<(), Fault>(
            (ErrorKind::NotConnected, "Bluetooth service is unavailable"@),
        ),
{
    reveal_strlit("b true");
    reveal_strlit("b false");
    assert("b true"@.len() == 6 && "b false"@.len() == 7);
}

/// The track of a player is its last field, where it has one.
pub proof fn which_track_is_played(fields: Seq<Seq<char>>)
    requires
        fields.len() >= 7,
    ensures
        fields[6].len() == 0 ==> track_of(fields) == Ok::<Option<Seq<char>>, Fault>(None),
        fields[6].len() > 0 && fields[6][0] == '/' && byte_len(fields[6]) <= 4_096 ==> track_of(
            fields,
        ) == Ok::<Option<Seq<char>>, Fault>(Some(fields[6])),
        fields[6].len() > 0 && fields[6][0] != '/' ==> track_of(fields) is Err,
{
}

/// What of the compositor is offered.
pub proof fn what_the_compositor_offers()
    ensures
        offered_actions().focus_window,
        offered_actions().move_window_to_workspace,
        offered_actions().close_window,
        offered_actions().focus_workspace,
        offered_actions().move_workspace_to_monitor,
        !offered_actions().toggle_fullscreen,
        offered_actions().toggle_floating,
        offered_actions().toggle_pinned,
        !offered_actions().toggle_group,
        offered_actions().exit,
{
}

/// What an empty value is: switched off, and without content.
pub proof fn what_an_empty_value_is(value: DesktopDomainValue, theme: Seq<char>)
    requires
        is_empty_value(value, theme),
    ensures
        value matches DesktopDomainValue::Network(network) ==> !network.wifi_enabled
            && network.access_points@.len() == 0 && network.connections@.len() == 0,
        value matches DesktopDomainValue::Bluetooth(bluetooth) ==> !bluetooth.powered
            && bluetooth.devices@.len() == 0,
        value matches DesktopDomainValue::Audio(audio) ==> audio.nodes@.len() == 0
            && audio.streams@.len() == 0,
        value matches DesktopDomainValue::Media(media) ==> media.players@.len() == 0,
        value matches DesktopDomainValue::Battery(battery) ==> battery.percentage == 0
            && !battery.charging && battery.seconds_remaining is None,
        value matches DesktopDomainValue::NightLight(light) ==> !light.enabled,
        value matches DesktopDomainValue::Lock(lock) ==> !lock.secure,
        value matches DesktopDomainValue::Power(power) ==> power.active_profile
            == PowerProfile::Balanced && power.available_profiles@.len() == 1,
        value matches DesktopDomainValue::Osd(osd) ==> !osd.showing && osd.history@.len() == 0,
        value matches DesktopDomainValue::Notifications(notifications) ==> !notifications.dnd
            && notifications.active@.len() == 0,
        value matches DesktopDomainValue::Recording(recording) ==> recording.status
            == RecordingStatus::Inactive && recording.recording_id is None,
        value matches DesktopDomainValue::IdleInhibit(inhibited) ==> !inhibited,
        value matches DesktopDomainValue::GameMode(enabled) ==> !enabled,
        value matches DesktopDomainValue::Appearance(appearance) ==> appearance.theme@ == theme
            && appearance.wallpaper_id@ == "builtin.sleepy-default"@,
{
}

/// How the failures of the compositor are shown.
pub proof fn how_compositor_failures_are_shown(kind: CompositorErrorKind)
    ensures
        compositor_status(kind) == CapabilityAvailability::Unavailable <==> kind
            == CompositorErrorKind::Unavailable,
        compositor_status(kind) == CapabilityAvailability::PermissionDenied <==> kind
            == CompositorErrorKind::UnsafeInstance,
        compositor_status(kind) == CapabilityAvailability::Timeout <==> kind
            == CompositorErrorKind::Timeout,
        compositor_status(kind) == CapabilityAvailability::Unsupported <==> kind
            == CompositorErrorKind::Unsupported,
        compositor_status(kind) == CapabilityAvailability::Parse <==> kind
            == CompositorErrorKind::Parse || kind == CompositorErrorKind::Inconsistent || kind
            == CompositorErrorKind::Bounds,
        compositor_status(kind) == CapabilityAvailability::Error <==> kind
            == CompositorErrorKind::Other,
{
}

/// How the errors of the daily services and of the host are shown.
pub proof fn how_other_errors_are_shown(kind: ErrorKind)
    ensures
        crate::desktop::adapters::availability_of(kind) == CapabilityAvailability::Unavailable
            <==> kind == ErrorKind::NotFound || kind == ErrorKind::NotConnected,
        crate::desktop::adapters::availability_of(kind) == CapabilityAvailability::Parse <==> kind
            == ErrorKind::InvalidData,
        crate::desktop::adapters::availability_of(kind) == CapabilityAvailability::Timeout
            <==> kind == ErrorKind::TimedOut,
        crate::desktop::adapters::availability_of(kind)
            == CapabilityAvailability::PermissionDenied <==> kind == ErrorKind::PermissionDenied,
        crate::desktop::adapters::availability_of(kind) == CapabilityAvailability::Unsupported
            <==> kind == ErrorKind::Unsupported,
        crate::desktop::resources::availability_of(kind) == CapabilityAvailability::Unavailable
            <==> kind == ErrorKind::NotFound || kind == ErrorKind::PermissionDenied,
        crate::desktop::resources::availability_of(kind) == CapabilityAvailability::Parse <==> kind
            == ErrorKind::InvalidData,
        crate::desktop::resources::availability_of(kind) == CapabilityAvailability::Timeout
            <==> kind == ErrorKind::TimedOut,
{
}

/// An entry of the launcher is read by its keys: the identifier, the name, and the icon or
/// the usual one.
pub proof fn how_launcher_entries_are_read(value: Json)
    ensures
        launcher_entry(value) is Some <==> text_member(value, "desktop_id"@, "desktopId"@) is Some
            && text_member(value, "name"@, "name"@) is Some,
        launcher_entry(value) matches Some(entry) ==> {
            &&& Some(entry.id) == text_member(value, "desktop_id"@, "desktopId"@)
            &&& Some(entry.name) == text_member(value, "name"@, "name"@)
            &&& text_member(value, "icon"@, "icon"@) is Some ==> Some(entry.icon) == text_member(
                value,
                "icon"@,
                "icon"@,
            )
            &&& text_member(value, "icon"@, "icon"@) is None ==> entry.icon
                == "application-x-executable"@
        },
{
}

/// A member is found under the first of its names that is there; one that is blank, or no
/// text, is none.
pub proof fn how_members_are_found(value: Json, first: Seq<char>, second: Seq<char>, text: String)
    ensures
        crate::desktop::adapters::member(value, first) == Some(Json::Text(text)) && !is_blank(text@)
            ==> text_member(value, first, second) == Some(text@),
        crate::desktop::adapters::member(value, first) is None
            && crate::desktop::adapters::member(value, second) == Some(Json::Text(text))
            && !is_blank(text@) ==> text_member(value, first, second) == Some(text@),
        crate::desktop::adapters::member(value, first) == Some(Json::Text(text)) && is_blank(text@)
            ==> text_member(value, first, second) is None,
        crate::desktop::adapters::member(value, first) is None
            && crate::desktop::adapters::member(value, second) is None ==> text_member(
            value,
            first,
            second,
        ) is None,
{
}

/// The entries of the launcher are read one by one, in their order.
pub proof fn launcher_entries_keep_their_order(values: Seq<Json>, i: int)
    requires
        launcher_entries(values) is Some,
        0 <= i < values.len(),
    ensures
        launcher_entries(values)->Some_0.len() == values.len(),
        launcher_entry(values[i]) == Some(launcher_entries(values)->Some_0[i]),
    decreases values.len(),
{
    let shorter = values.drop_last();
    if shorter.len() > 0 {
        launcher_entries_keep_their_order(
            shorter,
            if i < shorter.len() {
                i
            } else {
                0
            },
        );
    } else {
        assert(launcher_entries(shorter) == Some(Seq::<LauncherView>::empty()));
    }
}

// ---------------------------------------------------------------------------
// Times
// ---------------------------------------------------------------------------

proof fn leading_zeros_count_for_nothing(zeros: nat, digits: Seq<char>)
    requires
        all_digits(digits),
    ensures
        all_digits(Seq::new(zeros, |i: int| '0') + digits),
        digits_value(Seq::new(zeros, |i: int| '0') + digits) == digits_value(digits),
    decreases digits.len(), zeros,
{
    let s = Seq::new(zeros, |i: int| '0') + digits;
    if digits.len() > 0 {
        let shorter = digits.drop_last();
        assert forall|i: int| 0 <= i < shorter.len() implies is_digit(#[trigger] shorter[i]) by {
            assert(shorter[i] == digits[i]);
        }
        leading_zeros_count_for_nothing(zeros, shorter);
        assert(s.drop_last() =~= Seq::new(zeros, |i: int| '0') + shorter);
        assert(s.last() == digits.last());
        assert(is_digit(digits[digits.len() - 1]));
        assert forall|i: int| 0 <= i < s.len() implies is_digit(#[trigger] s[i]) by {
            if i >= zeros {
                assert(s[i] == digits[i - zeros]);
            }
        }
    } else if zeros > 0 {
        leading_zeros_count_for_nothing((zeros - 1) as nat, digits);
        assert(s.drop_last() =~= Seq::new((zeros - 1) as nat, |i: int| '0') + digits);
        assert(s.last() == '0');
        assert(digits_value(digits) == 0);
    } else {
        assert(s =~= digits);
    }
}

/// A number is filled up with zeros to its width and stays the number it was.
pub proof fn numbers_are_filled_up(n: nat, width: nat)
    ensures
        padded(n, width).len() >= width,
        all_digits(padded(n, width)),
        digits_value(padded(n, width)) == n,
        n < 100 ==> padded(n, 2).len() == 2,
        n < 10_000 ==> padded(n, 4).len() == 4,
{
    decimal_spells_the_number(n);
    let digits = decimal(n);
    if digits.len() < width {
        leading_zeros_count_for_nothing((width - digits.len()) as nat, digits);
    }
    reveal_with_fuel(decimal, 5);
}

/// A time is written field by field, each in its place.
pub proof fn times_are_written_field_by_field(time: UtcTime)
    requires
        0 <= time.year < 10_000,
        time.month < 100,
        time.day < 100,
        time.hour < 100,
        time.minute < 100,
        time.second < 100,
    ensures
        utc_text(time).len() == 20,
        digits_value(utc_text(time).subrange(0, 4)) == time.year,
        utc_text(time)[4] == '-',
        digits_value(utc_text(time).subrange(5, 7)) == time.month,
        utc_text(time)[7] == '-',
        digits_value(utc_text(time).subrange(8, 10)) == time.day,
        utc_text(time)[10] == 'T',
        digits_value(utc_text(time).subrange(11, 13)) == time.hour,
        utc_text(time)[13] == ':',
        digits_value(utc_text(time).subrange(14, 16)) == time.minute,
        utc_text(time)[16] == ':',
        digits_value(utc_text(time).subrange(17, 19)) == time.second,
        utc_text(time)[19] == 'Z',
{
    reveal_strlit("-");
    reveal_strlit("T");
    reveal_strlit(":");
    reveal_strlit("Z");
    numbers_are_filled_up(time.year as nat, 4);
    numbers_are_filled_up(time.month as nat, 2);
    numbers_are_filled_up(time.day as nat, 2);
    numbers_are_filled_up(time.hour as nat, 2);
    numbers_are_filled_up(time.minute as nat, 2);
    numbers_are_filled_up(time.second as nat, 2);
    let text = utc_text(time);
    assert(text.subrange(0, 4) =~= padded(time.year as nat, 4));
    assert(text.subrange(5, 7) =~= padded(time.month as nat, 2));
    assert(text.subrange(8, 10) =~= padded(time.day as nat, 2));
    assert(text.subrange(11, 13) =~= padded(time.hour as nat, 2));
    assert(text.subrange(14, 16) =~= padded(time.minute as nat, 2));
    assert(text.subrange(17, 19) =~= padded(time.second as nat, 2));
}

// ---------------------------------------------------------------------------
// What is remembered of requests
// ---------------------------------------------------------------------------

/// The identifier of a request is accepted when it is written as identifiers are.
pub proof fn which_identifiers_are_accepted(request_id: Seq<char>)
    ensures
        identifier_fault(request_id) is None <==> is_canonical_uuid(request_id),
{
}

/// A request that is not known yet is remembered as pending, behind all others.
pub proof fn how_a_request_is_begun(
    records: Seq<crate::desktop::dedupe::RecordView>,
    capacity: nat,
    request_id: Seq<char>,
)
    requires
        records.len() < capacity,
        is_canonical_uuid(request_id),
    ensures
        recorded(records, request_id) is None ==> {
            let end = begin_outcome(records, capacity, request_id);
            &&& end is Ok
            &&& end->Ok_0.len() == records.len() + 1
            &&& end->Ok_0.drop_last() == records
            &&& end->Ok_0.last().request_id == request_id
            &&& end->Ok_0.last().result is None
        },
        recorded(records, request_id) is Some ==> begin_outcome(records, capacity, request_id)
            == Err::<Seq<crate::desktop::dedupe::RecordView>, Fault>(
            (ErrorKind::AlreadyExists, "desktop request is already recorded"@),
        ),
{
    if recorded(records, request_id) is None {
        let after = begin_outcome(records, capacity, request_id)->Ok_0;
        assert(after.drop_last() =~= records);
    }
}

/// When there is no room, the oldest request that was completed makes some.
pub proof fn what_makes_room(
    records: Seq<crate::desktop::dedupe::RecordView>,
    maximum: nat,
    at: int,
)
    requires
        records.len() == maximum,
        0 <= at < records.len(),
        records[at].result is Some,
        forall|i: int| 0 <= i < at ==> (#[trigger] records[i]).result is None,
    ensures
        with_room(records, maximum) == Some(records.remove(at)),
{
    completed_is(records, at);
    reveal_with_fuel(with_room, 2);
}

/// A result is remembered only under its own request, and only if it is accepted.
pub proof fn how_a_request_is_completed(
    records: Seq<crate::desktop::dedupe::RecordView>,
    capacity: nat,
    request_id: Seq<char>,
    result: ResultView,
    rejection: Option<Seq<char>>,
    at: int,
)
    requires
        is_canonical_uuid(request_id),
        0 <= at < records.len(),
        records[at].request_id == request_id,
        forall|i: int| 0 <= i < at ==> (#[trigger] records[i]).request_id != request_id,
    ensures
        rejection is Some ==> complete_outcome(records, capacity, request_id, result, rejection)
            is Err,
        result.request_id != request_id ==> complete_outcome(
            records,
            capacity,
            request_id,
            result,
            rejection,
        ) is Err,
        rejection is None && result.request_id == request_id ==> {
            let end = complete_outcome(records, capacity, request_id, result, rejection);
            &&& end is Ok
            &&& end->Ok_0.len() == records.len()
            &&& end->Ok_0[at].request_id == request_id
            &&& end->Ok_0[at].result == Some(result)
            &&& forall|i: int|
                0 <= i < records.len() && i != at ==> #[trigger] end->Ok_0[i] == records[i]
        },
{
    place_is(records, request_id, at);
}

/// What is told of a write is what it came to: done when it took effect, and the reason
/// when it did not.
pub proof fn what_is_told_of_a_write(
    report: WriteReport,
    staged: DedupeDocumentView,
    done: Result<(), SessionError>,
)
    requires
        told_of(report, staged, done),
    ensures
        report is Replaced ==> done is Ok,
        report matches WriteReport::Failed { error, on_disk, sync_error } ==> (done is Ok <==> {
            &&& on_disk is Some
            &&& on_disk->Some_0@ == staged
            &&& sync_error is None
        }),
        report matches WriteReport::Failed { error, on_disk, sync_error } ==> (on_disk is None
            ==> done is Err && done->Err_0.message@ == error@),
{
}

/// Which documents are accepted when they are read back.
pub proof fn which_documents_are_accepted(size: usize, loaded: LoadedDocument, maximum: nat)
    ensures
        document_fault(StoredDocument::Missing, maximum) is None,
        document_fault(StoredDocument::Read { size, loaded }, maximum) is None ==> {
            &&& size <= 4_194_304
            &&& loaded.document@.schema_version == 1
            &&& loaded.document@.records.len() <= maximum
            &&& forall|i: int, j: int|
                #![trigger loaded.document@.records[i], loaded.document@.records[j]]
                0 <= i < j < loaded.document@.records.len() ==> loaded.document@.records[i].request_id
                    != loaded.document@.records[j].request_id
        },
        size > 4_194_304 ==> document_fault(StoredDocument::Read { size, loaded }, maximum) is Some,
{
}

/// Where the document is: in the directory above its name.
pub proof fn where_the_document_is(path: Seq<u8>)
    ensures
        !is_absolute(path) ==> file_place(path) is Err,
        file_place(path) matches Ok(place) ==> {
            &&& components(path).len() > 0
            &&& place.1 == components(path).last()
            &&& place.0 == from_root(components(path).drop_last())
            &&& place.1 != seq![0x2eu8, 0x2eu8]
        },
{
}

/// A failure is told under its own request, and never as a success.
pub proof fn how_failures_are_told(
    version: u32,
    request_id: Seq<char>,
    generation: u64,
    diagnostic: Seq<char>,
)
    ensures
        ({
            let told = failure(version, request_id, generation, diagnostic);
            &&& told.schema_version == version
            &&& told.request_id == request_id
            &&& told.generation == generation
            &&& told.status == DesktopResultStatus::Failed
            &&& told.diagnostic == Some(diagnostic)
        }),
{
}

// ---------------------------------------------------------------------------
// Secrets
// ---------------------------------------------------------------------------

/// Which frames are accepted.
pub proof fn which_frames_are_accepted(length: int)
    ensures
        frame_size(length) is Ok <==> length != 0 && length <= 65_536,
{
}

/// The owner of a name is trusted when it is unique and privileged.
pub proof fn which_owners_are_trusted(owner: Seq<char>, uid: u32)
    requires
        owner.len() > 0,
        owner[0] == ':',
    ensures
        trusted_owner(owner, Some(uid)) is Ok <==> uid == 0,
        trusted_owner(owner, None) is Ok,
        trusted_owner(Seq::empty(), Some(0)) is Err,
        trusted_owner(owner.skip(1), Some(0)) is Ok ==> owner.len() > 1 && owner[1] == ':',
{
}

/// A request for secrets is read by its arguments: the connection from the second, the
/// setting from the third, and only one setting is served.
pub proof fn how_requests_for_secrets_are_read(arguments: Seq<BusArgument>)
    ensures
        secrets_wanted(arguments) matches Ok(key) ==> {
            &&& arguments.len() == 5
            &&& arguments[0].signature@ == "a{sa{sv}}"@
            &&& arguments[1].signature@ == "o"@
            &&& arguments[2].signature@ == "s"@
            &&& arguments[3].signature@ == "as"@
            &&& arguments[4].signature@ == "u"@
            &&& key.connection_path == arguments[1].text@
            &&& key.setting_name == arguments[2].text@
            &&& key.setting_name == "802-11-wireless-security"@
        },
        arguments.len() == 5 && arguments[0].signature@ == "a{sa{sv}}"@
            && arguments[1].signature@ == "o"@ && arguments[2].signature@ == "s"@
            && arguments[3].signature@ == "as"@ && arguments[4].signature@ == "u"@
            && arguments[2].text@ == "802-11-wireless-security"@ ==> secrets_wanted(arguments)
            is Ok,
{
}

/// A cancellation is read by its arguments: the connection from the first, the setting
/// from the second.
pub proof fn how_cancellations_are_read(arguments: Seq<BusArgument>)
    ensures
        cancellation_of(arguments) is Ok <==> arguments.len() == 2 && arguments[0].signature@
            == "o"@ && arguments[1].signature@ == "s"@,
        cancellation_of(arguments) matches Ok(key) ==> key.connection_path == arguments[0].text@
            && key.setting_name == arguments[1].text@,
{
}

/// What each method does: a cancellation takes back the request that it names, and no
/// other method changes anything.
pub proof fn what_methods_do(
    exchange: ExchangeView,
    member: Option<Seq<char>>,
    arguments: Seq<BusArgument>,
)
    ensures
        member != Some("CancelGetSecrets"@) ==> exchange_after_method(exchange, member, arguments)
            == exchange,
        member == Some("CancelGetSecrets"@) && cancellation_of(arguments) is Ok
            && exchange.pending is Some && !exchange.pending->Some_0.reply_started
            && exchange.pending->Some_0.key == cancellation_of(arguments)->Ok_0 ==> {
            let after = exchange_after_method(exchange, member, arguments);
            &&& after.pending is None
            &&& after.cancelled == exchange.cancelled.push(exchange.pending->Some_0)
        },
        member == Some("CancelGetSecrets"@) && exchange.pending is Some
            && exchange.pending->Some_0.reply_started ==> exchange_after_method(
            exchange,
            member,
            arguments,
        ) == exchange,
        member == Some("CancelGetSecrets"@) && cancellation_of(arguments) is Ok
            && exchange.pending is Some && exchange.pending->Some_0.key != cancellation_of(
            arguments,
        )->Ok_0 ==> exchange_after_method(exchange, member, arguments) == exchange,
        member is None ==> method_reply(member, arguments) is Err,
        member == Some("GetSecrets"@) ==> method_reply(member, arguments) is Err,
{
}

/// A lease is taken from the request that is pending, while it lives.
pub proof fn what_a_lease_is_taken_from(exchange: ExchangeView, now: u64)
    ensures
        lease_of(exchange, now) is Ok <==> exchange.pending is Some && now
            < exchange.pending->Some_0.deadline,
        lease_of(exchange, now) matches Ok(lease) ==> {
            &&& lease.request_id == exchange.pending->Some_0.id
            &&& lease.key == exchange.pending->Some_0.key
            &&& lease.deadline == exchange.pending->Some_0.deadline
            &&& lease.serial == Some(exchange.pending->Some_0.serial)
        },
        lease_of(exchange, now) matches Ok(lease) ==> (may_submit(exchange, lease, now) is Ok
            <==> exchange.pending->Some_0.slot == SlotView::Empty),
{
}

/// A begun request is the pending one, empty, and numbered by how many came before.
pub proof fn what_a_begun_request_is(
    exchange: ExchangeView,
    id: Seq<u8>,
    key: KeyView,
    deadline: u64,
)
    requires
        exchange.begun < u64::MAX,
    ensures
        ({
            let after = with_begun(exchange, id, key, deadline);
            &&& after.pending is Some
            &&& after.pending->Some_0.id == id
            &&& after.pending->Some_0.key == key
            &&& after.pending->Some_0.deadline == deadline
            &&& after.pending->Some_0.slot == SlotView::Empty
            &&& after.pending->Some_0.serial == exchange.begun
            &&& !after.pending->Some_0.reply_started
            &&& after.begun == exchange.begun + 1
            &&& after.cancelled == exchange.cancelled
        }),
{
}

/// A challenge is answered in time, with its own identifier in front of the secret.
pub proof fn when_a_challenge_is_answered(
    challenge: ChallengeView,
    id: Seq<u8>,
    secret: Seq<u8>,
    now: u64,
)
    requires
        id.len() == 16,
        secret.len() > 0,
        secret.len() + 16 <= 65_536,
    ensures
        answered(Some(challenge), id + secret, now) is Ok <==> now < challenge.deadline && id
            == challenge.id,
        answered(None, id + secret, now) is Err,
        answered(Some(challenge), id, now) is Err,
{
    assert((id + secret).take(16) =~= id);
}

/// What a secret that was found is worth: it must be in time and readable.
pub proof fn what_a_found_secret_is_worth(held: HeldView, deadline: u64, now: u64)
    ensures
        found_open(held, deadline, now) == WaitView::Ready(held) <==> now < deadline && valid_utf8(
            held.secret,
        ),
        found_open(held, deadline, now) is Pending ==> false,
{
}

/// Which sockets can be named.
pub proof fn which_sockets_can_be_named(bytes: Seq<u8>)
    ensures
        socket_path(bytes) is Ok <==> bytes.len() > 0 && bytes[0] == 0x2f && !bytes.contains(0u8),
{
}

/// What a conversation came to.
pub proof fn what_a_conversation_came_to(end: ConversationEnd)
    ensures
        end is Cancelled ==> conversation_result(end)->Err_0.0 == ErrorKind::Interrupted,
        end is TimedOut ==> conversation_result(end)->Err_0.0 == ErrorKind::TimedOut,
        end matches ConversationEnd::Ended(result) ==> (conversation_result(end) is Ok <==> result
            is Ok),
        end is Cancelled || end is TimedOut ==> conversation_result(end) is Err,
{
}

/// A negative year has its sign in front of its digits.
pub proof fn negative_years_have_their_sign(year: int)
    requires
        -1_000 < year < 0,
    ensures
        padded_signed(year, 4).len() == 4,
        padded_signed(year, 4)[0] == '-',
        digits_value(padded_signed(year, 4).skip(1)) == -year,
{
    reveal_strlit("-");
    let n = (-year) as nat;
    numbers_are_filled_up(n, 3);
    assert(padded_signed(year, 4).skip(1) =~= padded(n, 3));
    reveal_with_fuel(decimal, 4);
}

/// Which records of requests are accepted when they are read back.
pub proof fn which_records_are_accepted(
    record: crate::desktop::dedupe::RecordView,
    rejection: Option<Seq<char>>,
)
    ensures
        record_fault(record, rejection) is None <==> {
            &&& is_canonical_uuid(record.request_id)
            &&& record.result is Some ==> rejection is None && record.result->Some_0.request_id
                == record.request_id
        },
{
}

/// A write took effect when it was done, or when it is found on the disk all the same.
pub proof fn when_a_write_took_effect(
    error: String,
    on_disk: Option<DedupeDocument>,
    sync_error: Option<String>,
    staged: DedupeDocumentView,
)
    ensures
        took_effect(WriteReport::Replaced, staged),
        took_effect(WriteReport::Failed { error, on_disk, sync_error }, staged) <==> {
            &&& on_disk is Some
            &&& on_disk->Some_0@ == staged
            &&& sync_error is None
        },
{
}

/// The secrets are neither saved nor deleted here, but the calls are answered where they
/// are well formed.
pub proof fn how_saving_is_answered(arguments: Seq<BusArgument>)
    ensures
        method_reply(Some("SaveSecrets"@), arguments) is Ok <==> arguments.len() == 2
            && arguments[0].signature@ == "a{sa{sv}}"@ && arguments[1].signature@ == "o"@,
        method_reply(Some("DeleteSecrets"@), arguments) is Ok <==> arguments.len() == 2
            && arguments[0].signature@ == "a{sa{sv}}"@ && arguments[1].signature@ == "o"@,
        method_reply(Some("CancelGetSecrets"@), arguments) is Ok <==> arguments.len() == 2
            && arguments[0].signature@ == "o"@ && arguments[1].signature@ == "s"@,
{
    reveal_strlit("SaveSecrets");
    reveal_strlit("DeleteSecrets");
    reveal_strlit("CancelGetSecrets");
    reveal_strlit("GetSecrets");
    assert("SaveSecrets"@.len() == 11 && "DeleteSecrets"@.len() == 13);
    assert("CancelGetSecrets"@.len() == 16 && "GetSecrets"@.len() == 10);
}

/// A request lives while it is the pending one.
pub proof fn which_request_lives(exchange: ExchangeView, id: Seq<u8>)
    ensures
        exchange.pending is None ==> !is_live(exchange, id),
        exchange.pending is Some ==> (is_live(exchange, id) <==> exchange.pending->Some_0.id == id),
        is_live(exchange, id) ==> with_completed(exchange, id).pending is None,
        with_completed(exchange, id).cancelled == exchange.cancelled,
{
}

/// An empty calendar has no events, and an empty weather says that no place is known.
pub proof fn what_is_shown_without_a_service(calendar: CalendarSnapshot, weather: WeatherSnapshot)
    ensures
        is_empty_calendar(calendar) ==> {
            &&& calendar.schema_version == 1
            &&& calendar.provider_id@ == "sleepy-calendar"@
            &&& calendar.window_start@ == "1970-01-01T00:00:00Z"@
            &&& calendar.window_end@ == "1970-01-02T00:00:00Z"@
            &&& calendar.events@.len() == 0
            &&& calendar.source_errors@.len() == 0
        },
        is_empty_weather(weather) ==> {
            &&& weather.schema_version == 1
            &&& weather.provider_id@ == "sleepy-weather"@
            &&& weather.location.display_name@ == "Unconfigured"@
            &&& weather.status == ProviderStatus::Offline
            &&& weather.cache == CacheStatus::Missing
            &&& weather.forecast@.len() == 0
            &&& weather.diagnostic is Some
        },
{
}

} // verus!

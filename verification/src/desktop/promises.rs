//! What the desktop promises, said of what goes in and what comes out.

use vstd::prelude::*;

use crate::command::{CommandView, RunState};
use crate::desktop::clipboard::{
    clear_line, decode_line, entry_number, list_line, preview_of, with_entry, with_listed,
    EntryView, ListRowView,
};
use crate::desktop::commands::UtilityCommand;
use crate::desktop::domain::{
    domain_of, CapabilityAvailability, DesktopDomainId, DesktopDomainState, DesktopDomainValue,
    RecordingStatus, StableId,
};
use crate::desktop::utilities::{
    acknowledgement, action_line, after_look, availability_of, bus_failure, capture_title,
    changed_domain, deletion_fault, game_mode_method, game_mode_verdict, is_output_char,
    is_output_name, is_recording_char, is_recording_name, is_utility_domain, output_in,
    output_path_fits, pausable, program_ended, reads_as, record_line, recording_of,
    recording_title, run_active, shown_entry, taken_after, toggled, ClipboardWrite, HelperRead,
    HelperStatus, RecordingFile, RuntimeView,
};
use crate::error::{ErrorKind, Fault, SessionError};
use crate::ids::uuid_hyphenated;
use crate::text::{
    byte_len, decimal, decimal_spells_the_number, encoding_of_concatenation, ends_with,
    first_index_is, hex_digits, is_blank, is_digit, split_limited, starts_with, trim_end,
};

verus! {

// ---------------------------------------------------------------------------
// Captures and recordings
// ---------------------------------------------------------------------------

/// A screenshot is taken in these words.
pub proof fn screenshots_are_taken_in_these_words(
    output_id: StableId,
    name: Seq<char>,
    path: Seq<char>,
)
    requires
        output_in(output_id.0@) == Ok::<Seq<char>, Fault>(name),
        output_path_fits(path) is Ok,
    ensures
        action_line(UtilityCommand::Screenshot { output_id }, path) == Ok::<
            Option<CommandView>,
            Fault,
        >(
            Some(
                CommandView {
                    program: "sleepy-capture-helper"@,
                    args: seq![
                        "screenshot"@,
                        "--interactive-consent"@,
                        "--output-id"@,
                        name,
                        "--output-path"@,
                        path,
                    ],
                    timeout: None,
                },
            ),
        ),
{
}

/// A recording is started in these words, with the sound exactly when it was asked for.
pub proof fn recordings_are_started_in_these_words(
    output_id: StableId,
    name: Seq<char>,
    path: Seq<char>,
)
    requires
        output_in(output_id.0@) == Ok::<Seq<char>, Fault>(name),
        output_path_fits(path) is Ok,
    ensures
        action_line(UtilityCommand::StartRecording { output_id, audio: true }, path) == Ok::<
            Option<CommandView>,
            Fault,
        >(
            Some(
                CommandView {
                    program: "sleepy-capture-helper"@,
                    args: seq![
                        "record"@,
                        "--interactive-consent"@,
                        "--output-id"@,
                        name,
                        "--output-path"@,
                        path,
                        "--audio"@,
                        "--status-fd"@,
                        "1"@,
                    ],
                    timeout: None,
                },
            ),
        ),
        action_line(UtilityCommand::StartRecording { output_id, audio: false }, path) == Ok::<
            Option<CommandView>,
            Fault,
        >(
            Some(
                CommandView {
                    program: "sleepy-capture-helper"@,
                    args: seq![
                        "record"@,
                        "--interactive-consent"@,
                        "--output-id"@,
                        name,
                        "--output-path"@,
                        path,
                        "--status-fd"@,
                        "1"@,
                    ],
                    timeout: None,
                },
            ),
        ),
{
    assert(record_line(name, path, true).args =~= seq![
        "record"@,
        "--interactive-consent"@,
        "--output-id"@,
        name,
        "--output-path"@,
        path,
        "--audio"@,
        "--status-fd"@,
        "1"@,
    ]);
    assert(record_line(name, path, false).args =~= seq![
        "record"@,
        "--interactive-consent"@,
        "--output-id"@,
        name,
        "--output-path"@,
        path,
        "--status-fd"@,
        "1"@,
    ]);
}

/// A colour is picked in these words, and no other command has a line of its own.
pub proof fn colours_are_picked_in_these_words(command: UtilityCommand, path: Seq<char>)
    ensures
        command is PickColor ==> action_line(command, path) == Ok::<Option<CommandView>, Fault>(
            Some(
                CommandView {
                    program: "sleepy-capture-helper"@,
                    args: seq!["pick-color"@, "--interactive-consent"@, "--clipboard"@],
                    timeout: None,
                },
            ),
        ),
        !(command is PickColor || command is Screenshot || command is StartRecording)
            ==> action_line(command, path) == Ok::<Option<CommandView>, Fault>(None),
{
}

/// The identifier of an output leads to its name, with the prefix or without it. A name
/// is made of letters, digits, dots, hyphens and underscores.
pub proof fn outputs_are_known_by_their_names(name: Seq<char>, i: int)
    ensures
        is_output_name(name) ==> output_in("output:"@ + name) == Ok::<Seq<char>, Fault>(name),
        is_output_name(name) ==> output_in(name) == Ok::<Seq<char>, Fault>(name),
        output_in(name) matches Ok(found) ==> {
            &&& found == name || "output:"@ + found == name
            &&& 0 < byte_len(found) <= 128
            &&& 0 <= i < found.len() ==> {
                ||| 'a' <= found[i] && found[i] <= 'z'
                ||| 'A' <= found[i] && found[i] <= 'Z'
                ||| '0' <= found[i] && found[i] <= '9'
                ||| found[i] == '-'
                ||| found[i] == '_'
                ||| found[i] == '.'
            }
        },
{
    let prefix = "output:"@;
    reveal_strlit("output:");
    let id = prefix + name;
    assert(id.take(prefix.len() as int) =~= prefix);
    assert(id.skip(prefix.len() as int) =~= name);
    if is_output_name(name) && starts_with(name, prefix) {
        assert(name[6] == name.take(7)[6]);
        assert(is_output_char(name[6]));
    }
    if output_in(name) is Ok {
        let found = output_in(name)->Ok_0;
        encoding_of_concatenation(found.take(1), found.skip(1));
        assert(found.take(1) + found.skip(1) =~= found);
        encode_utf8_first_scalar_is_not_empty(found);
        if starts_with(name, prefix) {
            assert(prefix + name.skip(7) =~= name);
        }
    }
}

proof fn encode_utf8_first_scalar_is_not_empty(s: Seq<char>)
    requires
        s.len() > 0,
    ensures
        byte_len(s) > 0,
{
    reveal_with_fuel(vstd::utf8::encode_utf8, 2);
    assert(vstd::utf8::encode_utf8(s).len() > 0);
}

/// Pausing twice is as if nothing had been done; only what is recorded can be paused.
pub proof fn pausing_twice_changes_nothing(status: RecordingStatus)
    ensures
        toggled(status) is Ok <==> status == RecordingStatus::Recording || status
            == RecordingStatus::Paused,
        toggled(status) matches Ok(other) ==> other != status && toggled(other) == Ok::<
            RecordingStatus,
            Fault,
        >(status),
{
}

/// A recording can be paused, or taken up again, while its helper runs.
pub proof fn when_a_recording_can_be_paused(runtime: RuntimeView, helper: HelperStatus)
    ensures
        pausable(runtime, helper) is Ok <==> {
            &&& runtime.running
            &&& helper == HelperStatus::Alive
            &&& runtime.state.status != RecordingStatus::Inactive
        },
        pausable(runtime, helper) matches Ok(desired) ==> match runtime.state.status {
            RecordingStatus::Recording => desired == RecordingStatus::Paused,
            _ => desired == RecordingStatus::Recording,
        },
{
}

/// A helper that has gone leaves nothing recorded; otherwise a look changes nothing.
pub proof fn what_a_look_at_a_recording_changes(runtime: RuntimeView, helper: HelperStatus)
    ensures
        ({
            let after = after_look(runtime, helper);
            &&& runtime.running && helper == HelperStatus::Exited ==> {
                &&& !after.running
                &&& after.state.status == RecordingStatus::Inactive
                &&& after.state.recording_id is None
                &&& after.state.output_id is None
            }
            &&& !runtime.running || helper == HelperStatus::Alive ==> after == runtime
        }),
{
}

/// A started recording runs under its own identifier, on its own output.
pub proof fn what_a_started_recording_is(recording_id: Seq<char>, output_id: Seq<char>)
    ensures
        recording_of(recording_id, output_id).running,
        recording_of(recording_id, output_id).state.status == RecordingStatus::Recording,
        recording_of(recording_id, output_id).state.recording_id == Some(recording_id),
        recording_of(recording_id, output_id).state.output_id == Some(output_id),
{
}

/// A helper acknowledges a change by the word for the state that was asked for, and by
/// nothing else.
pub proof fn how_a_helper_acknowledges(expected: RecordingStatus, line: String)
    ensures
        acknowledgement(expected, HelperRead::Line(line)) == Some(Ok::<(), Fault>(())) <==> {
            &&& byte_len(line@) <= 64
            &&& match expected {
                RecordingStatus::Recording => trim_end(line@) == "STATE recording"@,
                RecordingStatus::Paused => trim_end(line@) == "STATE paused"@,
                RecordingStatus::Inactive => trim_end(line@) == "STATE inactive"@,
            }
        },
        acknowledgement(expected, HelperRead::Nothing) is None,
        acknowledgement(expected, HelperRead::End(HelperStatus::Alive)) is None,
        acknowledgement(expected, HelperRead::End(HelperStatus::Exited)) == Some(
            Err::<(), Fault>(
                (ErrorKind::BrokenPipe, "recording helper exited before acknowledgement"@),
            ),
        ),
{
}

/// A recording is deleted only if it is a regular file of the user.
pub proof fn which_recordings_are_deleted(found: Option<RecordingFile>, uid: u32)
    ensures
        deletion_fault(found, uid) is None <==> {
            &&& found is Some
            &&& found->Some_0.regular
            &&& found->Some_0.uid == uid
        },
        found is None ==> deletion_fault(found, uid)->Some_0.0 == ErrorKind::NotFound,
        found is Some && deletion_fault(found, uid) is Some ==> deletion_fault(found, uid)->Some_0.0
            == ErrorKind::PermissionDenied,
{
}

/// The name of a recording: letters, digits and few other characters, and neither a
/// directory above nor one below.
pub proof fn which_names_are_recordings(s: Seq<char>, i: int)
    requires
        is_recording_name(s),
        0 <= i < s.len(),
    ensures
        s[i] != '/',
        s[i] != '\0',
        s.take(10) == "recording_"@,
        s.skip(s.len() - 4) == ".mp4"@,
{
    reveal_strlit("recording_");
    reveal_strlit(".mp4");
    assert(is_recording_char(s[i]));
}

/// The name of a capture has its prefix, its identifier and its ending.
pub proof fn how_captures_are_named(prefix: Seq<char>, id: u128, extension: Seq<char>)
    ensures
        starts_with(capture_title(prefix, id, extension), prefix + seq!['-']),
        ends_with(capture_title(prefix, id, extension), seq!['.'] + extension),
        capture_title(prefix, id, extension).len() == prefix.len() + 1 + uuid_hyphenated(id).len()
            + 1 + extension.len(),
        capture_title(prefix, id, extension).skip(prefix.len() + 1int).take(
            uuid_hyphenated(id).len() as int,
        ) == uuid_hyphenated(id),
{
    let title = capture_title(prefix, id, extension);
    assert(title.take(prefix.len() + 1int) =~= prefix + seq!['-']);
    assert(title.skip(title.len() - (extension.len() + 1)) =~= seq!['.'] + extension);
    assert(title.skip(prefix.len() + 1int).take(uuid_hyphenated(id).len() as int)
        =~= uuid_hyphenated(id));
}

/// A recording has its time and its identifier in its name.
pub proof fn how_recordings_are_named(stamp: Seq<char>, id: u128)
    ensures
        starts_with(recording_title(stamp, id), "recording_"@ + stamp + seq!['_']),
        ends_with(recording_title(stamp, id), hex_digits(id as nat, 32) + ".mp4"@),
{
    let title = recording_title(stamp, id);
    let head = "recording_"@ + stamp + seq!['_'];
    let tail = hex_digits(id as nat, 32) + ".mp4"@;
    assert(title =~= head + tail);
    assert(title.take(head.len() as int) =~= head);
    assert(title.skip(title.len() - tail.len()) =~= tail);
}

// ---------------------------------------------------------------------------
// Game mode and programs
// ---------------------------------------------------------------------------

/// Game mode is turned on and off by these methods; a reply below zero is a refusal.
pub proof fn how_game_mode_is_changed(reply: Result<i32, SessionError>)
    ensures
        game_mode_method(true) == "RegisterGame"@,
        game_mode_method(false) == "UnregisterGame"@,
        game_mode_verdict(reply) is Ok <==> reply is Ok && reply->Ok_0 >= 0,
{
}

/// A program that ended well ended well; one that has not ended is waited for until the
/// deadline.
pub proof fn when_a_program_has_ended(
    success: Option<bool>,
    now: u64,
    deadline: u64,
    late: Seq<char>,
)
    ensures
        program_ended(success, now, deadline, late) == Some(Ok::<(), Fault>(())) <==> success
            == Some(true),
        program_ended(success, now, deadline, late) is None <==> success is None && now < deadline,
        success is None && now >= deadline ==> program_ended(success, now, deadline, late) == Some(
            Err::<(), Fault>((ErrorKind::TimedOut, late)),
        ),
        success == Some(false) ==> program_ended(success, now, deadline, late) == Some(
            Err::<(), Fault>((ErrorKind::Other, "utility process failed"@)),
        ),
{
}

/// What was taken is behind; what was not taken is tried again.
pub proof fn what_was_taken_is_behind(offset: usize, count: usize)
    ensures
        count > 0 ==> taken_after(offset, ClipboardWrite::Taken(count)) == Ok::<int, Fault>(
            offset + count,
        ),
        taken_after(offset, ClipboardWrite::Taken(0)) is Err,
        taken_after(offset, ClipboardWrite::Full(HelperStatus::Alive)) == Ok::<int, Fault>(
            offset as int,
        ),
        taken_after(offset, ClipboardWrite::Full(HelperStatus::Exited)) is Err,
{
}

/// A run goes on while it was not cancelled and has time left.
pub proof fn when_a_run_goes_on(state: RunState, operation: Seq<char>)
    ensures
        run_active(state, operation) is Ok <==> !state.cancelled && state.remaining > 0,
        state.cancelled ==> run_active(state, operation)->Err_0.0 == ErrorKind::Interrupted,
        !state.cancelled && state.remaining == 0 ==> run_active(state, operation)->Err_0.0
            == ErrorKind::TimedOut,
{
}

/// How a failure of the bus is classed.
pub proof fn how_bus_failures_are_classed(name: Option<Seq<char>>)
    ensures
        bus_failure(name) == ErrorKind::PermissionDenied <==> name == Some(
            "org.freedesktop.DBus.Error.AccessDenied"@,
        ),
        bus_failure(name) == ErrorKind::TimedOut <==> name == Some(
            "org.freedesktop.DBus.Error.NoReply"@,
        ),
        name is None ==> bus_failure(name) == ErrorKind::Other,
{
    reveal_strlit("org.freedesktop.DBus.Error.AccessDenied");
    reveal_strlit("org.freedesktop.DBus.Error.NoReply");
    assert("org.freedesktop.DBus.Error.AccessDenied"@.len() == 39);
    assert("org.freedesktop.DBus.Error.NoReply"@.len() == 34);
}

/// How an error is shown.
pub proof fn how_errors_are_shown(kind: ErrorKind)
    ensures
        availability_of(kind) == CapabilityAvailability::Unavailable <==> kind
            == ErrorKind::NotFound || kind == ErrorKind::NotConnected,
        availability_of(kind) == CapabilityAvailability::PermissionDenied <==> kind
            == ErrorKind::PermissionDenied,
        availability_of(kind) == CapabilityAvailability::Timeout <==> kind == ErrorKind::TimedOut,
        availability_of(kind) == CapabilityAvailability::Parse <==> kind == ErrorKind::InvalidData
            || kind == ErrorKind::InvalidInput,
        availability_of(kind) == CapabilityAvailability::Unsupported <==> kind
            == ErrorKind::Unsupported,
        availability_of(kind) != CapabilityAvailability::Available,
{
}

/// What was read is what is shown; what could not be read is shown with its reason.
pub proof fn what_was_read_is_shown(
    state: DesktopDomainState,
    domain: DesktopDomainId,
    reading: Result<DesktopDomainValue, SessionError>,
)
    requires
        reads_as(state, domain, reading),
    ensures
        state@.domain == domain,
        reading is Ok && domain_of(reading->Ok_0) == domain ==> state@.value == Some(reading->Ok_0)
            && state@.status == CapabilityAvailability::Available,
        reading is Err || domain_of(reading->Ok_0) != domain ==> state@.value is None
            && state@.status != CapabilityAvailability::Available,
        reading is Err && !is_blank(reading->Err_0.message@) ==> state@.reason == Some(
            reading->Err_0.message@,
        ),
        reading is Err && is_blank(reading->Err_0.message@) ==> state@.reason == Some(
            "utility provider failed"@,
        ),
{
}

/// Every command changes a domain of the utilities, the one it is about.
pub proof fn commands_change_what_they_are_about(command: UtilityCommand)
    ensures
        is_utility_domain(changed_domain(command)),
        changed_domain(command) == DesktopDomainId::Tray <==> command is InvokeTrayMenu,
        changed_domain(command) == DesktopDomainId::Clipboard <==> command is PasteClipboard
            || command is ClearClipboard,
        changed_domain(command) == DesktopDomainId::IdleInhibit <==> command is SetIdleInhibited,
        changed_domain(command) == DesktopDomainId::Recording <==> command is StartRecording
            || command is PauseRecording || command is StopRecording || command is DeleteRecording,
        changed_domain(command) == DesktopDomainId::Screenshot <==> command is Screenshot,
        changed_domain(command) == DesktopDomainId::ColorPicker <==> command is PickColor,
        changed_domain(command) == DesktopDomainId::GameMode <==> command is SetGameMode,
{
}

// ---------------------------------------------------------------------------
// The clipboard
// ---------------------------------------------------------------------------

/// The history is listed, read and wiped in these words.
pub proof fn the_history_is_asked_in_these_words(number: Seq<char>)
    ensures
        list_line() == (CommandView {
            program: "cliphist"@,
            args: seq!["list"@],
            timeout: Some(5_000),
        }),
        clear_line() == (CommandView {
            program: "cliphist"@,
            args: seq!["wipe"@],
            timeout: Some(5_000),
        }),
        entry_number(number) is Ok ==> decode_line("clipboard:"@ + number) == Ok::<
            CommandView,
            Fault,
        >(
            CommandView {
                program: "cliphist"@,
                args: seq!["decode"@, number],
                timeout: Some(5_000),
            },
        ),
{
    if entry_number(number) is Ok {
        let prefix = "clipboard:"@;
        let id = prefix + number;
        assert(id.take(prefix.len() as int) =~= prefix);
        assert(id.skip(prefix.len() as int) =~= number);
    }
}

/// The number of an entry is written as numbers are.
pub proof fn numbers_of_entries_are_canonical(n: nat)
    requires
        n <= u64::MAX,
    ensures
        entry_number(decimal(n)) == Ok::<Seq<char>, Fault>(decimal(n)),
        entry_number(seq!['+'] + decimal(n)) is Err,
{
    decimal_spells_the_number(n);
    assert(is_digit(decimal(n)[0]));
    let signed = seq!['+'] + decimal(n);
    assert(signed.skip(1) =~= decimal(n));
    assert(signed.len() == decimal(n).len() + 1);
}

/// A preview is the beginning of its text, all of it where it is short.
pub proof fn a_preview_is_the_beginning(s: Seq<char>)
    ensures
        preview_of(s).len() <= 512,
        s.len() <= 512 ==> preview_of(s) == s,
        s.len() > 512 ==> preview_of(s) == s.take(512),
{
}

/// A row of the history is read as it is shown: the number before the first tab, the
/// preview behind it.
pub proof fn rows_of_the_history_are_read(
    found: Seq<ListRowView>,
    n: nat,
    preview: Seq<char>,
)
    requires
        n <= u64::MAX,
        found.len() < 500,
    ensures
        with_listed(found, decimal(n) + seq!['\t'] + preview) matches Ok(rows) && {
            &&& rows.len() == found.len() + 1
            &&& rows.drop_last() == found
            &&& rows.last().number == decimal(n)
            &&& rows.last().preview == if preview.len() <= 512 {
                preview
            } else {
                preview.take(512)
            }
        },
{
    numbers_of_entries_are_canonical(n);
    decimal_spells_the_number(n);
    let line = decimal(n) + seq!['\t'] + preview;
    let at = decimal(n).len() as int;
    assert forall|i: int| 0 <= i < at implies line[i] != '\t' by {
        assert(is_digit(decimal(n)[i]));
    }
    first_index_is(line, '\t', at);
    assert(line.take(at) =~= decimal(n));
    assert(line.skip(at + 1) =~= preview);
    let row = ListRowView { number: decimal(n), preview: preview_of(preview) };
    assert(found.push(row).drop_last() =~= found);
}

/// An entry is shown under its number, with its preview and the length of it in bytes;
/// binary data is told from text by its preview.
pub proof fn how_entries_are_shown(row: ListRowView)
    requires
        byte_len(row.preview) <= u64::MAX,
    ensures
        shown_entry(row).id == "clipboard:"@ + row.number,
        shown_entry(row).preview == row.preview,
        shown_entry(row).byte_length == byte_len(row.preview),
        shown_entry(row).mime_type == "application/octet-stream"@ || shown_entry(row).mime_type
            == "text/plain;charset=utf-8"@,
        shown_entry(row).mime_type == "application/octet-stream"@ <==> starts_with(
            row.preview,
            "[[ binary data"@,
        ),
{
    reveal_strlit("application/octet-stream");
    reveal_strlit("text/plain;charset=utf-8");
    assert("application/octet-stream"@[0] == 'a');
    assert("text/plain;charset=utf-8"@[0] == 't');
}

/// A row of metadata is read field by field.
pub proof fn rows_of_metadata_are_read(
    found: Seq<EntryView>,
    n: nat,
    kind: Seq<char>,
    preview: Seq<char>,
    length: nat,
)
    requires
        n <= u64::MAX,
        length <= u64::MAX,
        found.len() < 500,
        !is_blank(kind),
        !kind.contains('\t'),
        !preview.contains('\t'),
    ensures
        with_entry(
            found,
            decimal(n) + seq!['\t'] + (kind + seq!['\t'] + (preview + seq!['\t'] + decimal(length))),
        ) matches Ok(entries) && {
            &&& entries.len() == found.len() + 1
            &&& entries.drop_last() == found
            &&& entries.last().id == "clipboard:"@ + decimal(n)
            &&& entries.last().mime_type == kind
            &&& entries.last().preview == if preview.len() <= 512 {
                preview
            } else {
                preview.take(512)
            }
            &&& entries.last().byte_length == length
        },
{
    numbers_of_entries_are_canonical(n);
    decimal_spells_the_number(n);
    decimal_spells_the_number(length);
    let third = preview + seq!['\t'] + decimal(length);
    let second = kind + seq!['\t'] + third;
    let line = decimal(n) + seq!['\t'] + second;
    let at = decimal(n).len() as int;
    assert forall|i: int| 0 <= i < at implies line[i] != '\t' by {
        assert(is_digit(decimal(n)[i]));
    }
    first_index_is(line, '\t', at);
    assert(line.take(at) =~= decimal(n));
    assert(line.skip(at + 1) =~= second);
    let then = kind.len() as int;
    assert forall|i: int| 0 <= i < then implies second[i] != '\t' by {
        assert(kind[i] == second[i]);
    }
    first_index_is(second, '\t', then);
    assert(second.take(then) =~= kind);
    assert(second.skip(then + 1) =~= third);
    let last = preview.len() as int;
    assert forall|i: int| 0 <= i < last implies third[i] != '\t' by {
        assert(preview[i] == third[i]);
    }
    first_index_is(third, '\t', last);
    assert(third.take(last) =~= preview);
    assert(third.skip(last + 1) =~= decimal(length));
    reveal_with_fuel(split_limited, 5);
    let fields = split_limited(line, '\t', 4);
    assert(split_limited(decimal(length), '\t', 1) == seq![decimal(length)]);
    assert(split_limited(third, '\t', 2) == seq![preview] + seq![decimal(length)]);
    assert(split_limited(second, '\t', 3) == seq![kind] + (seq![preview] + seq![decimal(length)]));
    assert(fields =~= seq![decimal(n), kind, preview, decimal(length)]);
    assert(is_digit(decimal(length)[0]));
    let entry = EntryView {
        id: "clipboard:"@ + decimal(n),
        mime_type: kind,
        preview: preview_of(preview),
        byte_length: length as u64,
    };
    assert(found.push(entry).drop_last() =~= found);
}

} // verus!
